//! Comparing a paper's format against requirements: requirements read from
//! free text, font and alignment names matched loosely, heading levels read
//! from style names, and the issues a comparison reports.
//!
//! Sizes and distances in requirements are held in tenths of their unit
//! (points, lines, centimetres, characters).
use vstd::prelude::*;
use vstd::string::*;
use vstd::utf8::*;
use crate::text::{bytes, contains, contains_str, decimal, push_decimal, str_eq, to_lowercase, lowercase, trim, trim_str};
use crate::{FormatIssue, IssueLocation};

verus! {

broadcast use vstd::utf8::encode_utf8_valid_utf8;

/// `p` occurs in `t`, compared as UTF-8 bytes (as `str::contains`).
pub open spec fn mentions(t: Seq<char>, p: Seq<char>) -> bool {
    contains(encode_utf8(t), encode_utf8(p))
}

/// Every text occurs in itself.
proof fn lemma_mentions_self(t: Seq<char>)
    ensures
        mentions(t, t),
{
    let b = encode_utf8(t);
    assert(b.subrange(0, b.len() as int) =~= b);
}

fn mentions_exec(t: &str, p: &str) -> (r: bool)
    ensures
        r == mentions(t@, p@),
{
    contains_str(t, p)
}

// ---------------------------------------------------------------------------
// Requirements read from text
// ---------------------------------------------------------------------------

/// Format requirements. Sizes are in tenths of a point, line spacing in
/// tenths of a line, margins in tenths of a centimetre and indents in tenths
/// of a character.
#[derive(Clone, Debug)]
pub struct FormatRequirements {
    pub font_body: Option<String>,
    pub font_title: Option<String>,
    pub font_size_body: Option<u32>,
    pub font_size_heading1: Option<u32>,
    pub font_size_heading2: Option<u32>,
    pub font_size_heading3: Option<u32>,
    pub line_spacing: Option<u32>,
    pub margin_top: Option<u32>,
    pub margin_bottom: Option<u32>,
    pub margin_left: Option<u32>,
    pub margin_right: Option<u32>,
    pub indent_body: Option<u32>,
    pub indent_first_line: Option<u32>,
    pub alignment_body: Option<String>,
    pub citation_style: Option<String>,
    pub bibliography_style: Option<String>,
}

/// Format requirements with their texts as characters.
pub struct RequirementsModel {
    pub font_body: Option<Seq<char>>,
    pub font_title: Option<Seq<char>>,
    pub font_size_body: Option<u32>,
    pub font_size_heading1: Option<u32>,
    pub font_size_heading2: Option<u32>,
    pub font_size_heading3: Option<u32>,
    pub line_spacing: Option<u32>,
    pub margin_top: Option<u32>,
    pub margin_bottom: Option<u32>,
    pub margin_left: Option<u32>,
    pub margin_right: Option<u32>,
    pub indent_body: Option<u32>,
    pub indent_first_line: Option<u32>,
    pub alignment_body: Option<Seq<char>>,
    pub citation_style: Option<Seq<char>>,
    pub bibliography_style: Option<Seq<char>>,
}

/// The characters of an optional string.
pub open spec fn opt_view(s: Option<String>) -> Option<Seq<char>> {
    match s {
        Some(x) => Some(x@),
        None => None,
    }
}

impl View for FormatRequirements {
    type V = RequirementsModel;

    open spec fn view(&self) -> RequirementsModel {
        RequirementsModel {
            font_body: opt_view(self.font_body),
            font_title: opt_view(self.font_title),
            font_size_body: self.font_size_body,
            font_size_heading1: self.font_size_heading1,
            font_size_heading2: self.font_size_heading2,
            font_size_heading3: self.font_size_heading3,
            line_spacing: self.line_spacing,
            margin_top: self.margin_top,
            margin_bottom: self.margin_bottom,
            margin_left: self.margin_left,
            margin_right: self.margin_right,
            indent_body: self.indent_body,
            indent_first_line: self.indent_first_line,
            alignment_body: opt_view(self.alignment_body),
            citation_style: opt_view(self.citation_style),
            bibliography_style: opt_view(self.bibliography_style),
        }
    }
}

/// No requirement at all.
pub open spec fn no_requirements() -> RequirementsModel {
    RequirementsModel {
        font_body: None,
        font_title: None,
        font_size_body: None,
        font_size_heading1: None,
        font_size_heading2: None,
        font_size_heading3: None,
        line_spacing: None,
        margin_top: None,
        margin_bottom: None,
        margin_left: None,
        margin_right: None,
        indent_body: None,
        indent_first_line: None,
        alignment_body: None,
        citation_style: None,
        bibliography_style: None,
    }
}

impl Default for FormatRequirements {
    fn default() -> (r: Self)
        ensures
            r@ == no_requirements(),
    {
        FormatRequirements {
            font_body: None,
            font_title: None,
            font_size_body: None,
            font_size_heading1: None,
            font_size_heading2: None,
            font_size_heading3: None,
            line_spacing: None,
            margin_top: None,
            margin_bottom: None,
            margin_left: None,
            margin_right: None,
            indent_body: None,
            indent_first_line: None,
            alignment_body: None,
            citation_style: None,
            bibliography_style: None,
        }
    }
}

/// The body font a lowercased text asks for.
pub open spec fn body_font_in(t: Seq<char>) -> Option<Seq<char>> {
    if mentions(t, "宋体"@) {
        Some("宋体"@)
    } else if mentions(t, "times"@) || mentions(t, "times new roman"@) {
        Some("Times New Roman"@)
    } else {
        None
    }
}

/// The body size a lowercased text asks for, in tenths of a point.
pub open spec fn body_size_in(t: Seq<char>) -> Option<u32> {
    if mentions(t, "五号"@) || mentions(t, "10.5"@) {
        Some(105)
    } else if mentions(t, "小五"@) || mentions(t, "9"@) {
        Some(90)
    } else if mentions(t, "四号"@) || mentions(t, "14"@) {
        Some(140)
    } else {
        None
    }
}

/// The first-level heading size a lowercased text asks for, in tenths of a point.
pub open spec fn heading1_size_in(t: Seq<char>) -> Option<u32> {
    if mentions(t, "三号"@) || mentions(t, "15"@) {
        Some(150)
    } else if mentions(t, "四号"@) || mentions(t, "14"@) {
        Some(140)
    } else {
        None
    }
}

/// The line spacing a lowercased text asks for, in tenths of a line.
pub open spec fn spacing_in(t: Seq<char>) -> Option<u32> {
    if mentions(t, "1.5"@) || mentions(t, "1.5倍"@) {
        Some(15)
    } else if mentions(t, "2.0"@) || mentions(t, "2倍"@) {
        Some(20)
    } else if mentions(t, "1.0"@) || mentions(t, "单倍"@) {
        Some(10)
    } else {
        None
    }
}

/// The margin a lowercased text asks for on every side, in tenths of a centimetre.
pub open spec fn margin_in(t: Seq<char>) -> Option<u32> {
    if mentions(t, "2.5"@) || mentions(t, "2.5cm"@) {
        Some(25)
    } else if mentions(t, "3.0"@) || mentions(t, "3cm"@) {
        Some(30)
    } else {
        None
    }
}

/// The body alignment a lowercased text asks for.
pub open spec fn alignment_in(t: Seq<char>) -> Option<Seq<char>> {
    if mentions(t, "两端对齐"@) || mentions(t, "justify"@) {
        Some("justify"@)
    } else if mentions(t, "左对齐"@) || mentions(t, "left"@) {
        Some("left"@)
    } else {
        None
    }
}

/// The text asks for GB/T 7714.
pub open spec fn asks_gbt(t: Seq<char>) -> bool {
    mentions(t, "gb/t 7714"@) || mentions(t, "gb/t7714"@)
}

/// The citation style a lowercased text asks for.
pub open spec fn citation_in(t: Seq<char>) -> Option<Seq<char>> {
    if asks_gbt(t) {
        Some("GB/T 7714"@)
    } else if mentions(t, "apa"@) {
        Some("APA"@)
    } else if mentions(t, "mla"@) {
        Some("MLA"@)
    } else {
        None
    }
}

/// The text asks for an indent of two characters.
pub open spec fn asks_two_chars(t: Seq<char>) -> bool {
    mentions(t, "2字符"@) || mentions(t, "2个字符"@)
}

/// The requirements a lowercased text states: each found by the words or
/// numbers that name it, the first that occurs winning.
pub open spec fn requirements_in(t: Seq<char>) -> RequirementsModel {
    RequirementsModel {
        font_body: body_font_in(t),
        font_title: if mentions(t, "黑体"@) { Some("黑体"@) } else { None },
        font_size_body: body_size_in(t),
        font_size_heading1: heading1_size_in(t),
        font_size_heading2: if mentions(t, "小四"@) || mentions(t, "12"@) { Some(120) } else { None },
        font_size_heading3: if mentions(t, "五号"@) || mentions(t, "10.5"@) { Some(105) } else { None },
        line_spacing: spacing_in(t),
        margin_top: margin_in(t),
        margin_bottom: margin_in(t),
        margin_left: margin_in(t),
        margin_right: margin_in(t),
        indent_body: if asks_two_chars(t) { Some(20) } else { None },
        indent_first_line: if asks_two_chars(t) || mentions(t, "首行缩进"@) { Some(20) } else { None },
        alignment_body: alignment_in(t),
        citation_style: citation_in(t),
        bibliography_style: if asks_gbt(t) { Some("GB/T 7714-2015"@) } else { None },
    }
}

/// Requirements read from text ask for one margin on all four sides, for a
/// body indent only together with the same first-line indent, and for a
/// bibliography style only together with the GB/T 7714 citation style.
pub proof fn lemma_requirements_consistent(text: Seq<char>)
    ensures
        requirements_in(lowercase(text)).margin_top == requirements_in(lowercase(text)).margin_bottom,
        requirements_in(lowercase(text)).margin_top == requirements_in(lowercase(text)).margin_left,
        requirements_in(lowercase(text)).margin_top == requirements_in(lowercase(text)).margin_right,
        requirements_in(lowercase(text)).indent_body is Some ==> requirements_in(lowercase(text)).indent_first_line
            == requirements_in(lowercase(text)).indent_body,
        requirements_in(lowercase(text)).bibliography_style is Some ==> requirements_in(
            lowercase(text),
        ).citation_style == Some("GB/T 7714"@),
{
}

/// Reading requirements looks at the lowercased text only: texts with the
/// same lowercase form give the same requirements.
pub proof fn lemma_requirements_case_blind(a: Seq<char>, b: Seq<char>)
    requires
        lowercase(a) == lowercase(b),
    ensures
        requirements_in(lowercase(a)) == requirements_in(lowercase(b)),
{
}

/// What the words of a lowercased text ask for. Fonts: 宋体 for the body,
/// else "times" for Times New Roman; 黑体 for titles. Sizes (tenths of a
/// point): the body in 五号/10.5, else 小五/9, else 四号/14; first-level
/// headings in 三号/15, else 四号/14; second-level in 小四/12; third-level in
/// 五号/10.5. Line spacing (tenths of a line): 1.5 for "1.5", else double for
/// "2.0" or "2倍", else single for "1.0" or "单倍".
#[verifier::spinoff_prover]
pub proof fn lemma_requirements_fonts_sizes_spacing(t: Seq<char>)
    ensures
        mentions(t, "宋体"@) ==> requirements_in(t).font_body == Some("宋体"@),
        !mentions(t, "宋体"@) && mentions(t, "times"@) ==> requirements_in(t).font_body == Some(
            "Times New Roman"@,
        ),
        !mentions(t, "宋体"@) && !mentions(t, "times"@) && !mentions(t, "times new roman"@)
            ==> requirements_in(t).font_body is None,
        mentions(t, "黑体"@) <==> requirements_in(t).font_title == Some("黑体"@),
        !mentions(t, "黑体"@) <==> requirements_in(t).font_title is None,
        mentions(t, "五号"@) || mentions(t, "10.5"@) ==> requirements_in(t).font_size_body == Some(105u32),
        !mentions(t, "五号"@) && !mentions(t, "10.5"@) && (mentions(t, "小五"@) || mentions(t, "9"@))
            ==> requirements_in(t).font_size_body == Some(90u32),
        !mentions(t, "五号"@) && !mentions(t, "10.5"@) && !mentions(t, "小五"@) && !mentions(t, "9"@) && (
        mentions(t, "四号"@) || mentions(t, "14"@)) ==> requirements_in(t).font_size_body == Some(140u32),
        !mentions(t, "五号"@) && !mentions(t, "10.5"@) && !mentions(t, "小五"@) && !mentions(t, "9"@)
            && !mentions(t, "四号"@) && !mentions(t, "14"@) ==> requirements_in(t).font_size_body is None,
        mentions(t, "三号"@) || mentions(t, "15"@) ==> requirements_in(t).font_size_heading1 == Some(150u32),
        !mentions(t, "三号"@) && !mentions(t, "15"@) && (mentions(t, "四号"@) || mentions(t, "14"@))
            ==> requirements_in(t).font_size_heading1 == Some(140u32),
        !mentions(t, "三号"@) && !mentions(t, "15"@) && !mentions(t, "四号"@) && !mentions(t, "14"@)
            ==> requirements_in(t).font_size_heading1 is None,
        mentions(t, "小四"@) || mentions(t, "12"@) ==> requirements_in(t).font_size_heading2 == Some(120u32),
        !mentions(t, "小四"@) && !mentions(t, "12"@) ==> requirements_in(t).font_size_heading2 is None,
        mentions(t, "五号"@) || mentions(t, "10.5"@) ==> requirements_in(t).font_size_heading3 == Some(105u32),
        !mentions(t, "五号"@) && !mentions(t, "10.5"@) ==> requirements_in(t).font_size_heading3 is None,
        mentions(t, "1.5"@) ==> requirements_in(t).line_spacing == Some(15u32),
        !mentions(t, "1.5"@) && !mentions(t, "1.5倍"@) && mentions(t, "2倍"@) ==> requirements_in(t).line_spacing
            == Some(20u32),
        !mentions(t, "1.5"@) && !mentions(t, "1.5倍"@) && mentions(t, "2.0"@) ==> requirements_in(t).line_spacing
            == Some(20u32),
        !mentions(t, "1.5"@) && !mentions(t, "1.5倍"@) && !mentions(t, "2.0"@) && !mentions(t, "2倍"@) && (
        mentions(t, "1.0"@) || mentions(t, "单倍"@)) ==> requirements_in(t).line_spacing == Some(10u32),
        !mentions(t, "1.5"@) && !mentions(t, "1.5倍"@) && !mentions(t, "2.0"@) && !mentions(t, "2倍"@)
            && !mentions(t, "1.0"@) && !mentions(t, "单倍"@) ==> requirements_in(t).line_spacing is None,
{
}

/// What the words of a lowercased text ask for. Margins (tenths of a
/// centimetre, all four sides alike): 2.5 for "2.5", else 3 for "3.0" or
/// "3cm". Indents (tenths of a character): two characters for the body and
/// the first line for "2字符" or "2个字符", else for the first line only for
/// "首行缩进". Alignment: justified for 两端对齐/justify, else left for
/// 左对齐/left. Citations: GB/T 7714 (with the GB/T 7714-2015 bibliography)
/// for "gb/t 7714" or "gb/t7714", else APA for "apa", else MLA for "mla".
#[verifier::spinoff_prover]
pub proof fn lemma_requirements_layout_citations(t: Seq<char>)
    ensures
        mentions(t, "2.5"@) ==> requirements_in(t).margin_top == Some(25u32)
            && requirements_in(t).margin_bottom == Some(25u32) && requirements_in(t).margin_left == Some(25u32)
            && requirements_in(t).margin_right == Some(25u32),
        !mentions(t, "2.5"@) && !mentions(t, "2.5cm"@) && (mentions(t, "3.0"@) || mentions(t, "3cm"@))
            ==> requirements_in(t).margin_top == Some(30u32) && requirements_in(t).margin_bottom == Some(30u32)
            && requirements_in(t).margin_left == Some(30u32) && requirements_in(t).margin_right == Some(30u32),
        !mentions(t, "2.5"@) && !mentions(t, "2.5cm"@) && !mentions(t, "3.0"@) && !mentions(t, "3cm"@)
            ==> requirements_in(t).margin_top is None && requirements_in(t).margin_bottom is None
            && requirements_in(t).margin_left is None && requirements_in(t).margin_right is None,
        mentions(t, "2字符"@) || mentions(t, "2个字符"@) ==> requirements_in(t).indent_body == Some(20u32)
            && requirements_in(t).indent_first_line == Some(20u32),
        !mentions(t, "2字符"@) && !mentions(t, "2个字符"@) ==> requirements_in(t).indent_body is None,
        !mentions(t, "2字符"@) && !mentions(t, "2个字符"@) ==> (requirements_in(t).indent_first_line == if mentions(
            t,
            "首行缩进"@,
        ) {
            Some(20u32)
        } else {
            None
        }),
        mentions(t, "两端对齐"@) || mentions(t, "justify"@) ==> requirements_in(t).alignment_body == Some(
            "justify"@,
        ),
        !mentions(t, "两端对齐"@) && !mentions(t, "justify"@) && (mentions(t, "左对齐"@) || mentions(t, "left"@))
            ==> requirements_in(t).alignment_body == Some("left"@),
        !mentions(t, "两端对齐"@) && !mentions(t, "justify"@) && !mentions(t, "左对齐"@) && !mentions(t, "left"@)
            ==> requirements_in(t).alignment_body is None,
        mentions(t, "gb/t 7714"@) || mentions(t, "gb/t7714"@) ==> requirements_in(t).citation_style == Some(
            "GB/T 7714"@,
        ) && requirements_in(t).bibliography_style == Some("GB/T 7714-2015"@),
        !mentions(t, "gb/t 7714"@) && !mentions(t, "gb/t7714"@) ==> requirements_in(t).bibliography_style is None,
        !mentions(t, "gb/t 7714"@) && !mentions(t, "gb/t7714"@) && mentions(t, "apa"@)
            ==> requirements_in(t).citation_style == Some("APA"@),
        !mentions(t, "gb/t 7714"@) && !mentions(t, "gb/t7714"@) && !mentions(t, "apa"@) && mentions(t, "mla"@)
            ==> requirements_in(t).citation_style == Some("MLA"@),
        !mentions(t, "gb/t 7714"@) && !mentions(t, "gb/t7714"@) && !mentions(t, "apa"@) && !mentions(t, "mla"@)
            ==> requirements_in(t).citation_style is None,
{
}

fn pick_text(t: &str, a: &str, b: &str, value: &str) -> (r: Option<String>)
    ensures
        r matches Some(v) ==> v@ == value@,
        r is Some <==> (mentions(t@, a@) || mentions(t@, b@)),
{
    if mentions_exec(t, a) || mentions_exec(t, b) {
        Some(value.to_owned())
    } else {
        None
    }
}

fn pick_number(t: &str, a: &str, b: &str, value: u32) -> (r: Option<u32>)
    ensures
        r == (if mentions(t@, a@) || mentions(t@, b@) { Some(value) } else { None }),
{
    if mentions_exec(t, a) || mentions_exec(t, b) {
        Some(value)
    } else {
        None
    }
}

/// Format requirements read from free text, matched without regard to case.
pub fn parse_format_requirements(text: &str) -> (req: FormatRequirements)
    ensures
        req@ == requirements_in(lowercase(text@)),
{
    let lower = to_lowercase(text);
    requirements_from_lowered(lower.as_str())
}

/// Format requirements read from free text that is already lowercased.
pub fn requirements_from_lowered(t: &str) -> (req: FormatRequirements)
    ensures
        req@ == requirements_in(t@),
{
    let mut req = FormatRequirements::default();

    req.font_body = match pick_text(t, "宋体", "宋体", "宋体") {
        Some(f) => Some(f),
        None => pick_text(t, "times", "times new roman", "Times New Roman"),
    };
    req.font_title = pick_text(t, "黑体", "黑体", "黑体");

    req.font_size_body = match pick_number(t, "五号", "10.5", 105) {
        Some(n) => Some(n),
        None => match pick_number(t, "小五", "9", 90) {
            Some(n) => Some(n),
            None => pick_number(t, "四号", "14", 140),
        },
    };
    req.font_size_heading1 = match pick_number(t, "三号", "15", 150) {
        Some(n) => Some(n),
        None => pick_number(t, "四号", "14", 140),
    };
    req.font_size_heading2 = pick_number(t, "小四", "12", 120);
    req.font_size_heading3 = pick_number(t, "五号", "10.5", 105);

    req.line_spacing = match pick_number(t, "1.5", "1.5倍", 15) {
        Some(n) => Some(n),
        None => match pick_number(t, "2.0", "2倍", 20) {
            Some(n) => Some(n),
            None => pick_number(t, "1.0", "单倍", 10),
        },
    };

    let margin = match pick_number(t, "2.5", "2.5cm", 25) {
        Some(n) => Some(n),
        None => pick_number(t, "3.0", "3cm", 30),
    };
    req.margin_top = margin;
    req.margin_bottom = margin;
    req.margin_left = margin;
    req.margin_right = margin;

    if mentions_exec(t, "2字符") || mentions_exec(t, "2个字符") {
        req.indent_body = Some(20);
        req.indent_first_line = Some(20);
    } else if mentions_exec(t, "首行缩进") {
        req.indent_first_line = Some(20);
    }

    req.alignment_body = match pick_text(t, "两端对齐", "justify", "justify") {
        Some(a) => Some(a),
        None => pick_text(t, "左对齐", "left", "left"),
    };

    if mentions_exec(t, "gb/t 7714") || mentions_exec(t, "gb/t7714") {
        req.citation_style = Some("GB/T 7714".to_owned());
        req.bibliography_style = Some("GB/T 7714-2015".to_owned());
    } else if mentions_exec(t, "apa") {
        req.citation_style = Some("APA".to_owned());
    } else if mentions_exec(t, "mla") {
        req.citation_style = Some("MLA".to_owned());
    }
    req
}


// ---------------------------------------------------------------------------
// Matching names
// ---------------------------------------------------------------------------

/// A lowercased font name names SimSun (宋体).
pub open spec fn is_songti(t: Seq<char>) -> bool {
    mentions(t, "宋体"@) || mentions(t, "songti"@) || mentions(t, "simsun"@) || mentions(t, "song"@)
}

/// A lowercased font name names SimHei (黑体).
pub open spec fn is_heiti(t: Seq<char>) -> bool {
    mentions(t, "黑体"@) || mentions(t, "heiti"@) || mentions(t, "simhei"@) || mentions(t, "hei"@)
}

/// A lowercased font name names KaiTi (楷体).
pub open spec fn is_kaiti(t: Seq<char>) -> bool {
    mentions(t, "楷体"@) || mentions(t, "kaiti"@) || mentions(t, "simkai"@) || mentions(t, "kai"@)
}

/// A lowercased font name names Times New Roman.
pub open spec fn is_times(t: Seq<char>) -> bool {
    mentions(t, "times new roman"@) || mentions(t, "times"@)
}

/// A lowercased font name names Arial.
pub open spec fn is_arial(t: Seq<char>) -> bool {
    mentions(t, "arial"@)
}

/// Two lowercased font names name the same font: they are equal, or both
/// name one of the known families by one of its names.
pub open spec fn same_font(e: Seq<char>, a: Seq<char>) -> bool {
    ||| e == a
    ||| is_songti(e) && is_songti(a)
    ||| is_heiti(e) && is_heiti(a)
    ||| is_kaiti(e) && is_kaiti(a)
    ||| is_times(e) && is_times(a)
    ||| is_arial(e) && is_arial(a)
}

fn any_name(t: &str, names: &[&str]) -> (r: bool)
    ensures
        r == exists|i: int| 0 <= i < names@.len() && mentions(t@, (#[trigger] names@[i])@),
{
    let mut i: usize = 0;
    while i < names.len()
        invariant
            i <= names@.len(),
            forall|j: int| 0 <= j < i ==> !mentions(t@, (#[trigger] names@[j])@),
        decreases names@.len() - i,
    {
        if mentions_exec(t, names[i]) {
            return true;
        }
        i = i + 1;
    }
    false
}

/// One family's test: both names name it by one of its names, or the
/// expected name holds the family's standard name and so does the actual one.
fn family_matches(e: &str, a: &str, names: &[&str], standard: &str) -> (r: bool)
    requires
        exists|i: int| 0 <= i < names@.len() && (#[trigger] names@[i])@ == standard@,
    ensures
        r == ((exists|i: int| 0 <= i < names@.len() && mentions(e@, (#[trigger] names@[i])@))
            && (exists|i: int| 0 <= i < names@.len() && mentions(a@, (#[trigger] names@[i])@))),
{
    let exp_is = any_name(e, names);
    let act_is = any_name(a, names);
    if exp_is && act_is {
        return true;
    }
    if str_eq(e, standard) || mentions_exec(e, standard) {
        if mentions_exec(a, standard) {
            proof {
                let k = choose|i: int| 0 <= i < names@.len() && (#[trigger] names@[i])@ == standard@;
                if e@ == standard@ {
                    lemma_mentions_self(e@);
                }
                assert(mentions(e@, names@[k]@));
                assert(mentions(a@, names@[k]@));
            }
            return true;
        }
    }
    false
}

/// Whether two lowercased font names name the same font.
pub fn fonts_match_lowered(e: &str, a: &str) -> (r: bool)
    ensures
        r == same_font(e@, a@),
{
    if str_eq(e, a) {
        return true;
    }
    let song: [&str; 4] = ["宋体", "songti", "simsun", "song"];
    let hei: [&str; 4] = ["黑体", "heiti", "simhei", "hei"];
    let kai: [&str; 4] = ["楷体", "kaiti", "simkai", "kai"];
    let times: [&str; 2] = ["times new roman", "times"];
    let arial: [&str; 1] = ["arial"];
    let song = song.as_slice();
    let hei = hei.as_slice();
    let kai = kai.as_slice();
    let times = times.as_slice();
    let arial = arial.as_slice();
    assert(song@ =~= seq!["宋体", "songti", "simsun", "song"]);
    assert(hei@ =~= seq!["黑体", "heiti", "simhei", "hei"]);
    assert(kai@ =~= seq!["楷体", "kaiti", "simkai", "kai"]);
    assert(times@ =~= seq!["times new roman", "times"]);
    assert(arial@ =~= seq!["arial"]);
    assert(song@[0]@ == "宋体"@);
    assert(hei@[0]@ == "黑体"@);
    assert(kai@[0]@ == "楷体"@);
    assert(times@[0]@ == "times new roman"@);
    assert(arial@[0]@ == "arial"@);
    let r = family_matches(e, a, song, "宋体") || family_matches(e, a, hei, "黑体")
        || family_matches(e, a, kai, "楷体") || family_matches(e, a, times, "times new roman")
        || family_matches(e, a, arial, "arial");
    proof {
        assert(is_songti(e@) == exists|i: int| 0 <= i < song@.len() && mentions(e@, (#[trigger] song@[i])@)) by {
            if is_songti(e@) {
                if mentions(e@, "宋体"@) { assert(mentions(e@, song@[0]@)); }
                if mentions(e@, "songti"@) { assert(mentions(e@, song@[1]@)); }
                if mentions(e@, "simsun"@) { assert(mentions(e@, song@[2]@)); }
                if mentions(e@, "song"@) { assert(mentions(e@, song@[3]@)); }
            }
        }
        assert(is_songti(a@) == exists|i: int| 0 <= i < song@.len() && mentions(a@, (#[trigger] song@[i])@)) by {
            if is_songti(a@) {
                if mentions(a@, "宋体"@) { assert(mentions(a@, song@[0]@)); }
                if mentions(a@, "songti"@) { assert(mentions(a@, song@[1]@)); }
                if mentions(a@, "simsun"@) { assert(mentions(a@, song@[2]@)); }
                if mentions(a@, "song"@) { assert(mentions(a@, song@[3]@)); }
            }
        }
        assert(is_heiti(e@) == exists|i: int| 0 <= i < hei@.len() && mentions(e@, (#[trigger] hei@[i])@)) by {
            if is_heiti(e@) {
                if mentions(e@, "黑体"@) { assert(mentions(e@, hei@[0]@)); }
                if mentions(e@, "heiti"@) { assert(mentions(e@, hei@[1]@)); }
                if mentions(e@, "simhei"@) { assert(mentions(e@, hei@[2]@)); }
                if mentions(e@, "hei"@) { assert(mentions(e@, hei@[3]@)); }
            }
        }
        assert(is_heiti(a@) == exists|i: int| 0 <= i < hei@.len() && mentions(a@, (#[trigger] hei@[i])@)) by {
            if is_heiti(a@) {
                if mentions(a@, "黑体"@) { assert(mentions(a@, hei@[0]@)); }
                if mentions(a@, "heiti"@) { assert(mentions(a@, hei@[1]@)); }
                if mentions(a@, "simhei"@) { assert(mentions(a@, hei@[2]@)); }
                if mentions(a@, "hei"@) { assert(mentions(a@, hei@[3]@)); }
            }
        }
        assert(is_kaiti(e@) == exists|i: int| 0 <= i < kai@.len() && mentions(e@, (#[trigger] kai@[i])@)) by {
            if is_kaiti(e@) {
                if mentions(e@, "楷体"@) { assert(mentions(e@, kai@[0]@)); }
                if mentions(e@, "kaiti"@) { assert(mentions(e@, kai@[1]@)); }
                if mentions(e@, "simkai"@) { assert(mentions(e@, kai@[2]@)); }
                if mentions(e@, "kai"@) { assert(mentions(e@, kai@[3]@)); }
            }
        }
        assert(is_kaiti(a@) == exists|i: int| 0 <= i < kai@.len() && mentions(a@, (#[trigger] kai@[i])@)) by {
            if is_kaiti(a@) {
                if mentions(a@, "楷体"@) { assert(mentions(a@, kai@[0]@)); }
                if mentions(a@, "kaiti"@) { assert(mentions(a@, kai@[1]@)); }
                if mentions(a@, "simkai"@) { assert(mentions(a@, kai@[2]@)); }
                if mentions(a@, "kai"@) { assert(mentions(a@, kai@[3]@)); }
            }
        }
        assert(is_times(e@) == exists|i: int| 0 <= i < times@.len() && mentions(e@, (#[trigger] times@[i])@)) by {
            if is_times(e@) {
                if mentions(e@, "times new roman"@) { assert(mentions(e@, times@[0]@)); }
                if mentions(e@, "times"@) { assert(mentions(e@, times@[1]@)); }
            }
        }
        assert(is_times(a@) == exists|i: int| 0 <= i < times@.len() && mentions(a@, (#[trigger] times@[i])@)) by {
            if is_times(a@) {
                if mentions(a@, "times new roman"@) { assert(mentions(a@, times@[0]@)); }
                if mentions(a@, "times"@) { assert(mentions(a@, times@[1]@)); }
            }
        }
        assert(is_arial(e@) == exists|i: int| 0 <= i < arial@.len() && mentions(e@, (#[trigger] arial@[i])@)) by {
            if is_arial(e@) {
                assert(mentions(e@, arial@[0]@));
            }
        }
        assert(is_arial(a@) == exists|i: int| 0 <= i < arial@.len() && mentions(a@, (#[trigger] arial@[i])@)) by {
            if is_arial(a@) {
                assert(mentions(a@, arial@[0]@));
            }
        }
    }
    r
}

/// Whether two font names name the same font, compared without regard to
/// case: equal names, or names of one known family (SimSun, SimHei, KaiTi,
/// Times New Roman, Arial) by any of its names.
pub fn fonts_match(expected: &str, actual: &str) -> (r: bool)
    ensures
        r == same_font(lowercase(expected@), lowercase(actual@)),
{
    let e = to_lowercase(expected);
    let a = to_lowercase(actual);
    fonts_match_lowered(e.as_str(), a.as_str())
}

/// Two lowercased alignment names agree: they are equal, or the expected one
/// names justified, left, centred or right alignment (the first of these it
/// names) and the actual one names the same, also as Word writes it (`both`,
/// `start`, `end`).
pub open spec fn same_alignment(e: Seq<char>, a: Seq<char>) -> bool {
    if e == a {
        true
    } else if mentions(e, "justify"@) || mentions(e, "两端"@) {
        mentions(a, "justify"@) || mentions(a, "两端"@) || a == "both"@
    } else if mentions(e, "left"@) || mentions(e, "左"@) {
        mentions(a, "left"@) || mentions(a, "左"@) || a == "start"@
    } else if mentions(e, "center"@) || mentions(e, "居中"@) {
        mentions(a, "center"@) || mentions(a, "居中"@)
    } else if mentions(e, "right"@) || mentions(e, "右"@) {
        mentions(a, "right"@) || mentions(a, "右"@) || a == "end"@
    } else {
        false
    }
}

/// Whether an actual alignment agrees with the expected one, compared
/// without regard to case.
pub fn alignments_match(expected: &str, actual: &str) -> (r: bool)
    ensures
        r == same_alignment(lowercase(expected@), lowercase(actual@)),
{
    let el = to_lowercase(expected);
    let al = to_lowercase(actual);
    alignments_match_lowered(el.as_str(), al.as_str())
}

/// Whether an actual alignment agrees with the expected one, both lowercased.
pub fn alignments_match_lowered(e: &str, a: &str) -> (r: bool)
    ensures
        r == same_alignment(e@, a@),
{
    if str_eq(e, a) {
        return true;
    }
    if mentions_exec(e, "justify") || mentions_exec(e, "两端") {
        return mentions_exec(a, "justify") || mentions_exec(a, "两端") || str_eq(a, "both");
    }
    if mentions_exec(e, "left") || mentions_exec(e, "左") {
        return mentions_exec(a, "left") || mentions_exec(a, "左") || str_eq(a, "start");
    }
    if mentions_exec(e, "center") || mentions_exec(e, "居中") {
        return mentions_exec(a, "center") || mentions_exec(a, "居中");
    }
    if mentions_exec(e, "right") || mentions_exec(e, "右") {
        return mentions_exec(a, "right") || mentions_exec(a, "右") || str_eq(a, "end");
    }
    false
}

/// Any font name matches itself.
pub proof fn lemma_same_font_reflexive(name: Seq<char>)
    ensures
        same_font(lowercase(name), lowercase(name)),
{
}

/// Font matching does not depend on which name is the expected one.
pub proof fn lemma_same_font_symmetric(expected: Seq<char>, actual: Seq<char>)
    ensures
        same_font(lowercase(expected), lowercase(actual)) == same_font(lowercase(actual), lowercase(expected)),
{
}

/// Font matching looks at the lowercased names only: names with the same
/// lowercase forms match alike.
pub proof fn lemma_same_font_case_blind(a: Seq<char>, a2: Seq<char>, b: Seq<char>, b2: Seq<char>)
    requires
        lowercase(a) == lowercase(a2),
        lowercase(b) == lowercase(b2),
    ensures
        same_font(lowercase(a), lowercase(b)) == same_font(lowercase(a2), lowercase(b2)),
{
}

/// Matching the lowercased names gives what matching the names gives, for
/// names whose lowercase form lowercases to itself.
pub proof fn lemma_same_font_of_lowercased(a: Seq<char>, b: Seq<char>)
    requires
        lowercase(lowercase(a)) == lowercase(a),
        lowercase(lowercase(b)) == lowercase(b),
    ensures
        same_font(lowercase(lowercase(a)), lowercase(lowercase(b))) == same_font(lowercase(a), lowercase(b)),
{
}

/// Font names match when their lowercase forms are equal, or when both name
/// one family by any of its names: 宋体/songti/simsun/song,
/// 黑体/heiti/simhei/hei, 楷体/kaiti/simkai/kai, times new roman/times, or
/// arial. Names that are different and share no family do not match.
#[verifier::spinoff_prover]
pub proof fn lemma_font_families(e: Seq<char>, a: Seq<char>)
    ensures
        e == a ==> same_font(e, a),
        (mentions(e, "宋体"@) || mentions(e, "songti"@) || mentions(e, "simsun"@) || mentions(e, "song"@)) && (
        mentions(a, "宋体"@) || mentions(a, "songti"@) || mentions(a, "simsun"@) || mentions(a, "song"@))
            ==> same_font(e, a),
        (mentions(e, "黑体"@) || mentions(e, "heiti"@) || mentions(e, "simhei"@) || mentions(e, "hei"@)) && (
        mentions(a, "黑体"@) || mentions(a, "heiti"@) || mentions(a, "simhei"@) || mentions(a, "hei"@))
            ==> same_font(e, a),
        (mentions(e, "楷体"@) || mentions(e, "kaiti"@) || mentions(e, "simkai"@) || mentions(e, "kai"@)) && (
        mentions(a, "楷体"@) || mentions(a, "kaiti"@) || mentions(a, "simkai"@) || mentions(a, "kai"@))
            ==> same_font(e, a),
        (mentions(e, "times new roman"@) || mentions(e, "times"@)) && (mentions(a, "times new roman"@) || mentions(
            a,
            "times"@,
        )) ==> same_font(e, a),
        mentions(e, "arial"@) && mentions(a, "arial"@) ==> same_font(e, a),
        e != a && !((mentions(e, "宋体"@) || mentions(e, "songti"@) || mentions(e, "simsun"@) || mentions(e, "song"@))
            && (mentions(a, "宋体"@) || mentions(a, "songti"@) || mentions(a, "simsun"@) || mentions(a, "song"@)))
            && !((mentions(e, "黑体"@) || mentions(e, "heiti"@) || mentions(e, "simhei"@) || mentions(e, "hei"@)) && (
        mentions(a, "黑体"@) || mentions(a, "heiti"@) || mentions(a, "simhei"@) || mentions(a, "hei"@)))
            && !((mentions(e, "楷体"@) || mentions(e, "kaiti"@) || mentions(e, "simkai"@) || mentions(e, "kai"@)) && (
        mentions(a, "楷体"@) || mentions(a, "kaiti"@) || mentions(a, "simkai"@) || mentions(a, "kai"@)))
            && !((mentions(e, "times new roman"@) || mentions(e, "times"@)) && (mentions(a, "times new roman"@)
            || mentions(a, "times"@))) && !(mentions(e, "arial"@) && mentions(a, "arial"@)) ==> !same_font(e, a),
{
}

/// Lowercased alignment names agree when equal; otherwise by what the
/// expected one names first: justified (justify, 两端) is met by justify,
/// 两端 or Word's `both`; left (left, 左) by left, 左 or `start`; centred
/// (center, 居中) by center or 居中; right (right, 右) by right, 右 or `end`.
/// An expected name that names none of these agrees only with itself.
#[verifier::spinoff_prover]
pub proof fn lemma_alignment_agreement(e: Seq<char>, a: Seq<char>)
    ensures
        e == a ==> same_alignment(e, a),
        e != a && (mentions(e, "justify"@) || mentions(e, "两端"@)) ==> (same_alignment(e, a) <==> (mentions(
            a,
            "justify"@,
        ) || mentions(a, "两端"@) || a == "both"@)),
        e != a && !mentions(e, "justify"@) && !mentions(e, "两端"@) && (mentions(e, "left"@) || mentions(e, "左"@))
            ==> (same_alignment(e, a) <==> (mentions(a, "left"@) || mentions(a, "左"@) || a == "start"@)),
        e != a && !mentions(e, "justify"@) && !mentions(e, "两端"@) && !mentions(e, "left"@) && !mentions(e, "左"@) && (
        mentions(e, "center"@) || mentions(e, "居中"@)) ==> (same_alignment(e, a) <==> (mentions(a, "center"@)
            || mentions(a, "居中"@))),
        e != a && !mentions(e, "justify"@) && !mentions(e, "两端"@) && !mentions(e, "left"@) && !mentions(e, "左"@)
            && !mentions(e, "center"@) && !mentions(e, "居中"@) && (mentions(e, "right"@) || mentions(e, "右"@))
            ==> (same_alignment(e, a) <==> (mentions(a, "right"@) || mentions(a, "右"@) || a == "end"@)),
        e != a && !mentions(e, "justify"@) && !mentions(e, "两端"@) && !mentions(e, "left"@) && !mentions(e, "左"@)
            && !mentions(e, "center"@) && !mentions(e, "居中"@) && !mentions(e, "right"@) && !mentions(e, "右"@)
            ==> !same_alignment(e, a),
{
}

/// Any alignment agrees with itself.
pub proof fn lemma_same_alignment_reflexive(name: Seq<char>)
    ensures
        same_alignment(lowercase(name), lowercase(name)),
{
}


// ---------------------------------------------------------------------------
// Heading levels
// ---------------------------------------------------------------------------

/// The greatest level from `i` down to 1 whose number occurs in `t`.
pub open spec fn numbered_level(t: Seq<char>, i: nat) -> Option<u8>
    decreases i,
{
    if i == 0 {
        None
    } else if mentions(t, decimal(i)) {
        Some(i as u8)
    } else {
        numbered_level(t, (i - 1) as nat)
    }
}

/// The heading level a lowercased style name gives: 1 to 3 for the named
/// heading styles (or a name that is just the number), else for a heading
/// style the greatest number from 6 down to 1 that its name holds.
pub open spec fn style_level(t: Seq<char>) -> Option<u8> {
    if mentions(t, "标题 1"@) || mentions(t, "heading 1"@) || t == "1"@ {
        Some(1)
    } else if mentions(t, "标题 2"@) || mentions(t, "heading 2"@) || t == "2"@ {
        Some(2)
    } else if mentions(t, "标题 3"@) || mentions(t, "heading 3"@) || t == "3"@ {
        Some(3)
    } else if mentions(t, "标题"@) || mentions(t, "heading"@) {
        numbered_level(t, 6)
    } else {
        None
    }
}

/// The heading level of a lowercased style name: 1, 2 or 3 for "标题 n" or
/// "heading n" or the bare number n (the lowest such level first); else, for
/// a name that holds "标题" or "heading", the greatest digit from 6 down to 1
/// that it holds; no level otherwise.
#[verifier::spinoff_prover]
pub proof fn lemma_style_levels(t: Seq<char>)
    ensures
        (mentions(t, "标题 1"@) || mentions(t, "heading 1"@) || t == "1"@) ==> style_level(t) == Some(1u8),
        !(mentions(t, "标题 1"@) || mentions(t, "heading 1"@) || t == "1"@) && (mentions(t, "标题 2"@) || mentions(t, "heading 2"@) || t == "2"@) ==> style_level(t) == Some(2u8),
        !(mentions(t, "标题 1"@) || mentions(t, "heading 1"@) || t == "1"@) && !(mentions(t, "标题 2"@) || mentions(t, "heading 2"@) || t == "2"@) && (mentions(t, "标题 3"@) || mentions(t, "heading 3"@) || t == "3"@) ==> style_level(t) == Some(3u8),
        !(mentions(t, "标题 1"@) || mentions(t, "heading 1"@) || t == "1"@) && !(mentions(t, "标题 2"@) || mentions(t, "heading 2"@) || t == "2"@) && !(mentions(t, "标题 3"@) || mentions(t, "heading 3"@) || t == "3"@) && !mentions(t, "标题"@) && !mentions(t, "heading"@) ==> style_level(t) is None,
        (!(mentions(t, "标题 1"@) || mentions(t, "heading 1"@) || t == "1"@) && !(mentions(t, "标题 2"@) || mentions(t, "heading 2"@) || t == "2"@) && !(mentions(t, "标题 3"@) || mentions(t, "heading 3"@) || t == "3"@) && (mentions(t, "标题"@) || mentions(t, "heading"@))) && mentions(t, seq!['6']) ==> style_level(t) == Some(6u8),
        (!(mentions(t, "标题 1"@) || mentions(t, "heading 1"@) || t == "1"@) && !(mentions(t, "标题 2"@) || mentions(t, "heading 2"@) || t == "2"@) && !(mentions(t, "标题 3"@) || mentions(t, "heading 3"@) || t == "3"@) && (mentions(t, "标题"@) || mentions(t, "heading"@))) && !mentions(t, seq!['6']) && mentions(t, seq!['5']) ==> style_level(t) == Some(5u8),
        (!(mentions(t, "标题 1"@) || mentions(t, "heading 1"@) || t == "1"@) && !(mentions(t, "标题 2"@) || mentions(t, "heading 2"@) || t == "2"@) && !(mentions(t, "标题 3"@) || mentions(t, "heading 3"@) || t == "3"@) && (mentions(t, "标题"@) || mentions(t, "heading"@))) && !mentions(t, seq!['6']) && !mentions(t, seq!['5']) && mentions(t, seq!['4']) ==> style_level(t) == Some(4u8),
        (!(mentions(t, "标题 1"@) || mentions(t, "heading 1"@) || t == "1"@) && !(mentions(t, "标题 2"@) || mentions(t, "heading 2"@) || t == "2"@) && !(mentions(t, "标题 3"@) || mentions(t, "heading 3"@) || t == "3"@) && (mentions(t, "标题"@) || mentions(t, "heading"@))) && !mentions(t, seq!['6']) && !mentions(t, seq!['5']) && !mentions(t, seq!['4']) && mentions(t, seq!['3']) ==> style_level(t) == Some(3u8),
        (!(mentions(t, "标题 1"@) || mentions(t, "heading 1"@) || t == "1"@) && !(mentions(t, "标题 2"@) || mentions(t, "heading 2"@) || t == "2"@) && !(mentions(t, "标题 3"@) || mentions(t, "heading 3"@) || t == "3"@) && (mentions(t, "标题"@) || mentions(t, "heading"@))) && !mentions(t, seq!['6']) && !mentions(t, seq!['5']) && !mentions(t, seq!['4']) && !mentions(t, seq!['3']) && mentions(t, seq!['2']) ==> style_level(t) == Some(2u8),
        (!(mentions(t, "标题 1"@) || mentions(t, "heading 1"@) || t == "1"@) && !(mentions(t, "标题 2"@) || mentions(t, "heading 2"@) || t == "2"@) && !(mentions(t, "标题 3"@) || mentions(t, "heading 3"@) || t == "3"@) && (mentions(t, "标题"@) || mentions(t, "heading"@))) && !mentions(t, seq!['6']) && !mentions(t, seq!['5']) && !mentions(t, seq!['4']) && !mentions(t, seq!['3']) && !mentions(t, seq!['2']) && mentions(t, seq!['1']) ==> style_level(t) == Some(1u8),
        (!(mentions(t, "标题 1"@) || mentions(t, "heading 1"@) || t == "1"@) && !(mentions(t, "标题 2"@) || mentions(t, "heading 2"@) || t == "2"@) && !(mentions(t, "标题 3"@) || mentions(t, "heading 3"@) || t == "3"@) && (mentions(t, "标题"@) || mentions(t, "heading"@))) && !mentions(t, seq!['6']) && !mentions(t, seq!['5']) && !mentions(t, seq!['4']) && !mentions(t, seq!['3']) && !mentions(t, seq!['2']) && !mentions(t, seq!['1']) ==> style_level(t) is None,
{
    reveal_with_fuel(numbered_level, 7);
}

/// The heading level a paragraph's style name gives, compared without regard
/// to case; `None` when there is no style or it names no heading.
pub fn style_heading_level(style_name: &Option<String>) -> (r: Option<u8>)
    ensures
        r == match style_name {
            Some(s) => style_level(lowercase(s@)),
            None => None,
        },
{
    let style = match style_name {
        Some(s) => s,
        None => {
            return None;
        },
    };
    let lower = to_lowercase(style.as_str());
    style_level_lowered(lower.as_str())
}

/// The heading level a lowercased style name gives.
pub fn style_level_lowered(t: &str) -> (r: Option<u8>)
    ensures
        r == style_level(t@),
{
    if mentions_exec(t, "标题 1") || mentions_exec(t, "heading 1") || str_eq(t, "1") {
        return Some(1);
    }
    if mentions_exec(t, "标题 2") || mentions_exec(t, "heading 2") || str_eq(t, "2") {
        return Some(2);
    }
    if mentions_exec(t, "标题 3") || mentions_exec(t, "heading 3") || str_eq(t, "3") {
        return Some(3);
    }
    if mentions_exec(t, "标题") || mentions_exec(t, "heading") {
        let mut i: u8 = 6;
        while i >= 1
            invariant
                i <= 6,
                style_level(t@) == numbered_level(t@, 6),
                numbered_level(t@, 6) == numbered_level(t@, i as nat),
            decreases i,
        {
            let mut digits = String::new();
            push_decimal(&mut digits, i as usize);
            if mentions_exec(t, digits.as_str()) {
                return Some(i);
            }
            i = i - 1;
        }
        return None;
    }
    None
}

// ---------------------------------------------------------------------------
// Issues found by a comparison
// ---------------------------------------------------------------------------

/// An issue found in one paragraph (0 for the document as a whole).
#[derive(Clone, Debug)]
pub struct ComparisonResult {
    pub paragraph_index: usize,
    pub issue_type: String,
    pub description: String,
    pub expected: String,
    pub actual: String,
    /// `critical`, `major` or `minor`.
    pub severity: String,
    pub suggestion: String,
}

/// `c` is the issue with these fields.
pub open spec fn result_is(
    c: ComparisonResult,
    index: usize,
    issue_type: Seq<char>,
    description: Seq<char>,
    expected: Seq<char>,
    actual: Seq<char>,
    severity: Seq<char>,
    suggestion: Seq<char>,
) -> bool {
    &&& c.paragraph_index == index
    &&& c.issue_type@ == issue_type
    &&& c.description@ == description
    &&& c.expected@ == expected
    &&& c.actual@ == actual
    &&& c.severity@ == severity
    &&& c.suggestion@ == suggestion
}

fn text_of(parts: &[&str]) -> (r: String)
    ensures
        r@ == parts@.fold_left(Seq::<char>::empty(), |acc: Seq<char>, p: &str| acc + p@),
{
    let mut r = String::new();
    let mut i: usize = 0;
    while i < parts.len()
        invariant
            i <= parts@.len(),
            r@ == parts@.take(i as int).fold_left(Seq::<char>::empty(), |acc: Seq<char>, p: &str| acc + p@),
        decreases parts@.len() - i,
    {
        r.append(parts[i]);
        proof {
            let t = parts@.take(i + 1);
            assert(t.drop_last() =~= parts@.take(i as int));
        }
        i = i + 1;
    }
    assert(parts@.take(parts@.len() as int) =~= parts@);
    r
}

/// `prefix`, the level's number, then `suffix`.
fn level_text(prefix: &str, level: u8, suffix: &str) -> (r: String)
    ensures
        r@ == prefix@ + decimal(level as nat) + suffix@,
{
    let mut r = prefix.to_owned();
    push_decimal(&mut r, level as usize);
    r.append(suffix);
    r
}

fn concat(a: &str, b: &str) -> (r: String)
    ensures
        r@ == a@ + b@,
{
    let mut r = a.to_owned();
    r.append(b);
    r
}

fn concat3(a: &str, b: &str, c: &str) -> (r: String)
    ensures
        r@ == a@ + b@ + c@,
{
    let mut r = a.to_owned();
    r.append(b);
    r.append(c);
    r
}

/// The font a heading of `level` is expected in: the title font, else the
/// body font, for levels 1 and 2; the body font for the others.
pub open spec fn heading_font(req: RequirementsModel, level: u8) -> Option<Seq<char>> {
    if level == 1 || level == 2 {
        match req.font_title {
            Some(f) => Some(f),
            None => req.font_body,
        }
    } else {
        req.font_body
    }
}

/// The font expected of a heading: for levels 1 and 2 the title font when
/// one is required, else the body font; for other levels the body font.
pub proof fn lemma_heading_expected_font(req: RequirementsModel, level: u8)
    ensures
        (level == 1 || level == 2) && req.font_title is Some ==> heading_font(req, level) == req.font_title,
        (level == 1 || level == 2) && req.font_title is None ==> heading_font(req, level) == req.font_body,
        level != 1 && level != 2 ==> heading_font(req, level) == req.font_body,
{
}

/// The font issue of a heading: reported when a font is expected and the
/// heading's font is known and does not match it.
pub fn heading_font_issue(req: &FormatRequirements, index: usize, level: u8, actual_font: &Option<String>) -> (r: Option<ComparisonResult>)
    ensures
        r is Some <==> (heading_font(req@, level) is Some && actual_font is Some && !same_font(
            lowercase(heading_font(req@, level)->0),
            lowercase(actual_font->0@),
        )),
        r matches Some(c) ==> result_is(
            c,
            index,
            "字体"@,
            "第"@ + decimal(level as nat) + "级标题字体不符合要求"@,
            heading_font(req@, level)->0,
            actual_font->0@,
            "major"@,
            "将第"@ + decimal(level as nat) + "级标题字体设置为"@ + heading_font(req@, level)->0,
        ),
{
    let expected: Option<&String> = if level == 1 || level == 2 {
        match &req.font_title {
            Some(f) => Some(f),
            None => req.font_body.as_ref(),
        }
    } else {
        req.font_body.as_ref()
    };
    match (expected, actual_font) {
        (Some(exp), Some(act)) => {
            if fonts_match(exp.as_str(), act.as_str()) {
                None
            } else {
                Some(ComparisonResult {
                    paragraph_index: index,
                    issue_type: "字体".to_owned(),
                    description: level_text("第", level, "级标题字体不符合要求"),
                    expected: exp.clone(),
                    actual: act.clone(),
                    severity: "major".to_owned(),
                    suggestion: concat(level_text("将第", level, "级标题字体设置为").as_str(), exp.as_str()),
                })
            }
        },
        _ => None,
    }
}

/// The size issue of a heading, with the expected and actual sizes as they
/// print (in points).
pub fn heading_size_issue(index: usize, level: u8, expected: &str, actual: &str) -> (c: ComparisonResult)
    ensures
        result_is(
            c,
            index,
            "字号"@,
            "第"@ + decimal(level as nat) + "级标题字号不符合要求"@,
            expected@ + "pt"@,
            actual@ + "pt"@,
            "major"@,
            "将第"@ + decimal(level as nat) + "级标题字号设置为"@ + expected@ + "pt"@,
        ),
{
    ComparisonResult {
        paragraph_index: index,
        issue_type: "字号".to_owned(),
        description: level_text("第", level, "级标题字号不符合要求"),
        expected: concat(expected, "pt"),
        actual: concat(actual, "pt"),
        severity: "major".to_owned(),
        suggestion: concat3(level_text("将第", level, "级标题字号设置为").as_str(), expected, "pt"),
    }
}

/// The boldness issue of a heading: headings of levels 1 and 2 are to be bold.
pub fn heading_bold_issue(index: usize, level: u8, is_bold: bool) -> (r: Option<ComparisonResult>)
    ensures
        r is Some <==> (!is_bold && level <= 2),
        r matches Some(c) ==> result_is(
            c,
            index,
            "加粗"@,
            "第"@ + decimal(level as nat) + "级标题未加粗"@,
            "加粗"@,
            "未加粗"@,
            "minor"@,
            "将第"@ + decimal(level as nat) + "级标题设置为加粗"@,
        ),
{
    if !is_bold && level <= 2 {
        Some(ComparisonResult {
            paragraph_index: index,
            issue_type: "加粗".to_owned(),
            description: level_text("第", level, "级标题未加粗"),
            expected: "加粗".to_owned(),
            actual: "未加粗".to_owned(),
            severity: "minor".to_owned(),
            suggestion: level_text("将第", level, "级标题设置为加粗"),
        })
    } else {
        None
    }
}

/// The length in bytes of a text without its leading and trailing whitespace.
pub fn trimmed_len(text: &str) -> (n: usize)
    ensures
        n == encode_utf8(trim(text@)).len(),
{
    trim_str(text).as_bytes().len()
}

/// Whether a body paragraph is long enough to be checked (five bytes once trimmed).
pub fn body_is_checked(text: &str) -> (r: bool)
    ensures
        r == (encode_utf8(trim(text@)).len() >= 5),
{
    trimmed_len(text) >= 5
}

/// The font issue of a body paragraph: reported when a body font is
/// expected and the paragraph's font is known and does not match it.
pub fn body_font_issue(req: &FormatRequirements, index: usize, actual_font: &Option<String>) -> (r: Option<ComparisonResult>)
    ensures
        r is Some <==> (req.font_body is Some && actual_font is Some && !same_font(
            lowercase(req.font_body->0@),
            lowercase(actual_font->0@),
        )),
        r matches Some(c) ==> result_is(
            c,
            index,
            "字体"@,
            "正文字体不符合要求"@,
            req.font_body->0@,
            actual_font->0@,
            "major"@,
            "将正文字体设置为"@ + req.font_body->0@,
        ),
{
    match (&req.font_body, actual_font) {
        (Some(exp), Some(act)) => {
            if fonts_match(exp.as_str(), act.as_str()) {
                None
            } else {
                Some(ComparisonResult {
                    paragraph_index: index,
                    issue_type: "字体".to_owned(),
                    description: "正文字体不符合要求".to_owned(),
                    expected: exp.clone(),
                    actual: act.clone(),
                    severity: "major".to_owned(),
                    suggestion: concat("将正文字体设置为", exp.as_str()),
                })
            }
        },
        _ => None,
    }
}

/// The size issue of a body paragraph, with the sizes as they print (points).
pub fn body_size_issue(index: usize, expected: &str, actual: &str) -> (c: ComparisonResult)
    ensures
        result_is(
            c,
            index,
            "字号"@,
            "正文字号不符合要求"@,
            expected@ + "pt"@,
            actual@ + "pt"@,
            "major"@,
            "将正文字号设置为"@ + expected@ + "pt"@,
        ),
{
    ComparisonResult {
        paragraph_index: index,
        issue_type: "字号".to_owned(),
        description: "正文字号不符合要求".to_owned(),
        expected: concat(expected, "pt"),
        actual: concat(actual, "pt"),
        severity: "major".to_owned(),
        suggestion: concat3("将正文字号设置为", expected, "pt"),
    }
}

/// The line-spacing issue of a body paragraph, with the spacings as they
/// print (lines).
pub fn line_spacing_issue(index: usize, expected: &str, actual: &str) -> (c: ComparisonResult)
    ensures
        result_is(
            c,
            index,
            "行距"@,
            "行距不符合要求"@,
            expected@ + "倍"@,
            actual@ + "倍"@,
            "major"@,
            "将行距设置为"@ + expected@ + "倍"@,
        ),
{
    ComparisonResult {
        paragraph_index: index,
        issue_type: "行距".to_owned(),
        description: "行距不符合要求".to_owned(),
        expected: concat(expected, "倍"),
        actual: concat(actual, "倍"),
        severity: "major".to_owned(),
        suggestion: concat3("将行距设置为", expected, "倍"),
    }
}

/// The first-line indent issue of a body paragraph, with the indents as they
/// print (characters).
pub fn indent_issue(index: usize, expected: &str, actual: &str) -> (c: ComparisonResult)
    ensures
        result_is(
            c,
            index,
            "缩进"@,
            "首行缩进不符合要求"@,
            expected@ + "字符"@,
            actual@ + "字符"@,
            "major"@,
            "设置首行缩进"@ + expected@ + "字符"@,
        ),
{
    ComparisonResult {
        paragraph_index: index,
        issue_type: "缩进".to_owned(),
        description: "首行缩进不符合要求".to_owned(),
        expected: concat(expected, "字符"),
        actual: concat(actual, "字符"),
        severity: "major".to_owned(),
        suggestion: concat3("设置首行缩进", expected, "字符"),
    }
}

/// The alignment issue of a body paragraph: reported when a body alignment
/// is expected and the paragraph's alignment is known and does not agree.
pub fn body_alignment_issue(req: &FormatRequirements, index: usize, actual_alignment: &Option<String>) -> (r: Option<ComparisonResult>)
    ensures
        r is Some <==> (req.alignment_body is Some && actual_alignment is Some && !same_alignment(
            lowercase(req.alignment_body->0@),
            lowercase(actual_alignment->0@),
        )),
        r matches Some(c) ==> result_is(
            c,
            index,
            "对齐"@,
            "段落对齐方式不符合要求"@,
            req.alignment_body->0@,
            actual_alignment->0@,
            "minor"@,
            "设置对齐方式为"@ + req.alignment_body->0@,
        ),
{
    match (&req.alignment_body, actual_alignment) {
        (Some(exp), Some(act)) => {
            if alignments_match(exp.as_str(), act.as_str()) {
                None
            } else {
                Some(ComparisonResult {
                    paragraph_index: index,
                    issue_type: "对齐".to_owned(),
                    description: "段落对齐方式不符合要求".to_owned(),
                    expected: exp.clone(),
                    actual: act.clone(),
                    severity: "minor".to_owned(),
                    suggestion: concat("设置对齐方式为", exp.as_str()),
                })
            }
        },
        _ => None,
    }
}

/// The document-wide issue of a paper without headings: reported when no
/// paragraph is a heading and more than ten are body text of ten bytes or more.
pub fn missing_headings_issue(heading_count: usize, body_count: usize) -> (r: Option<ComparisonResult>)
    ensures
        r is Some <==> (heading_count == 0 && body_count > 10),
        r matches Some(c) ==> result_is(
            c,
            0,
            "标题层次"@,
            "文档中未检测到标题样式"@,
            "应有标题层次结构"@,
            "无标题"@,
            "major"@,
            "请使用规范的标题样式（标题1、标题2、标题3）"@,
        ),
{
    if heading_count == 0 && body_count > 10 {
        Some(ComparisonResult {
            paragraph_index: 0,
            issue_type: "标题层次".to_owned(),
            description: "文档中未检测到标题样式".to_owned(),
            expected: "应有标题层次结构".to_owned(),
            actual: "无标题".to_owned(),
            severity: "major".to_owned(),
            suggestion: "请使用规范的标题样式（标题1、标题2、标题3）".to_owned(),
        })
    } else {
        None
    }
}

/// The document-wide line-spacing issue, with the expected and the average
/// spacing as they print (lines).
pub fn spacing_consistency_issue(expected: &str, average: &str) -> (c: ComparisonResult)
    ensures
        result_is(
            c,
            0,
            "行距"@,
            "行距设置不一致"@,
            expected@ + "倍"@,
            "平均"@ + average@ + "倍"@,
            "minor"@,
            "确保全文行距一致"@,
        ),
{
    ComparisonResult {
        paragraph_index: 0,
        issue_type: "行距".to_owned(),
        description: "行距设置不一致".to_owned(),
        expected: concat(expected, "倍"),
        actual: concat3("平均", average, "倍"),
        severity: "minor".to_owned(),
        suggestion: "确保全文行距一致".to_owned(),
    }
}

/// A comparison result as a format issue located at its paragraph.
pub open spec fn issue_of(c: ComparisonResult, i: FormatIssue) -> bool {
    &&& i.issue_type@ == c.issue_type@
    &&& i.description@ == c.description@
    &&& i.location.page is None
    &&& i.location.paragraph == Some(c.paragraph_index)
    &&& i.location.section is None
    &&& i.severity@ == c.severity@
    &&& i.suggestion@ == c.suggestion@
}

/// Comparison results as format issues, one for one and in order.
pub fn to_format_issues(results: Vec<ComparisonResult>) -> (issues: Vec<FormatIssue>)
    ensures
        issues@.len() == results@.len(),
        forall|k: int| 0 <= k < results@.len() ==> issue_of(#[trigger] results@[k], issues@[k]),
{
    let mut issues: Vec<FormatIssue> = Vec::new();
    let mut i: usize = 0;
    while i < results.len()
        invariant
            i <= results@.len(),
            issues@.len() == i,
            forall|k: int| 0 <= k < i ==> issue_of(#[trigger] results@[k], issues@[k]),
        decreases results@.len() - i,
    {
        let r = &results[i];
        issues.push(FormatIssue {
            issue_type: r.issue_type.clone(),
            description: r.description.clone(),
            location: IssueLocation { page: None, paragraph: Some(r.paragraph_index), section: None },
            severity: r.severity.clone(),
            suggestion: r.suggestion.clone(),
        });
        i = i + 1;
    }
    issues
}


// ---------------------------------------------------------------------------
// The checks of a paragraph and of a document
// ---------------------------------------------------------------------------

/// The characters of a comparison result.
pub struct ResultModel {
    pub paragraph_index: usize,
    pub issue_type: Seq<char>,
    pub description: Seq<char>,
    pub expected: Seq<char>,
    pub actual: Seq<char>,
    pub severity: Seq<char>,
    pub suggestion: Seq<char>,
}

impl View for ComparisonResult {
    type V = ResultModel;

    open spec fn view(&self) -> ResultModel {
        ResultModel {
            paragraph_index: self.paragraph_index,
            issue_type: self.issue_type@,
            description: self.description@,
            expected: self.expected@,
            actual: self.actual@,
            severity: self.severity@,
            suggestion: self.suggestion@,
        }
    }
}

/// The characters of comparison results.
pub open spec fn results_view(v: Seq<ComparisonResult>) -> Seq<ResultModel> {
    v.map_values(|c: ComparisonResult| c@)
}

/// The issue with these fields.
pub open spec fn issue_model(
    index: usize,
    issue_type: Seq<char>,
    description: Seq<char>,
    expected: Seq<char>,
    actual: Seq<char>,
    severity: Seq<char>,
    suggestion: Seq<char>,
) -> ResultModel {
    ResultModel { paragraph_index: index, issue_type, description, expected, actual, severity, suggestion }
}

/// A measure found too far from its requirement: the required and the actual
/// value, each as it prints.
pub open spec fn deviation_view(d: Option<(String, String)>) -> Option<(Seq<char>, Seq<char>)> {
    match d {
        Some((e, a)) => Some((e@, a@)),
        None => None,
    }
}

/// The issues of a heading of `level`: its font, where a font is expected
/// and the heading's does not match; its size, where the size was found too
/// far from the requirement; and its boldness, for levels 1 and 2.
pub open spec fn heading_issues(
    req: RequirementsModel,
    index: usize,
    level: u8,
    font: Option<Seq<char>>,
    is_bold: bool,
    size: Option<(Seq<char>, Seq<char>)>,
) -> Seq<ResultModel> {
    let l = decimal(level as nat);
    (match (heading_font(req, level), font) {
        (Some(e), Some(a)) => if !same_font(lowercase(e), lowercase(a)) {
            seq![issue_model(index, "字体"@, "第"@ + l + "级标题字体不符合要求"@, e, a, "major"@, "将第"@ + l + "级标题字体设置为"@ + e)]
        } else {
            Seq::empty()
        },
        _ => Seq::empty(),
    }) + (match size {
        Some((e, a)) => seq![issue_model(index, "字号"@, "第"@ + l + "级标题字号不符合要求"@, e + "pt"@, a + "pt"@, "major"@, "将第"@ + l + "级标题字号设置为"@ + e + "pt"@)],
        None => Seq::empty(),
    }) + (if !is_bold && level <= 2 {
        seq![issue_model(index, "加粗"@, "第"@ + l + "级标题未加粗"@, "加粗"@, "未加粗"@, "minor"@, "将第"@ + l + "级标题设置为加粗"@)]
    } else {
        Seq::empty()
    })
}

/// The first issue of a heading whose font does not match the one expected
/// of its level is that font issue: for levels 1 and 2 against the title
/// font, or the body font when no title font is required; for other levels
/// against the body font.
#[verifier::spinoff_prover]
pub proof fn lemma_heading_font_reported(
    req: RequirementsModel,
    index: usize,
    level: u8,
    font: Option<Seq<char>>,
    is_bold: bool,
    size: Option<(Seq<char>, Seq<char>)>,
)
    ensures
        req.font_title matches Some(f) ==> (font matches Some(a) ==> ((level == 1 || level == 2) && !same_font(
            lowercase(f),
            lowercase(a),
        ) ==> heading_issues(req, index, level, font, is_bold, size)[0] == issue_model(
            index,
            "字体"@,
            "第"@ + decimal(level as nat) + "级标题字体不符合要求"@,
            f,
            a,
            "major"@,
            "将第"@ + decimal(level as nat) + "级标题字体设置为"@ + f,
        ))),
        req.font_body matches Some(b) ==> (font matches Some(a) ==> ((level == 1 || level == 2)
            && req.font_title is None && !same_font(lowercase(b), lowercase(a)) ==> heading_issues(
            req,
            index,
            level,
            font,
            is_bold,
            size,
        )[0] == issue_model(
            index,
            "字体"@,
            "第"@ + decimal(level as nat) + "级标题字体不符合要求"@,
            b,
            a,
            "major"@,
            "将第"@ + decimal(level as nat) + "级标题字体设置为"@ + b,
        ))),
        req.font_body matches Some(b) ==> (font matches Some(a) ==> (level != 1 && level != 2 && !same_font(
            lowercase(b),
            lowercase(a),
        ) ==> heading_issues(req, index, level, font, is_bold, size)[0] == issue_model(
            index,
            "字体"@,
            "第"@ + decimal(level as nat) + "级标题字体不符合要求"@,
            b,
            a,
            "major"@,
            "将第"@ + decimal(level as nat) + "级标题字体设置为"@ + b,
        ))),
        req.font_title is None && req.font_body is None ==> heading_issues(req, index, level, font, is_bold, size)
            == heading_issues(req, index, level, None, is_bold, size),
{
}

fn push_issue(results: &mut Vec<ComparisonResult>, issue: Option<ComparisonResult>)
    ensures
        results_view(final(results)@) == results_view(old(results)@) + match issue {
            Some(c) => seq![c@],
            None => Seq::<ResultModel>::empty(),
        },
{
    let ghost before = results_view(results@);
    match issue {
        Some(c) => {
            let ghost cv = c@;
            results.push(c);
            assert(results_view(results@) =~= before + seq![cv]);
        },
        None => {
            assert(results_view(results@) =~= before + Seq::<ResultModel>::empty());
        },
    }
}

/// A heading of level 1 or 2 that is not bold is reported for it last, as a
/// minor issue; a bold heading, or one of a lower level, is not. A size found
/// too far from the requirement is reported as a major size issue in points.
#[verifier::spinoff_prover]
pub proof fn lemma_heading_bold_and_size(
    req: RequirementsModel,
    index: usize,
    level: u8,
    font: Option<Seq<char>>,
    is_bold: bool,
    size: Option<(Seq<char>, Seq<char>)>,
)
    ensures
        !is_bold && level <= 2 ==> heading_issues(req, index, level, font, is_bold, size).last() == issue_model(
            index,
            "加粗"@,
            "第"@ + decimal(level as nat) + "级标题未加粗"@,
            "加粗"@,
            "未加粗"@,
            "minor"@,
            "将第"@ + decimal(level as nat) + "级标题设置为加粗"@,
        ),
        size matches Some((e, a)) ==> ((is_bold || level > 2) ==> heading_issues(req, index, level, font, is_bold, size).last()
            == issue_model(
            index,
            "字号"@,
            "第"@ + decimal(level as nat) + "级标题字号不符合要求"@,
            e + "pt"@,
            a + "pt"@,
            "major"@,
            "将第"@ + decimal(level as nat) + "级标题字号设置为"@ + e + "pt"@,
        )),
        req.font_title is None && req.font_body is None ==> heading_issues(req, index, level, font, is_bold, size).len()
            == (if size is Some { 1int } else { 0int }) + (if !is_bold && level <= 2 { 1int } else { 0int }),
{
}

/// Appends the issues of a heading of `level` (see `heading_issues`); `size`
/// is the required and actual size where the comparison of the sizes found
/// them too far apart.
pub fn check_heading_format(
    req: &FormatRequirements,
    index: usize,
    level: u8,
    font_name: &Option<String>,
    is_bold: bool,
    size: &Option<(String, String)>,
    results: &mut Vec<ComparisonResult>,
)
    ensures
        results_view(final(results)@) == results_view(old(results)@) + heading_issues(
            req@,
            index,
            level,
            opt_view(*font_name),
            is_bold,
            deviation_view(*size),
        ),
{
    let ghost start = results_view(results@);
    let font = heading_font_issue(req, index, level, font_name);
    push_issue(results, font);
    let ghost with_font = results_view(results@);
    let sized = match size {
        Some((e, a)) => Some(heading_size_issue(index, level, e.as_str(), a.as_str())),
        None => None,
    };
    push_issue(results, sized);
    let ghost with_size = results_view(results@);
    let bold = heading_bold_issue(index, level, is_bold);
    push_issue(results, bold);
    let ghost l = decimal(level as nat);
    assert(with_font =~= start + match (heading_font(req@, level), opt_view(*font_name)) {
        (Some(e), Some(a)) => if !same_font(lowercase(e), lowercase(a)) {
            seq![issue_model(index, "字体"@, "第"@ + l + "级标题字体不符合要求"@, e, a, "major"@, "将第"@ + l + "级标题字体设置为"@ + e)]
        } else {
            Seq::empty()
        },
        _ => Seq::empty(),
    });
    assert(results_view(results@) =~= start + heading_issues(req@, index, level, opt_view(*font_name), is_bold, deviation_view(*size)));
}

/// Measures of a body paragraph found too far from their requirements: for
/// each, the required and the actual value as they print.
#[derive(Clone, Debug)]
pub struct MeasureDeviations {
    pub font_size: Option<(String, String)>,
    pub line_spacing: Option<(String, String)>,
    pub indent_first_line: Option<(String, String)>,
}

/// The issues of a body paragraph: none for one shorter than five bytes once
/// trimmed; else its font, where a body font is expected and its own does not
/// match; its size, line spacing and first-line indent, where they were found
/// too far from the requirements; and its alignment, where one is expected
/// and its own does not agree.
pub open spec fn body_issues(
    req: RequirementsModel,
    index: usize,
    text: Seq<char>,
    font: Option<Seq<char>>,
    alignment: Option<Seq<char>>,
    size: Option<(Seq<char>, Seq<char>)>,
    spacing: Option<(Seq<char>, Seq<char>)>,
    indent: Option<(Seq<char>, Seq<char>)>,
) -> Seq<ResultModel> {
    if encode_utf8(trim(text)).len() < 5 {
        Seq::empty()
    } else {
        (match (req.font_body, font) {
            (Some(e), Some(a)) => if !same_font(lowercase(e), lowercase(a)) {
                seq![issue_model(index, "字体"@, "正文字体不符合要求"@, e, a, "major"@, "将正文字体设置为"@ + e)]
            } else {
                Seq::empty()
            },
            _ => Seq::empty(),
        }) + (match size {
            Some((e, a)) => seq![issue_model(index, "字号"@, "正文字号不符合要求"@, e + "pt"@, a + "pt"@, "major"@, "将正文字号设置为"@ + e + "pt"@)],
            None => Seq::empty(),
        }) + (match spacing {
            Some((e, a)) => seq![issue_model(index, "行距"@, "行距不符合要求"@, e + "倍"@, a + "倍"@, "major"@, "将行距设置为"@ + e + "倍"@)],
            None => Seq::empty(),
        }) + (match indent {
            Some((e, a)) => seq![issue_model(index, "缩进"@, "首行缩进不符合要求"@, e + "字符"@, a + "字符"@, "major"@, "设置首行缩进"@ + e + "字符"@)],
            None => Seq::empty(),
        }) + (match (req.alignment_body, alignment) {
            (Some(e), Some(a)) => if !same_alignment(lowercase(e), lowercase(a)) {
                seq![issue_model(index, "对齐"@, "段落对齐方式不符合要求"@, e, a, "minor"@, "设置对齐方式为"@ + e)]
            } else {
                Seq::empty()
            },
            _ => Seq::empty(),
        })
    }
}

fn deviation_issue(
    index: usize,
    d: &Option<(String, String)>,
    kind: u8,
) -> (r: Option<ComparisonResult>)
    requires
        kind < 3,
    ensures
        r is Some <==> d is Some,
        r matches Some(c) ==> {
            let (e, a) = deviation_view(*d)->0;
            c@ == if kind == 0 {
                issue_model(index, "字号"@, "正文字号不符合要求"@, e + "pt"@, a + "pt"@, "major"@, "将正文字号设置为"@ + e + "pt"@)
            } else if kind == 1 {
                issue_model(index, "行距"@, "行距不符合要求"@, e + "倍"@, a + "倍"@, "major"@, "将行距设置为"@ + e + "倍"@)
            } else {
                issue_model(index, "缩进"@, "首行缩进不符合要求"@, e + "字符"@, a + "字符"@, "major"@, "设置首行缩进"@ + e + "字符"@)
            }
        },
{
    match d {
        Some((e, a)) => if kind == 0 {
            Some(body_size_issue(index, e.as_str(), a.as_str()))
        } else if kind == 1 {
            Some(line_spacing_issue(index, e.as_str(), a.as_str()))
        } else {
            Some(indent_issue(index, e.as_str(), a.as_str()))
        },
        None => None,
    }
}

/// What a body paragraph is reported for. One under five bytes once trimmed
/// is reported for nothing. Otherwise: a font that does not match the
/// required body font comes first, as a major font issue naming both; an
/// alignment that does not agree with the required one comes last, as a
/// minor alignment issue naming both; and each measure found too far from
/// its requirement adds one issue.
#[verifier::spinoff_prover]
pub proof fn lemma_body_reported(
    req: RequirementsModel,
    index: usize,
    text: Seq<char>,
    font: Option<Seq<char>>,
    alignment: Option<Seq<char>>,
    size: Option<(Seq<char>, Seq<char>)>,
    spacing: Option<(Seq<char>, Seq<char>)>,
    indent: Option<(Seq<char>, Seq<char>)>,
)
    ensures
        encode_utf8(trim(text)).len() < 5 ==> body_issues(req, index, text, font, alignment, size, spacing, indent).len()
            == 0,
        req.font_body matches Some(b) ==> (font matches Some(a) ==> (encode_utf8(trim(text)).len() >= 5
            && !same_font(lowercase(b), lowercase(a)) ==> body_issues(
            req,
            index,
            text,
            font,
            alignment,
            size,
            spacing,
            indent,
        )[0] == issue_model(index, "字体"@, "正文字体不符合要求"@, b, a, "major"@, "将正文字体设置为"@ + b))),
        req.alignment_body matches Some(e) ==> (alignment matches Some(a) ==> (encode_utf8(trim(text)).len() >= 5
            && !same_alignment(lowercase(e), lowercase(a)) ==> body_issues(
            req,
            index,
            text,
            font,
            alignment,
            size,
            spacing,
            indent,
        ).last() == issue_model(index, "对齐"@, "段落对齐方式不符合要求"@, e, a, "minor"@, "设置对齐方式为"@ + e))),
        encode_utf8(trim(text)).len() >= 5 && req.font_body is None && req.alignment_body is None ==> body_issues(
            req,
            index,
            text,
            font,
            alignment,
            size,
            spacing,
            indent,
        ).len() == (if size is Some { 1int } else { 0int }) + (if spacing is Some { 1int } else { 0int }) + (
        if indent is Some { 1int } else { 0int }),
{
}

/// Appends the issues of a body paragraph (see `body_issues`).
pub fn check_body_format(
    req: &FormatRequirements,
    index: usize,
    text: &str,
    font_name: &Option<String>,
    alignment: &Option<String>,
    deviations: &MeasureDeviations,
    results: &mut Vec<ComparisonResult>,
)
    ensures
        results_view(final(results)@) == results_view(old(results)@) + body_issues(
            req@,
            index,
            text@,
            opt_view(*font_name),
            opt_view(*alignment),
            deviation_view(deviations.font_size),
            deviation_view(deviations.line_spacing),
            deviation_view(deviations.indent_first_line),
        ),
{
    let ghost start = results_view(results@);
    if !body_is_checked(text) {
        assert(results_view(results@) =~= start + Seq::<ResultModel>::empty());
        return;
    }
    push_issue(results, body_font_issue(req, index, font_name));
    let ghost a1 = results_view(results@);
    push_issue(results, deviation_issue(index, &deviations.font_size, 0));
    let ghost a2 = results_view(results@);
    push_issue(results, deviation_issue(index, &deviations.line_spacing, 1));
    let ghost a3 = results_view(results@);
    push_issue(results, deviation_issue(index, &deviations.indent_first_line, 2));
    let ghost a4 = results_view(results@);
    push_issue(results, body_alignment_issue(req, index, alignment));
    assert(results_view(results@) =~= start + body_issues(
        req@,
        index,
        text@,
        opt_view(*font_name),
        opt_view(*alignment),
        deviation_view(deviations.font_size),
        deviation_view(deviations.line_spacing),
        deviation_view(deviations.indent_first_line),
    ));
}

/// The document-wide issues: no headings among more than ten body
/// paragraphs of ten bytes or more; and an average line spacing found too far
/// from the requirement (`spacing`: the required and the average spacing as
/// they print).
pub open spec fn overall_issues(
    heading_count: int,
    body_count: int,
    spacing: Option<(Seq<char>, Seq<char>)>,
) -> Seq<ResultModel> {
    (if heading_count == 0 && body_count > 10 {
        seq![issue_model(0, "标题层次"@, "文档中未检测到标题样式"@, "应有标题层次结构"@, "无标题"@, "major"@, "请使用规范的标题样式（标题1、标题2、标题3）"@)]
    } else {
        Seq::empty()
    }) + match spacing {
        Some((e, a)) => seq![issue_model(0, "行距"@, "行距设置不一致"@, e + "倍"@, "平均"@ + a + "倍"@, "minor"@, "确保全文行距一致"@)],
        None => Seq::empty(),
    }
}

/// Appends the document-wide issues (see `overall_issues`).
pub fn check_overall_format(
    heading_count: usize,
    body_count: usize,
    spacing: &Option<(String, String)>,
    results: &mut Vec<ComparisonResult>,
)
    ensures
        results_view(final(results)@) == results_view(old(results)@) + overall_issues(
            heading_count as int,
            body_count as int,
            deviation_view(*spacing),
        ),
{
    let ghost start = results_view(results@);
    push_issue(results, missing_headings_issue(heading_count, body_count));
    let issue = match spacing {
        Some((e, a)) => Some(spacing_consistency_issue(e.as_str(), a.as_str())),
        None => None,
    };
    push_issue(results, issue);
    assert(results_view(results@) =~= start + overall_issues(heading_count as int, body_count as int, deviation_view(*spacing)));
}

/// A paragraph as a comparison reads it: its text, font, boldness and
/// alignment; its heading level, where it was found to be a heading; and its
/// measures found too far from their requirements (of a heading only the
/// size is read, against the heading's required size).
#[derive(Clone, Debug)]
pub struct MeasuredParagraph {
    pub index: usize,
    pub text: String,
    pub font_name: Option<String>,
    pub is_bold: bool,
    pub alignment: Option<String>,
    pub heading_level: Option<u8>,
    pub deviations: MeasureDeviations,
}

/// The issues of one paragraph: those of a heading of its level, or those of
/// a body paragraph.
pub open spec fn paragraph_issues(req: RequirementsModel, p: MeasuredParagraph) -> Seq<ResultModel> {
    match p.heading_level {
        Some(level) => heading_issues(
            req,
            p.index,
            level,
            opt_view(p.font_name),
            p.is_bold,
            deviation_view(p.deviations.font_size),
        ),
        None => body_issues(
            req,
            p.index,
            p.text@,
            opt_view(p.font_name),
            opt_view(p.alignment),
            deviation_view(p.deviations.font_size),
            deviation_view(p.deviations.line_spacing),
            deviation_view(p.deviations.indent_first_line),
        ),
    }
}

/// The issues of the paragraphs, paragraph after paragraph.
pub open spec fn paragraphs_issues(req: RequirementsModel, ps: Seq<MeasuredParagraph>) -> Seq<ResultModel>
    decreases ps.len(),
{
    if ps.len() == 0 {
        Seq::empty()
    } else {
        paragraphs_issues(req, ps.drop_last()) + paragraph_issues(req, ps.last())
    }
}

/// How many of the paragraphs are headings.
pub open spec fn heading_count(ps: Seq<MeasuredParagraph>) -> int
    decreases ps.len(),
{
    if ps.len() == 0 {
        0
    } else {
        heading_count(ps.drop_last()) + if ps.last().heading_level is Some { 1int } else { 0int }
    }
}

/// How many of the paragraphs are body text of ten bytes or more once trimmed.
pub open spec fn long_body_count(ps: Seq<MeasuredParagraph>) -> int
    decreases ps.len(),
{
    if ps.len() == 0 {
        0
    } else {
        long_body_count(ps.drop_last()) + if ps.last().heading_level is None
            && encode_utf8(trim(ps.last().text@)).len() >= 10 {
            1int
        } else {
            0int
        }
    }
}

/// Compares measured paragraphs against requirements: the issues of each
/// paragraph in order, then the document-wide issues (`spacing`: the required
/// and the average line spacing, where they were found too far apart).
pub fn compare_measured(
    req: &FormatRequirements,
    paragraphs: &Vec<MeasuredParagraph>,
    spacing: &Option<(String, String)>,
) -> (results: Vec<ComparisonResult>)
    ensures
        results_view(results@) == paragraphs_issues(req@, paragraphs@) + overall_issues(
            heading_count(paragraphs@),
            long_body_count(paragraphs@),
            deviation_view(*spacing),
        ),
{
    let mut results: Vec<ComparisonResult> = Vec::new();
    let mut headings: usize = 0;
    let mut bodies: usize = 0;
    let mut i: usize = 0;
    while i < paragraphs.len()
        invariant
            i <= paragraphs.len(),
            headings <= i,
            bodies <= i,
            results_view(results@) == paragraphs_issues(req@, paragraphs@.subrange(0, i as int)),
            headings == heading_count(paragraphs@.subrange(0, i as int)),
            bodies == long_body_count(paragraphs@.subrange(0, i as int)),
        decreases paragraphs.len() - i,
    {
        let p = &paragraphs[i];
        match p.heading_level {
            Some(level) => {
                check_heading_format(req, p.index, level, &p.font_name, p.is_bold, &p.deviations.font_size, &mut results);
                headings = headings + 1;
            },
            None => {
                check_body_format(req, p.index, p.text.as_str(), &p.font_name, &p.alignment, &p.deviations, &mut results);
                if trimmed_len(p.text.as_str()) >= 10 {
                    bodies = bodies + 1;
                }
            },
        }
        assert(paragraphs@.subrange(0, i + 1).drop_last() =~= paragraphs@.subrange(0, i as int));
        i = i + 1;
    }
    assert(paragraphs@.subrange(0, i as int) =~= paragraphs@);
    check_overall_format(headings, bodies, spacing, &mut results);
    results
}

} // verus!
