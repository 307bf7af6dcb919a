//! Word (.docx) document parsing.
//!
//! A .docx file is a ZIP archive of XML parts; this module reads the content
//! of those parts (`word/document.xml`, `word/styles.xml`,
//! `docProps/core.xml`) by plain text scanning, byte offset by byte offset.
//! Measures are kept as the text of their XML attribute, in the units the
//! file stores them in.
use std::io::Read;
use vstd::prelude::*;
use vstd::string::*;
use vstd::utf8::*;
use crate::text::{
    bytes, bytes_seq, find, rest, split, ends_with, lemma_split_concat, split_str, find_str, find_byte_str, slice, slice_from,
    slice_to, lemma_find_from, lemma_match_boundaries, lemma_ascii_boundary, ascii_pattern,
    lemma_ascii_str, contains, contains_str, all_ws, is_blank, word_count, count_words, decimal,
    push_decimal, debug_option, push_debug_option, shows, lemma_shows_self, lemma_shows_within,
    lemma_shows_part,
};

verus! {

broadcast use vstd::utf8::encode_utf8_valid_utf8;

// ---------------------------------------------------------------------------
// Reading one value out of XML text
// ---------------------------------------------------------------------------

/// What reading a value gives: `None` where the scan would cut the text
/// inside a character (the scan cannot go on there), `Some(None)` where the
/// value is absent, `Some(Some(v))` with the value's bytes.
pub type Scanned = Option<Option<Seq<u8>>>;

/// The bytes of an optional scanned slice.
pub open spec fn scanned(r: Option<Option<&str>>) -> Scanned {
    match r {
        None => None,
        Some(None) => Some(None),
        Some(Some(x)) => Some(Some(bytes(x))),
    }
}

/// The value found by a scan, if any.
pub open spec fn value_of(r: Scanned) -> Option<Seq<u8>> {
    match r {
        Some(Some(v)) => Some(v),
        _ => None,
    }
}

/// The text from offset `q` of `s` up to the next `"`.
pub open spec fn quoted_from(s: Seq<u8>, q: int) -> Scanned {
    if !is_char_boundary(s, q) {
        None
    } else {
        match find(rest(s, q), seq![34u8]) {
            None => Some(None),
            Some(e) => Some(Some(s.subrange(q, q + e))),
        }
    }
}

/// Whether `s` is the bytes of valid text.
pub open spec fn text_ok(s: &str) -> bool {
    valid_utf8(bytes(s))
}

fn quoted_at<'a>(s: &'a str, q: usize) -> (r: Option<Option<&'a str>>)
    ensures
        scanned(r) == quoted_from(bytes(s), q as int),
{
    if !s.is_char_boundary(q) {
        return None;
    }
    let n = s.as_bytes().len();
    let tail = slice_from(s, q);
    match find_byte_str(tail, 34u8) {
        None => Some(None),
        Some(e) => {
            proof {
                let sb = bytes(s);
                lemma_find_from(bytes(tail), seq![34u8], 0);
                assert(bytes(tail)[e as int] == 34u8) by {
                    assert(bytes(tail).subrange(e as int, e + 1)[0] == 34u8);
                }
                assert(sb[q + e] == bytes(tail)[e as int]);
                lemma_ascii_boundary(sb, q + e);
            }
            Some(Some(slice(s, q, q + e)))
        },
    }
}

/// The value after the first `pat` in `line`, read from `k` bytes past the
/// start of `pat` up to the next `"`.
pub open spec fn attr_after(line: Seq<u8>, pat: Seq<u8>, k: int) -> Scanned {
    match find(line, pat) {
        None => Some(None),
        Some(p) => quoted_from(line, p + k),
    }
}

fn attr_after_exec<'a>(line: &'a str, pat: &str, k: usize) -> (r: Option<Option<&'a str>>)
    ensures
        scanned(r) == attr_after(bytes(line), bytes(pat), k as int),
{
    match find_str(line, pat) {
        None => Some(None),
        Some(p) => {
            let len = line.as_bytes().len();
            proof {
                lemma_find_from(bytes(line), bytes(pat), 0);
            }
            if k > len - p {
                assert(!is_char_boundary(bytes(line), p + k));
                return None;
            }
            quoted_at(line, p + k)
        },
    }
}

/// Within `search` (the text from offset `st` of `base` on), the value `k`
/// bytes past the offset `st + p`, where `p` is where `key` starts in `search`;
/// read in `base` up to the next `"`.
pub open spec fn keyed_value(search: Seq<u8>, base: Seq<u8>, st: int, key: Seq<u8>, k: int) -> Scanned {
    match find(search, key) {
        None => Some(None),
        Some(p) => quoted_from(base, st + p + k),
    }
}

fn keyed_value_exec<'a>(search: &'a str, base: &'a str, st: usize, key: &str, k: usize) -> (r: Option<
    Option<&'a str>,
>)
    requires
        st <= bytes(search).len() + st,
    ensures
        scanned(r) == keyed_value(bytes(search), bytes(base), st as int, bytes(key), k as int),
{
    match find_str(search, key) {
        None => Some(None),
        Some(p) => {
            let bl = base.as_bytes().len();
            if st > bl || p > bl - st || k > bl - st - p {
                assert(!is_char_boundary(bytes(base), st + p + k));
                return None;
            }
            quoted_at(base, st + p + k)
        },
    }
}

/// The value of `key` inside the first element that starts with `open`, read
/// in the text from that element on at `k` bytes past the element's offset
/// plus the key's offset, up to the next `"` (the document scanner's reading).
pub open spec fn element_value(x: Seq<u8>, open: Seq<u8>, key: Seq<u8>, k: int) -> Scanned {
    match find(x, open) {
        None => Some(None),
        Some(st) => keyed_value(rest(x, st), rest(x, st), st, key, k),
    }
}

/// The element's text from its start (the `search` of the scanner), if `open` occurs.
pub open spec fn element_rest(x: Seq<u8>, open: Seq<u8>) -> Option<(int, Seq<u8>)> {
    match find(x, open) {
        None => None,
        Some(st) => Some((st, rest(x, st))),
    }
}

fn element_start<'a>(x: &'a str, open: &str) -> (r: Option<(usize, &'a str)>)
    requires
        ascii_pattern(bytes(open)),
    ensures
        r matches Some((st, s)) ==> element_rest(bytes(x), bytes(open)) == Some((st as int, bytes(s))),
        r is None ==> element_rest(bytes(x), bytes(open)) is None,
{
    match find_str(x, open) {
        None => None,
        Some(st) => {
            proof {
                lemma_find_from(bytes(x), bytes(open), 0);
                lemma_match_boundaries(bytes(x), bytes(open), st as int);
            }
            Some((st, slice_from(x, st)))
        },
    }
}

fn element_value_exec<'a>(x: &'a str, open: &str, key: &str, k: usize) -> (r: Option<Option<&'a str>>)
    requires
        ascii_pattern(bytes(open)),
    ensures
        scanned(r) == element_value(bytes(x), bytes(open), bytes(key), k as int),
{
    match element_start(x, open) {
        None => Some(None),
        Some((st, search)) => keyed_value_exec(search, search, st, key, k),
    }
}

/// The text between the first `open` (read from `k` bytes past its start) and
/// the next `close`.
pub open spec fn tag_value(xml: Seq<u8>, open: Seq<u8>, k: int, close: Seq<u8>) -> Scanned {
    match find(xml, open) {
        None => Some(None),
        Some(p) => if !is_char_boundary(xml, p + k) {
            None
        } else {
            match find(rest(xml, p + k), close) {
                None => Some(None),
                Some(e) => Some(Some(rest(xml, p + k).subrange(0, e))),
            }
        },
    }
}

fn tag_value_exec<'a>(xml: &'a str, open: &str, k: usize, close: &str) -> (r: Option<Option<&'a str>>)
    requires
        ascii_pattern(bytes(close)),
    ensures
        scanned(r) == tag_value(bytes(xml), bytes(open), k as int, bytes(close)),
{
    match find_str(xml, open) {
        None => Some(None),
        Some(p) => {
            proof {
                lemma_find_from(bytes(xml), bytes(open), 0);
            }
            let len = xml.as_bytes().len();
            if k > len - p {
                assert(!is_char_boundary(bytes(xml), p + k));
                return None;
            }
            if !xml.is_char_boundary(p + k) {
                return None;
            }
            let search = slice_from(xml, p + k);
            match find_str(search, close) {
                None => Some(None),
                Some(e) => {
                    proof {
                        lemma_find_from(bytes(search), bytes(close), 0);
                        lemma_match_boundaries(bytes(search), bytes(close), e as int);
                    }
                    Some(Some(slice_to(search, e)))
                },
            }
        },
    }
}

/// The bytes of a string.
pub open spec fn utf8(s: String) -> Seq<u8> {
    encode_utf8(s@)
}

/// The bytes of an optional string.
pub open spec fn opt_utf8(s: Option<String>) -> Option<Seq<u8>> {
    match s {
        Some(x) => Some(utf8(x)),
        None => None,
    }
}

fn owned(s: &str) -> (r: String)
    ensures
        utf8(r) == bytes(s),
        r@ == s@,
{
    s.to_owned()
}

fn opt_owned(v: Option<Option<&str>>) -> (r: Option<String>)
    ensures
        opt_utf8(r) == value_of(scanned(v)),
{
    match v {
        Some(Some(x)) => Some(owned(x)),
        _ => None,
    }
}

// ---------------------------------------------------------------------------
// Document properties (docProps/core.xml)
// ---------------------------------------------------------------------------

/// Title, author and counts of a document.
#[derive(Clone, Debug)]
pub struct DocumentProperties {
    pub title: Option<String>,
    pub author: Option<String>,
    pub subject: Option<String>,
    pub creator: Option<String>,
    pub page_count: Option<usize>,
    pub word_count: Option<usize>,
}

/// The bytes of the properties.
pub struct PropertiesModel {
    pub title: Option<Seq<u8>>,
    pub author: Option<Seq<u8>>,
    pub subject: Option<Seq<u8>>,
    pub creator: Option<Seq<u8>>,
    pub page_count: Option<usize>,
    pub word_count: Option<usize>,
}

impl View for DocumentProperties {
    type V = PropertiesModel;

    open spec fn view(&self) -> PropertiesModel {
        PropertiesModel {
            title: opt_utf8(self.title),
            author: opt_utf8(self.author),
            subject: opt_utf8(self.subject),
            creator: opt_utf8(self.creator),
            page_count: self.page_count,
            word_count: self.word_count,
        }
    }
}

/// Reading `<dc:title>`: the text starts one byte past the tag's end.
pub open spec fn scan_title(xml: Seq<u8>) -> Scanned {
    tag_value(xml, bytes("<dc:title>"), 11, bytes("</dc:title>"))
}

/// Reading `<dc:creator>` (the author).
pub open spec fn scan_author(xml: Seq<u8>) -> Scanned {
    tag_value(xml, bytes("<dc:creator>"), 12, bytes("</dc:creator>"))
}

/// Reading `<dc:subject>`: the text starts one byte past the tag's end.
pub open spec fn scan_subject(xml: Seq<u8>) -> Scanned {
    tag_value(xml, bytes("<dc:subject>"), 13, bytes("</dc:subject>"))
}

/// Reading `<cp:lastModifiedBy>` (the creator field).
pub open spec fn scan_creator(xml: Seq<u8>) -> Scanned {
    tag_value(xml, bytes("<cp:lastModifiedBy>"), 19, bytes("</cp:lastModifiedBy>"))
}

/// The properties part can be read without cutting a character.
pub open spec fn properties_ok(xml: Option<Seq<u8>>) -> bool {
    match xml {
        None => true,
        Some(x) => scan_title(x) is Some && scan_author(x) is Some && scan_subject(x) is Some
            && scan_creator(x) is Some,
    }
}

/// The properties read from the properties part (none when it is missing;
/// the counts are left unset).
pub open spec fn properties_of(xml: Option<Seq<u8>>) -> PropertiesModel {
    match xml {
        None => PropertiesModel {
            title: None,
            author: None,
            subject: None,
            creator: None,
            page_count: None,
            word_count: None,
        },
        Some(x) => PropertiesModel {
            title: value_of(scan_title(x)),
            author: value_of(scan_author(x)),
            subject: value_of(scan_subject(x)),
            creator: value_of(scan_creator(x)),
            page_count: None,
            word_count: None,
        },
    }
}

/// The bytes of an optional text.
pub open spec fn opt_bytes(x: Option<&str>) -> Option<Seq<u8>> {
    match x {
        Some(s) => Some(bytes(s)),
        None => None,
    }
}

proof fn lemma_close_tags()
    ensures
        ascii_pattern(bytes("</dc:title>")),
        ascii_pattern(bytes("</dc:creator>")),
        ascii_pattern(bytes("</dc:subject>")),
        ascii_pattern(bytes("</cp:lastModifiedBy>")),
{
    reveal_strlit("</dc:title>");
    reveal_strlit("</dc:creator>");
    reveal_strlit("</dc:subject>");
    reveal_strlit("</cp:lastModifiedBy>");
    lemma_ascii_str("</dc:title>");
    lemma_ascii_str("</dc:creator>");
    lemma_ascii_str("</dc:subject>");
    lemma_ascii_str("</cp:lastModifiedBy>");
}

/// Whether the properties part can be read without cutting a character.
pub fn properties_readable(xml: Option<&str>) -> (r: bool)
    ensures
        r == properties_ok(opt_bytes(xml)),
{
    proof {
        lemma_close_tags();
    }
    match xml {
        None => true,
        Some(x) => tag_value_exec(x, "<dc:title>", 11, "</dc:title>").is_some()
            && tag_value_exec(x, "<dc:creator>", 12, "</dc:creator>").is_some()
            && tag_value_exec(x, "<dc:subject>", 13, "</dc:subject>").is_some()
            && tag_value_exec(x, "<cp:lastModifiedBy>", 19, "</cp:lastModifiedBy>").is_some(),
    }
}

/// Reads title, author, subject and last editor from the properties part.
pub fn parse_properties(xml: Option<&str>) -> (r: DocumentProperties)
    requires
        properties_ok(opt_bytes(xml)),
    ensures
        r@ == properties_of(opt_bytes(xml)),
{
    proof {
        lemma_close_tags();
    }
    match xml {
        None => DocumentProperties {
            title: None,
            author: None,
            subject: None,
            creator: None,
            page_count: None,
            word_count: None,
        },
        Some(x) => DocumentProperties {
            title: opt_owned(tag_value_exec(x, "<dc:title>", 11, "</dc:title>")),
            author: opt_owned(tag_value_exec(x, "<dc:creator>", 12, "</dc:creator>")),
            subject: opt_owned(tag_value_exec(x, "<dc:subject>", 13, "</dc:subject>")),
            creator: opt_owned(tag_value_exec(x, "<cp:lastModifiedBy>", 19, "</cp:lastModifiedBy>")),
            page_count: None,
            word_count: None,
        },
    }
}

// ---------------------------------------------------------------------------
// Formatting records
// ---------------------------------------------------------------------------

/// Paragraph formatting as written in the document: each measure is the text
/// of its XML attribute (indents and spacing before/after in twentieths of a
/// point, line spacing in 240ths of a line).
#[derive(Clone, Debug)]
pub struct ParagraphFormatting {
    /// `left`, `center`, `right`, `both`, ...
    pub alignment: Option<String>,
    pub indentation_left: Option<String>,
    pub indentation_first_line: Option<String>,
    pub line_spacing: Option<String>,
    pub space_before: Option<String>,
    pub space_after: Option<String>,
}

/// The bytes of a paragraph's formatting.
pub struct ParagraphFormattingModel {
    pub alignment: Option<Seq<u8>>,
    pub indentation_left: Option<Seq<u8>>,
    pub indentation_first_line: Option<Seq<u8>>,
    pub line_spacing: Option<Seq<u8>>,
    pub space_before: Option<Seq<u8>>,
    pub space_after: Option<Seq<u8>>,
}

impl View for ParagraphFormatting {
    type V = ParagraphFormattingModel;

    open spec fn view(&self) -> ParagraphFormattingModel {
        ParagraphFormattingModel {
            alignment: opt_utf8(self.alignment),
            indentation_left: opt_utf8(self.indentation_left),
            indentation_first_line: opt_utf8(self.indentation_first_line),
            line_spacing: opt_utf8(self.line_spacing),
            space_before: opt_utf8(self.space_before),
            space_after: opt_utf8(self.space_after),
        }
    }
}

/// Character formatting of a style; the size is the text of its attribute,
/// in half points.
#[derive(Clone, Debug)]
pub struct RunFormatting {
    pub font_name: Option<String>,
    pub font_size: Option<String>,
    pub is_bold: bool,
    pub is_italic: bool,
    pub color: Option<String>,
}

/// The bytes of a style's character formatting.
pub struct RunFormattingModel {
    pub font_name: Option<Seq<u8>>,
    pub font_size: Option<Seq<u8>>,
    pub is_bold: bool,
    pub is_italic: bool,
    pub color: Option<Seq<u8>>,
}

impl View for RunFormatting {
    type V = RunFormattingModel;

    open spec fn view(&self) -> RunFormattingModel {
        RunFormattingModel {
            font_name: opt_utf8(self.font_name),
            font_size: opt_utf8(self.font_size),
            is_bold: self.is_bold,
            is_italic: self.is_italic,
            color: opt_utf8(self.color),
        }
    }
}

// ---------------------------------------------------------------------------
// Styles (word/styles.xml)
// ---------------------------------------------------------------------------

/// A named style of the document.
#[derive(Clone, Debug)]
pub struct WordStyle {
    pub id: String,
    pub name: Option<String>,
    /// `paragraph` or `character`.
    pub style_type: String,
    pub based_on: Option<String>,
    pub paragraph_formatting: Option<ParagraphFormatting>,
    pub run_formatting: Option<RunFormatting>,
}

/// The bytes of a style.
pub struct StyleModel {
    pub id: Seq<u8>,
    pub name: Option<Seq<u8>>,
    pub style_type: Seq<u8>,
    pub based_on: Option<Seq<u8>>,
    pub paragraph_formatting: Option<ParagraphFormattingModel>,
    pub run_formatting: Option<RunFormattingModel>,
}

impl View for WordStyle {
    type V = StyleModel;

    open spec fn view(&self) -> StyleModel {
        StyleModel {
            id: utf8(self.id),
            name: opt_utf8(self.name),
            style_type: utf8(self.style_type),
            based_on: opt_utf8(self.based_on),
            paragraph_formatting: match self.paragraph_formatting {
                Some(f) => Some(f@),
                None => None,
            },
            run_formatting: match self.run_formatting {
                Some(f) => Some(f@),
                None => None,
            },
        }
    }
}

/// The models of a sequence of styles.
pub open spec fn styles_view(v: Seq<WordStyle>) -> Seq<StyleModel> {
    v.map_values(|s: WordStyle| s@)
}

/// Reading `w:styleId="`: the id starts one byte past the opening quote.
pub open spec fn scan_style_id(line: Seq<u8>) -> Scanned {
    attr_after(line, bytes("w:styleId=\""), 12)
}

/// Reading the `w:val` of the `<w:name ` element.
pub open spec fn scan_style_name(line: Seq<u8>) -> Scanned {
    match find(line, bytes("<w:name ")) {
        None => Some(None),
        Some(st) => keyed_value(rest(line, st), line, st, bytes("w:val=\""), 7),
    }
}

/// Reading `w:type="`: the type starts one byte past the opening quote.
pub open spec fn scan_style_type(line: Seq<u8>) -> Scanned {
    attr_after(line, bytes("w:type=\""), 9)
}

/// A piece of the styles part can be read without cutting a character.
pub open spec fn style_line_ok(line: Seq<u8>) -> bool {
    scan_style_id(line) is Some && scan_style_name(line) is Some && scan_style_type(line) is Some
}

/// The style that a piece of the styles part declares, if it has a non-empty id.
pub open spec fn style_of_line(line: Seq<u8>) -> Option<StyleModel> {
    let id = value_of(scan_style_id(line));
    match id {
        Some(i) => if i.len() > 0 {
            Some(
                StyleModel {
                    id: i,
                    name: value_of(scan_style_name(line)),
                    style_type: match value_of(scan_style_type(line)) {
                        Some(t) => t,
                        None => bytes("paragraph"),
                    },
                    based_on: None,
                    paragraph_formatting: None,
                    run_formatting: None,
                },
            )
        } else {
            None
        },
        None => None,
    }
}

/// The first position of a style with id `id`, looking from position `i` on.
pub open spec fn style_index_from(ss: Seq<StyleModel>, id: Seq<u8>, i: int) -> Option<int>
    decreases ss.len() - i,
{
    if i < 0 || i >= ss.len() {
        None
    } else if ss[i].id == id {
        Some(i)
    } else {
        style_index_from(ss, id, i + 1)
    }
}

/// The position of the style with id `id`.
pub open spec fn style_index(ss: Seq<StyleModel>, id: Seq<u8>) -> Option<int> {
    style_index_from(ss, id, 0)
}

pub proof fn lemma_style_index_from(ss: Seq<StyleModel>, id: Seq<u8>, i: int)
    requires
        0 <= i,
    ensures
        style_index_from(ss, id, i) matches Some(k) ==> i <= k < ss.len() && ss[k].id == id,
        style_index_from(ss, id, i) matches Some(k) ==> forall|j: int| i <= j < k ==> ss[j].id != id,
        style_index_from(ss, id, i) is None ==> forall|j: int| i <= j < ss.len() ==> ss[j].id != id,
    decreases ss.len() - i,
{
    if i < ss.len() && ss[i].id != id {
        lemma_style_index_from(ss, id, i + 1);
    }
}

/// Adds a style, replacing the one with the same id in place.
pub open spec fn insert_style(ss: Seq<StyleModel>, st: StyleModel) -> Seq<StyleModel> {
    match style_index(ss, st.id) {
        Some(i) => ss.update(i, st),
        None => ss.push(st),
    }
}

/// The styles that the pieces declare, a later declaration of an id
/// replacing an earlier one.
pub open spec fn styles_from(lines: Seq<Seq<u8>>) -> Seq<StyleModel>
    decreases lines.len(),
{
    if lines.len() == 0 {
        Seq::empty()
    } else {
        let acc = styles_from(lines.drop_last());
        match style_of_line(lines.last()) {
            Some(st) => insert_style(acc, st),
            None => acc,
        }
    }
}

/// The pieces of the styles part between the `</w:style>` tags.
pub open spec fn style_lines(xml: Seq<u8>) -> Seq<Seq<u8>> {
    split(xml, bytes("</w:style>"))
}

/// The styles part can be read without cutting a character.
pub open spec fn styles_ok(xml: Option<Seq<u8>>) -> bool {
    match xml {
        None => true,
        Some(x) => lines_ok(style_lines(x)),
    }
}

/// Every piece can be read without cutting a character.
pub open spec fn lines_ok(ls: Seq<Seq<u8>>) -> bool {
    forall|i: int| 0 <= i < ls.len() ==> style_line_ok(#[trigger] ls[i])
}

/// The styles declared by the styles part (none when it is missing).
pub open spec fn styles_of(xml: Option<Seq<u8>>) -> Seq<StyleModel> {
    match xml {
        None => Seq::empty(),
        Some(x) => styles_from(style_lines(x)),
    }
}

proof fn lemma_style_patterns()
    ensures
        ascii_pattern(bytes("</w:style>")),
        ascii_pattern(bytes("<w:name ")),
{
    reveal_strlit("</w:style>");
    reveal_strlit("<w:name ");
    lemma_ascii_str("</w:style>");
    lemma_ascii_str("<w:name ");
}

fn scan_style_name_exec<'a>(line: &'a str) -> (r: Option<Option<&'a str>>)
    ensures
        scanned(r) == scan_style_name(bytes(line)),
{
    proof {
        lemma_style_patterns();
    }
    match element_start(line, "<w:name ") {
        None => Some(None),
        Some((st, search)) => keyed_value_exec(search, line, st, "w:val=\"", 7),
    }
}

/// Whether the line can be read; the style it declares.
fn style_of_line_exec(line: &str) -> (r: (bool, Option<WordStyle>))
    ensures
        r.0 == style_line_ok(bytes(line)),
        r.0 ==> match r.1 {
            Some(w) => style_of_line(bytes(line)) == Some(w@),
            None => style_of_line(bytes(line)) is None,
        },
{
    let id = attr_after_exec(line, "w:styleId=\"", 12);
    let name = scan_style_name_exec(line);
    let ty = attr_after_exec(line, "w:type=\"", 9);
    if id.is_none() || name.is_none() || ty.is_none() {
        return (false, None);
    }
    match id {
        Some(Some(i)) => {
            if i.as_bytes().len() == 0 {
                return (true, None);
            }
            let style_type = match ty {
                Some(Some(t)) => owned(t),
                _ => owned("paragraph"),
            };
            let w = WordStyle {
                id: owned(i),
                name: opt_owned(name),
                style_type,
                based_on: None,
                paragraph_formatting: None,
                run_formatting: None,
            };
            (true, Some(w))
        },
        _ => (true, None),
    }
}

/// Two strings are equal exactly when their bytes are.
pub proof fn lemma_utf8_injective(a: Seq<char>, b: Seq<char>)
    ensures
        (encode_utf8(a) == encode_utf8(b)) <==> (a == b),
{
    broadcast use vstd::utf8::encode_utf8_decode_utf8;
    if encode_utf8(a) == encode_utf8(b) {
        assert(decode_utf8(encode_utf8(a)) == a);
        assert(decode_utf8(encode_utf8(b)) == b);
    }
}

/// The position of the style with id `id` among `styles`.
pub fn find_style(styles: &Vec<WordStyle>, id: &String) -> (r: Option<usize>)
    ensures
        r matches Some(i) ==> style_index(styles_view(styles@), utf8(*id)) == Some(i as int),
        r is None ==> style_index(styles_view(styles@), utf8(*id)) is None,
{
    let ghost ss = styles_view(styles@);
    let mut i: usize = 0;
    while i < styles.len()
        invariant
            i <= styles@.len(),
            ss == styles_view(styles@),
            style_index(ss, utf8(*id)) == style_index_from(ss, utf8(*id), i as int),
        decreases styles@.len() - i,
    {
        proof {
            lemma_utf8_injective(styles@[i as int].id@, id@);
        }
        if styles[i].id == *id {
            return Some(i);
        }
        i = i + 1;
    }
    None
}

/// Reads the styles that the styles part declares.
pub fn parse_styles(xml: Option<&str>) -> (r: Vec<WordStyle>)
    requires
        styles_ok(opt_bytes(xml)),
    ensures
        styles_view(r@) == styles_of(opt_bytes(xml)),
        forall|i: int| 0 <= i < r@.len() ==> (#[trigger] r@[i]).id@.len() > 0,
        forall|i: int, j: int| 0 <= i < j < r@.len() ==> (#[trigger] r@[i]).id@ != (#[trigger] r@[j]).id@,
{
    let mut out: Vec<WordStyle> = Vec::new();
    match xml {
        None => {
            assert(styles_view(out@) =~= Seq::<StyleModel>::empty());
            out
        },
        Some(x) => {
            proof {
                lemma_style_patterns();
            }
            let lines = split_str(x, "</w:style>");
            let ghost ls = bytes_seq(lines@);
            assert(opt_bytes(xml) == Some(bytes(x)));
            assert(lines_ok(ls));
            let mut k: usize = 0;
            while k < lines.len()
                invariant
                    k <= lines@.len(),
                    ls == bytes_seq(lines@),
                    ls == style_lines(bytes(x)),
                    lines_ok(ls),
                    styles_view(out@) == styles_from(ls.take(k as int)),
                decreases lines@.len() - k,
            {
                let (_, st) = style_of_line_exec(lines[k]);
                proof {
                    assert(ls.take(k + 1).drop_last() =~= ls.take(k as int));
                    assert(ls.take(k + 1).last() == ls[k as int]);
                    assert(ls[k as int] == bytes(lines@[k as int]));
                    assert(style_line_ok(ls[k as int]));
                }
                match st {
                    Some(w) => {
                        match find_style(&out, &w.id) {
                            Some(j) => {
                                proof {
                                    lemma_style_index_from(styles_view(out@), w@.id, 0);
                                }
                                let ghost before = styles_view(out@);
                                let ghost wv = w@;
                                out.set(j, w);
                                proof {
                                    assert(styles_view(out@) =~= before.update(j as int, wv));
                                }
                            },
                            None => {
                                out.push(w);
                            },
                        }
                        assert(styles_view(out@) =~= styles_from(ls.take(k + 1)));
                    },
                    None => {
                        assert(styles_view(out@) =~= styles_from(ls.take(k + 1)));
                    },
                }
                k = k + 1;
            }
            assert(ls.take(lines@.len() as int) =~= ls);
            proof {
                lemma_style_ids(out@, ls);
            }
            out
        },
    }
}

/// Styles read from pieces have non-empty, distinct ids, as text too.
proof fn lemma_style_ids(v: Seq<WordStyle>, lines: Seq<Seq<u8>>)
    requires
        styles_view(v) == styles_from(lines),
    ensures
        forall|i: int| 0 <= i < v.len() ==> (#[trigger] v[i]).id@.len() > 0,
        forall|i: int, j: int| 0 <= i < j < v.len() ==> (#[trigger] v[i]).id@ != (#[trigger] v[j]).id@,
{
    lemma_styles_distinct(lines);
    assert forall|i: int| 0 <= i < v.len() implies (#[trigger] v[i]).id@.len() > 0 by {
        assert(styles_view(v)[i].id == utf8(v[i].id));
        lemma_utf8_empty(v[i].id@);
    }
    assert forall|i: int, j: int| 0 <= i < j < v.len() implies (#[trigger] v[i]).id@ != (#[trigger] v[j]).id@ by {
        assert(styles_view(v)[i].id == utf8(v[i].id));
        assert(styles_view(v)[j].id == utf8(v[j].id));
    }
}

// ---------------------------------------------------------------------------
// Runs and paragraphs (word/document.xml)
// ---------------------------------------------------------------------------

/// A stretch of text with uniform character formatting; the size is the text
/// of the `w:sz` attribute, in half points.
#[derive(Clone, Debug)]
pub struct WordRun {
    pub text: String,
    pub font_name: Option<String>,
    pub font_size: Option<String>,
    pub is_bold: bool,
    pub is_italic: bool,
    pub is_underline: bool,
}

/// The bytes of a run.
pub struct RunModel {
    pub text: Seq<u8>,
    pub font_name: Option<Seq<u8>>,
    pub font_size: Option<Seq<u8>>,
    pub is_bold: bool,
    pub is_italic: bool,
    pub is_underline: bool,
}

impl View for WordRun {
    type V = RunModel;

    open spec fn view(&self) -> RunModel {
        RunModel {
            text: utf8(self.text),
            font_name: opt_utf8(self.font_name),
            font_size: opt_utf8(self.font_size),
            is_bold: self.is_bold,
            is_italic: self.is_italic,
            is_underline: self.is_underline,
        }
    }
}

/// The models of a sequence of runs.
pub open spec fn runs_view(v: Seq<WordRun>) -> Seq<RunModel> {
    v.map_values(|r: WordRun| r@)
}

/// The bytes of `b` form text, read as characters.
pub open spec fn chars(b: Seq<u8>) -> Seq<char> {
    decode_utf8(b)
}

/// The text that one piece of a run (the part before a `</w:t>`) adds: what
/// follows the first `>` after the first `<w:t`, unless that is blank.
pub open spec fn text_piece(t: Seq<u8>) -> Seq<u8> {
    match find(t, bytes("<w:t")) {
        None => Seq::empty(),
        Some(st) => match find(rest(t, st), bytes(">")) {
            None => Seq::empty(),
            Some(ts) => if all_ws(chars(rest(rest(t, st), ts + 1))) {
                Seq::empty()
            } else {
                rest(rest(t, st), ts + 1)
            },
        },
    }
}

/// The concatenation of byte strings.
pub open spec fn concat_all(ps: Seq<Seq<u8>>) -> Seq<u8>
    decreases ps.len(),
{
    if ps.len() == 0 {
        Seq::empty()
    } else {
        concat_all(ps.drop_last()) + ps.last()
    }
}

/// The text of a run: its pieces' texts, in order.
pub open spec fn run_text(block: Seq<u8>) -> Seq<u8> {
    concat_all(split(block, bytes("</w:t>")).map_values(|t: Seq<u8>| text_piece(t)))
}

/// Reading the font of a run: `w:ascii` of `<w:rFonts `, else `w:asciiTheme`,
/// each read at an offset counted from the element's start twice.
pub open spec fn scan_font(block: Seq<u8>) -> Scanned {
    match find(block, bytes("<w:rFonts ")) {
        None => Some(None),
        Some(st) => if contains(rest(block, st), bytes("w:ascii=\"")) {
            keyed_value(rest(block, st), rest(block, st), st, bytes("w:ascii=\""), 10)
        } else {
            keyed_value(rest(block, st), rest(block, st), st, bytes("w:asciiTheme=\""), 14)
        },
    }
}

/// Reading the size of a run (`w:val` of `<w:sz `, one byte past the quote).
pub open spec fn scan_size(block: Seq<u8>) -> Scanned {
    element_value(block, bytes("<w:sz "), bytes("w:val=\""), 8)
}

/// A run can be read without cutting a character.
pub open spec fn run_ok(block: Seq<u8>) -> bool {
    scan_font(block) is Some && scan_size(block) is Some
}

/// The run that a piece of a paragraph (the part before a `</w:r>`) holds,
/// if it has text.
pub open spec fn run_of(block: Seq<u8>) -> Option<RunModel> {
    if run_text(block).len() == 0 {
        None
    } else {
        Some(
            RunModel {
                text: run_text(block),
                font_name: value_of(scan_font(block)),
                font_size: value_of(scan_size(block)),
                is_bold: contains(block, bytes("<w:b ")) || contains(block, bytes("<w:b>")),
                is_italic: contains(block, bytes("<w:i ")) || contains(block, bytes("<w:i>")),
                is_underline: contains(block, bytes("<w:u ")) || contains(block, bytes("<w:u>")),
            },
        )
    }
}

/// A piece of a paragraph holds a run exactly when it has text; the run is
/// bold when the piece holds `<w:b ` or `<w:b>`, italic when it holds `<w:i `
/// or `<w:i>`, and underlined when it holds `<w:u ` or `<w:u>`.
#[verifier::spinoff_prover]
pub proof fn lemma_run_formatting(block: Seq<u8>)
    ensures
        run_of(block) is Some <==> run_text(block).len() > 0,
        run_of(block) matches Some(r) ==> r.text == run_text(block),
        run_of(block) matches Some(r) ==> (r.is_bold <==> (contains(block, bytes("<w:b ")) || contains(
            block,
            bytes("<w:b>"),
        ))),
        run_of(block) matches Some(r) ==> (r.is_italic <==> (contains(block, bytes("<w:i ")) || contains(
            block,
            bytes("<w:i>"),
        ))),
        run_of(block) matches Some(r) ==> (r.is_underline <==> (contains(block, bytes("<w:u ")) || contains(
            block,
            bytes("<w:u>"),
        ))),
{
}

/// The bytes of a concatenation are the concatenated bytes.
pub proof fn lemma_utf8_concat(a: Seq<char>, b: Seq<char>)
    ensures
        encode_utf8(a + b) == encode_utf8(a) + encode_utf8(b),
    decreases a.len(),
{
    if a.len() == 0 {
        assert(a + b =~= b);
    } else {
        assert((a + b).drop_first() =~= a.drop_first() + b);
        lemma_utf8_concat(a.drop_first(), b);
        assert(encode_utf8(a + b) =~= encode_utf8(a) + encode_utf8(b));
    }
}

/// Text has no bytes exactly when it has no characters.
pub proof fn lemma_utf8_empty(a: Seq<char>)
    ensures
        (encode_utf8(a).len() == 0) <==> (a.len() == 0),
{
    if a.len() > 0 {
        assert(encode_scalar(a[0] as u32).len() > 0);
    }
}

proof fn lemma_docx_patterns()
    ensures
        ascii_pattern(bytes("</w:t>")),
        ascii_pattern(bytes("</w:r>")),
        ascii_pattern(bytes("</w:p>")),
        ascii_pattern(bytes("<w:t")),
        ascii_pattern(bytes(">")),
        bytes(">").len() == 1,
        ascii_pattern(bytes("<w:rFonts ")),
        ascii_pattern(bytes("<w:sz ")),
        ascii_pattern(bytes("w:pStyle w:val=\"")),
        ascii_pattern(bytes("<w:jc ")),
        ascii_pattern(bytes("<w:ind ")),
        ascii_pattern(bytes("<w:spacing ")),
{
    reveal_strlit("</w:t>");
    reveal_strlit("</w:r>");
    reveal_strlit("</w:p>");
    reveal_strlit("<w:t");
    reveal_strlit(">");
    reveal_strlit("<w:rFonts ");
    reveal_strlit("<w:sz ");
    reveal_strlit("w:pStyle w:val=\"");
    reveal_strlit("<w:jc ");
    reveal_strlit("<w:ind ");
    reveal_strlit("<w:spacing ");
    lemma_ascii_str("</w:t>");
    lemma_ascii_str("</w:r>");
    lemma_ascii_str("</w:p>");
    lemma_ascii_str("<w:t");
    lemma_ascii_str(">");
    lemma_ascii_str("<w:rFonts ");
    lemma_ascii_str("<w:sz ");
    lemma_ascii_str("w:pStyle w:val=\"");
    lemma_ascii_str("<w:jc ");
    lemma_ascii_str("<w:ind ");
    lemma_ascii_str("<w:spacing ");
}

fn text_piece_exec<'a>(t: &'a str) -> (r: Option<&'a str>)
    ensures
        r matches Some(x) ==> bytes(x) == text_piece(bytes(t)),
        r is None ==> text_piece(bytes(t)) == Seq::<u8>::empty(),
{
    proof {
        lemma_docx_patterns();
    }
    match element_start(t, "<w:t") {
        None => None,
        Some((st, search)) => match find_str(search, ">") {
            None => None,
            Some(ts) => {
                proof {
                    lemma_find_from(bytes(search), bytes(">"), 0);
                    lemma_match_boundaries(bytes(search), bytes(">"), ts as int);
                }
                let n = search.as_bytes().len();
                let text = slice_from(search, ts + 1);
                proof {
                    broadcast use vstd::utf8::encode_utf8_decode_utf8;
                    assert(chars(bytes(text)) == text@);
                }
                if is_blank(text) {
                    None
                } else {
                    Some(text)
                }
            },
        },
    }
}

fn scan_font_exec<'a>(block: &'a str) -> (r: Option<Option<&'a str>>)
    ensures
        scanned(r) == scan_font(bytes(block)),
{
    proof {
        lemma_docx_patterns();
    }
    match element_start(block, "<w:rFonts ") {
        None => Some(None),
        Some((st, search)) => if contains_str(search, "w:ascii=\"") {
            keyed_value_exec(search, search, st, "w:ascii=\"", 10)
        } else {
            keyed_value_exec(search, search, st, "w:asciiTheme=\"", 14)
        },
    }
}

/// Whether a piece of a paragraph can be read; the run it holds.
fn scan_run(block: &str) -> (r: (bool, Option<WordRun>))
    ensures
        r.0 == run_ok(bytes(block)),
        r.0 ==> match r.1 {
            Some(w) => run_of(bytes(block)) == Some(w@),
            None => run_of(bytes(block)) is None,
        },
{
    proof {
        lemma_docx_patterns();
    }
    let pieces = split_str(block, "</w:t>");
    let ghost ps = bytes_seq(pieces@);
    let ghost texts = ps.map_values(|t: Seq<u8>| text_piece(t));
    let mut text = String::new();
    let mut i: usize = 0;
    while i < pieces.len()
        invariant
            i <= pieces@.len(),
            ps == bytes_seq(pieces@),
            texts == ps.map_values(|t: Seq<u8>| text_piece(t)),
            utf8(text) == concat_all(texts.take(i as int)),
        decreases pieces@.len() - i,
    {
        let ghost before = text@;
        proof {
            assert(texts.take(i + 1).drop_last() =~= texts.take(i as int));
            assert(texts[i as int] == text_piece(bytes(pieces@[i as int])));
        }
        match text_piece_exec(pieces[i]) {
            Some(x) => {
                text.append(x);
                proof {
                    lemma_utf8_concat(before, x@);
                }
            },
            None => {
                assert(utf8(text) =~= concat_all(texts.take(i as int)) + texts[i as int]);
            },
        }
        i = i + 1;
    }
    proof {
        assert(texts.take(pieces@.len() as int) =~= texts);
        assert(utf8(text) == run_text(bytes(block)));
    }
    let is_bold = contains_str(block, "<w:b ") || contains_str(block, "<w:b>");
    let is_italic = contains_str(block, "<w:i ") || contains_str(block, "<w:i>");
    let is_underline = contains_str(block, "<w:u ") || contains_str(block, "<w:u>");
    let font = scan_font_exec(block);
    let size = element_value_exec(block, "<w:sz ", "w:val=\"", 8);
    if font.is_none() || size.is_none() {
        return (false, None);
    }
    proof {
        lemma_utf8_empty(text@);
    }
    if text.as_str().is_empty() {
        return (true, None);
    }
    let run = WordRun {
        text,
        font_name: opt_owned(font),
        font_size: opt_owned(size),
        is_bold,
        is_italic,
        is_underline,
    };
    (true, Some(run))
}

/// The runs that the pieces of a paragraph hold, in order.
pub open spec fn runs_from(blocks: Seq<Seq<u8>>) -> Seq<RunModel>
    decreases blocks.len(),
{
    if blocks.len() == 0 {
        Seq::empty()
    } else {
        let acc = runs_from(blocks.drop_last());
        match run_of(blocks.last()) {
            Some(r) => acc.push(r),
            None => acc,
        }
    }
}

/// The concatenated text of runs.
pub open spec fn runs_text(rs: Seq<RunModel>) -> Seq<u8> {
    concat_all(rs.map_values(|r: RunModel| r.text))
}

/// The pieces of a paragraph between the `</w:r>` tags.
pub open spec fn run_blocks(para: Seq<u8>) -> Seq<Seq<u8>> {
    split(para, bytes("</w:r>"))
}

/// Every run of the paragraph can be read.
pub open spec fn runs_ok(blocks: Seq<Seq<u8>>) -> bool {
    forall|i: int| 0 <= i < blocks.len() ==> run_ok(#[trigger] blocks[i])
}

/// The paragraph's style id (`w:val` of `w:pStyle`, read at an offset counted
/// from the element's start twice).
pub open spec fn scan_pstyle(para: Seq<u8>) -> Scanned {
    element_value(para, bytes("w:pStyle w:val=\""), bytes("w:val=\""), 7)
}

/// The paragraph's alignment (`w:val` of `<w:jc `).
pub open spec fn scan_alignment(para: Seq<u8>) -> Scanned {
    element_value(para, bytes("<w:jc "), bytes("w:val=\""), 7)
}

/// The first-line indent (`w:firstLine` of `<w:ind `).
pub open spec fn scan_first_line(para: Seq<u8>) -> Scanned {
    element_value(para, bytes("<w:ind "), bytes("w:firstLine=\""), 13)
}

/// The left indent (`w:left` of `<w:ind `).
pub open spec fn scan_left(para: Seq<u8>) -> Scanned {
    element_value(para, bytes("<w:ind "), bytes("w:left=\""), 8)
}

/// The line spacing (`w:line` of `<w:spacing `, one byte past the quote).
pub open spec fn scan_line(para: Seq<u8>) -> Scanned {
    element_value(para, bytes("<w:spacing "), bytes("w:line=\""), 9)
}

/// The space before (`w:before` of `<w:spacing `, one byte past the quote).
pub open spec fn scan_before(para: Seq<u8>) -> Scanned {
    element_value(para, bytes("<w:spacing "), bytes("w:before=\""), 11)
}

/// The space after (`w:after` of `<w:spacing `, one byte past the quote).
pub open spec fn scan_after(para: Seq<u8>) -> Scanned {
    element_value(para, bytes("<w:spacing "), bytes("w:after=\""), 10)
}

/// The paragraph's style and formatting can be read.
pub open spec fn para_props_ok(para: Seq<u8>) -> bool {
    &&& scan_pstyle(para) is Some
    &&& scan_alignment(para) is Some
    &&& scan_first_line(para) is Some
    &&& scan_left(para) is Some
    &&& scan_line(para) is Some
    &&& scan_before(para) is Some
    &&& scan_after(para) is Some
}

/// The paragraph's text is blank, so the paragraph is left out.
pub open spec fn para_blank(para: Seq<u8>) -> bool {
    all_ws(chars(runs_text(runs_from(run_blocks(para)))))
}

/// A piece of the document (the part before a `</w:p>`) can be read.
pub open spec fn para_block_ok(para: Seq<u8>) -> bool {
    runs_ok(run_blocks(para)) && (para_blank(para) || para_props_ok(para))
}

/// The name of the style with id `id`, if such a style exists and has one.
pub open spec fn style_name_of(styles: Seq<StyleModel>, id: Option<Seq<u8>>) -> Option<Seq<u8>> {
    match id {
        Some(i) => match style_index(styles, i) {
            Some(k) => styles[k].name,
            None => None,
        },
        None => None,
    }
}

/// A paragraph with its position among the kept paragraphs.
#[derive(Clone, Debug)]
pub struct WordParagraph {
    pub index: usize,
    pub text: String,
    pub style_id: Option<String>,
    pub style_name: Option<String>,
    pub runs: Vec<WordRun>,
    pub formatting: ParagraphFormatting,
}

/// The bytes of a paragraph.
pub struct ParagraphModel {
    pub index: usize,
    pub text: Seq<u8>,
    pub style_id: Option<Seq<u8>>,
    pub style_name: Option<Seq<u8>>,
    pub runs: Seq<RunModel>,
    pub formatting: ParagraphFormattingModel,
}

impl View for WordParagraph {
    type V = ParagraphModel;

    open spec fn view(&self) -> ParagraphModel {
        ParagraphModel {
            index: self.index,
            text: utf8(self.text),
            style_id: opt_utf8(self.style_id),
            style_name: opt_utf8(self.style_name),
            runs: runs_view(self.runs@),
            formatting: self.formatting@,
        }
    }
}

/// The models of a sequence of paragraphs.
pub open spec fn paragraphs_view(v: Seq<WordParagraph>) -> Seq<ParagraphModel> {
    v.map_values(|p: WordParagraph| p@)
}

/// The paragraph that a piece of the document holds, unless its text is blank.
pub open spec fn para_of(para: Seq<u8>, styles: Seq<StyleModel>, index: int) -> Option<ParagraphModel> {
    if para_blank(para) {
        None
    } else {
        let runs = runs_from(run_blocks(para));
        let style_id = value_of(scan_pstyle(para));
        Some(
            ParagraphModel {
                index: index as usize,
                text: runs_text(runs),
                style_id,
                style_name: style_name_of(styles, style_id),
                runs,
                formatting: ParagraphFormattingModel {
                    alignment: value_of(scan_alignment(para)),
                    indentation_left: value_of(scan_left(para)),
                    indentation_first_line: value_of(scan_first_line(para)),
                    line_spacing: value_of(scan_line(para)),
                    space_before: value_of(scan_before(para)),
                    space_after: value_of(scan_after(para)),
                },
            },
        )
    }
}

/// The paragraphs of the pieces, numbered from 0 in order.
pub open spec fn paragraphs_from(blocks: Seq<Seq<u8>>, styles: Seq<StyleModel>) -> Seq<ParagraphModel>
    decreases blocks.len(),
{
    if blocks.len() == 0 {
        Seq::empty()
    } else {
        let acc = paragraphs_from(blocks.drop_last(), styles);
        match para_of(blocks.last(), styles, acc.len() as int) {
            Some(p) => acc.push(p),
            None => acc,
        }
    }
}

/// A piece of the document gives a paragraph exactly when its text is not
/// blank; that paragraph's text is its runs' texts joined, its runs are those
/// of the piece, and its style name is the name of the first style whose id
/// is the paragraph's style id (none when no style has that id).
#[verifier::spinoff_prover]
pub proof fn lemma_paragraph_of_piece(para: Seq<u8>, styles: Seq<StyleModel>, index: int)
    ensures
        para_of(para, styles, index) is Some <==> !all_ws(chars(runs_text(runs_from(run_blocks(para))))),
        para_of(para, styles, index) matches Some(p) ==> {
            &&& p.index == index as usize
            &&& p.runs == runs_from(run_blocks(para))
            &&& p.text == concat_all(p.runs.map_values(|r: RunModel| r.text))
            &&& p.style_id == value_of(scan_pstyle(para))
            &&& p.formatting.alignment == value_of(scan_alignment(para))
        },
        para_of(para, styles, index) matches Some(p) ==> (p.style_name is Some ==> exists|k: int|
            0 <= k < styles.len() && p.style_id == Some(styles[k].id) && #[trigger] styles[k].name == p.style_name
                && forall|j: int| 0 <= j < k ==> styles[j].id != styles[k].id),
        para_of(para, styles, index) matches Some(p) ==> (p.style_id matches Some(id) ==> ((forall|k: int|
            0 <= k < styles.len() ==> #[trigger] styles[k].id != id) ==> p.style_name is None)),
{
    if let Some(id) = value_of(scan_pstyle(para)) {
        lemma_style_index_from(styles, id, 0);
        if let Some(k) = style_index(styles, id) {
            assert(styles[k].id == id);
        }
    }
}

/// The pieces of the document between the `</w:p>` tags.
pub open spec fn para_blocks(xml: Seq<u8>) -> Seq<Seq<u8>> {
    split(xml, bytes("</w:p>"))
}

/// Every piece of the document can be read.
pub open spec fn blocks_ok(blocks: Seq<Seq<u8>>) -> bool {
    forall|i: int| 0 <= i < blocks.len() ==> para_block_ok(#[trigger] blocks[i])
}

/// The document part can be read without cutting a character.
pub open spec fn document_ok(xml: Seq<u8>) -> bool {
    blocks_ok(para_blocks(xml))
}

/// The paragraphs of the document part.
pub open spec fn document_paragraphs(xml: Seq<u8>, styles: Seq<StyleModel>) -> Seq<ParagraphModel> {
    paragraphs_from(para_blocks(xml), styles)
}

fn clone_opt_string(s: &Option<String>) -> (r: Option<String>)
    ensures
        r == *s,
{
    match s {
        Some(x) => Some(x.clone()),
        None => None,
    }
}

/// Whether the runs of a paragraph can be read; the runs and their text.
fn scan_runs(block: &str) -> (r: (bool, Vec<WordRun>, String))
    ensures
        r.0 == runs_ok(run_blocks(bytes(block))),
        r.0 ==> runs_view(r.1@) == runs_from(run_blocks(bytes(block))),
        r.0 ==> utf8(r.2) == runs_text(runs_view(r.1@)),
{
    proof {
        lemma_docx_patterns();
    }
    let rbs = split_str(block, "</w:r>");
    let ghost bs = bytes_seq(rbs@);
    let mut runs: Vec<WordRun> = Vec::new();
    let mut text = String::new();
    let mut k: usize = 0;
    while k < rbs.len()
        invariant
            k <= rbs@.len(),
            bs == bytes_seq(rbs@),
            bs == run_blocks(bytes(block)),
            forall|i: int| 0 <= i < k ==> run_ok(#[trigger] bs[i]),
            runs_view(runs@) == runs_from(bs.take(k as int)),
            utf8(text) == runs_text(runs_view(runs@)),
        decreases rbs@.len() - k,
    {
        let (ok, run) = scan_run(rbs[k]);
        proof {
            assert(bs.take(k + 1).drop_last() =~= bs.take(k as int));
            assert(bs.take(k + 1).last() == bs[k as int]);
        }
        if !ok {
            assert(!runs_ok(bs));
            return (false, runs, text);
        }
        match run {
            Some(w) => {
                let ghost before = text@;
                let ghost old_runs = runs_view(runs@);
                text.append(w.text.as_str());
                proof {
                    lemma_utf8_concat(before, w.text@);
                }
                runs.push(w);
                proof {
                    assert(runs_view(runs@) =~= old_runs.push(w@));
                    assert(runs_view(runs@).map_values(|r: RunModel| r.text) =~= old_runs.map_values(
                        |r: RunModel| r.text,
                    ).push(w@.text));
                    assert(runs_view(runs@).map_values(|r: RunModel| r.text).drop_last()
                        =~= old_runs.map_values(|r: RunModel| r.text));
                }
            },
            None => {},
        }
        k = k + 1;
    }
    proof {
        assert(bs.take(rbs@.len() as int) =~= bs);
    }
    (true, runs, text)
}

/// Whether the style and formatting of a paragraph can be read; its style id
/// and formatting.
fn scan_props(block: &str) -> (r: Option<(Option<String>, ParagraphFormatting)>)
    ensures
        r is Some == para_props_ok(bytes(block)),
        r matches Some((id, f)) ==> opt_utf8(id) == value_of(scan_pstyle(bytes(block))),
        r matches Some((id, f)) ==> f@ == (ParagraphFormattingModel {
            alignment: value_of(scan_alignment(bytes(block))),
            indentation_left: value_of(scan_left(bytes(block))),
            indentation_first_line: value_of(scan_first_line(bytes(block))),
            line_spacing: value_of(scan_line(bytes(block))),
            space_before: value_of(scan_before(bytes(block))),
            space_after: value_of(scan_after(bytes(block))),
        }),
{
    proof {
        lemma_docx_patterns();
    }
    let pstyle = element_value_exec(block, "w:pStyle w:val=\"", "w:val=\"", 7);
    let align = element_value_exec(block, "<w:jc ", "w:val=\"", 7);
    let first = element_value_exec(block, "<w:ind ", "w:firstLine=\"", 13);
    let left = element_value_exec(block, "<w:ind ", "w:left=\"", 8);
    let line = element_value_exec(block, "<w:spacing ", "w:line=\"", 9);
    let before = element_value_exec(block, "<w:spacing ", "w:before=\"", 11);
    let after = element_value_exec(block, "<w:spacing ", "w:after=\"", 10);
    if pstyle.is_none() || align.is_none() || first.is_none() || left.is_none() || line.is_none()
        || before.is_none() || after.is_none() {
        return None;
    }
    let formatting = ParagraphFormatting {
        alignment: opt_owned(align),
        indentation_left: opt_owned(left),
        indentation_first_line: opt_owned(first),
        line_spacing: opt_owned(line),
        space_before: opt_owned(before),
        space_after: opt_owned(after),
    };
    Some((opt_owned(pstyle), formatting))
}

/// The name of the style with the given id, if that style exists.
fn style_name_exec(styles: &Vec<WordStyle>, style_id: &Option<String>) -> (r: Option<String>)
    ensures
        opt_utf8(r) == style_name_of(styles_view(styles@), opt_utf8(*style_id)),
{
    match style_id {
        Some(id) => match find_style(styles, id) {
            Some(j) => {
                proof {
                    lemma_style_index_from(styles_view(styles@), utf8(*id), 0);
                }
                clone_opt_string(&styles[j].name)
            },
            None => None,
        },
        None => None,
    }
}

/// Whether a piece of the document can be read; the paragraph it holds.
fn scan_paragraph(block: &str, styles: &Vec<WordStyle>, index: usize) -> (r: (bool, Option<WordParagraph>))
    ensures
        r.0 == para_block_ok(bytes(block)),
        r.0 ==> match r.1 {
            Some(p) => para_of(bytes(block), styles_view(styles@), index as int) == Some(p@),
            None => para_of(bytes(block), styles_view(styles@), index as int) is None,
        },
{
    let (ok, runs, text) = scan_runs(block);
    if !ok {
        return (false, None);
    }
    proof {
        broadcast use vstd::utf8::encode_utf8_decode_utf8;
        assert(chars(utf8(text)) == text@);
    }
    if is_blank(text.as_str()) {
        return (true, None);
    }
    match scan_props(block) {
        None => (false, None),
        Some((style_id, formatting)) => {
            let style_name = style_name_exec(styles, &style_id);
            let p = WordParagraph { index, text, style_id, style_name, runs, formatting };
            (true, Some(p))
        },
    }
}

/// Whether the document part can be read; its paragraphs.
fn scan_document(xml: &str, styles: &Vec<WordStyle>) -> (r: (bool, Vec<WordParagraph>))
    ensures
        r.0 == document_ok(bytes(xml)),
        r.0 ==> paragraphs_view(r.1@) == document_paragraphs(bytes(xml), styles_view(styles@)),
{
    proof {
        lemma_docx_patterns();
    }
    let blocks = split_str(xml, "</w:p>");
    let ghost bs = bytes_seq(blocks@);
    let ghost ss = styles_view(styles@);
    let mut out: Vec<WordParagraph> = Vec::new();
    let mut k: usize = 0;
    while k < blocks.len()
        invariant
            k <= blocks@.len(),
            bs == bytes_seq(blocks@),
            bs == para_blocks(bytes(xml)),
            ss == styles_view(styles@),
            forall|i: int| 0 <= i < k ==> para_block_ok(#[trigger] bs[i]),
            paragraphs_view(out@) == paragraphs_from(bs.take(k as int), ss),
            out@.len() <= k,
        decreases blocks@.len() - k,
    {
        let (ok, para) = scan_paragraph(blocks[k], styles, out.len());
        proof {
            assert(bs.take(k + 1).drop_last() =~= bs.take(k as int));
            assert(bs.take(k + 1).last() == bs[k as int]);
        }
        if !ok {
            assert(!blocks_ok(bs));
            return (false, out);
        }
        match para {
            Some(p) => {
                let ghost before = paragraphs_view(out@);
                out.push(p);
                assert(paragraphs_view(out@) =~= before.push(p@));
            },
            None => {},
        }
        k = k + 1;
    }
    proof {
        assert(bs.take(blocks@.len() as int) =~= bs);
    }
    (true, out)
}

/// Whether the document part can be read without cutting a character.
pub fn document_readable(xml: &str, styles: &Vec<WordStyle>) -> (r: bool)
    ensures
        r == document_ok(bytes(xml)),
{
    scan_document(xml, styles).0
}

/// Reads the paragraphs of the document part, naming each by its style.
pub fn parse_document_xml(xml: &str, styles: &Vec<WordStyle>) -> (r: Vec<WordParagraph>)
    requires
        document_ok(bytes(xml)),
    ensures
        paragraphs_view(r@) == document_paragraphs(bytes(xml), styles_view(styles@)),
{
    scan_document(xml, styles).1
}

// ---------------------------------------------------------------------------
// The whole document
// ---------------------------------------------------------------------------

/// A parsed Word document.
#[derive(Clone, Debug)]
pub struct WordDocument {
    pub paragraphs: Vec<WordParagraph>,
    pub styles: Vec<WordStyle>,
    pub properties: DocumentProperties,
}

/// The bytes of a document.
pub struct DocumentModel {
    pub paragraphs: Seq<ParagraphModel>,
    pub styles: Seq<StyleModel>,
    pub properties: PropertiesModel,
}

impl View for WordDocument {
    type V = DocumentModel;

    open spec fn view(&self) -> DocumentModel {
        DocumentModel {
            paragraphs: paragraphs_view(self.paragraphs@),
            styles: styles_view(self.styles@),
            properties: self.properties@,
        }
    }
}

/// The number of words of all the paragraphs.
pub open spec fn total_words(ps: Seq<ParagraphModel>) -> nat
    decreases ps.len(),
{
    if ps.len() == 0 {
        0
    } else {
        total_words(ps.drop_last()) + word_count(chars(ps.last().text))
    }
}

/// The number of paragraphs whose text holds a form feed.
pub open spec fn page_breaks(ps: Seq<ParagraphModel>) -> nat
    decreases ps.len(),
{
    if ps.len() == 0 {
        0
    } else {
        page_breaks(ps.drop_last()) + if contains(ps.last().text, seq![12u8]) {
            1nat
        } else {
            0nat
        }
    }
}

/// The parts of a document can be read, and its counts fit in a `usize`.
pub open spec fn docx_ok(doc: Seq<u8>, styles: Option<Seq<u8>>, props: Option<Seq<u8>>) -> bool {
    &&& styles_ok(styles)
    &&& document_ok(doc)
    &&& properties_ok(props)
    &&& total_words(document_paragraphs(doc, styles_of(styles))) <= usize::MAX
    &&& page_breaks(document_paragraphs(doc, styles_of(styles))) + 1 <= usize::MAX
}

/// The document that its parts describe: its paragraphs, the styles they
/// name, and its properties with the page count (one more than the
/// paragraphs with a form feed) and the word count.
pub open spec fn docx_of(doc: Seq<u8>, styles: Option<Seq<u8>>, props: Option<Seq<u8>>) -> DocumentModel {
    let ps = document_paragraphs(doc, styles_of(styles));
    let p = properties_of(props);
    DocumentModel {
        paragraphs: ps,
        styles: styles_of(styles),
        properties: PropertiesModel {
            page_count: Some((page_breaks(ps) + 1) as usize),
            word_count: Some(total_words(ps) as usize),
            ..p
        },
    }
}

fn count_totals(ps: &Vec<WordParagraph>) -> (r: Option<(usize, usize)>)
    ensures
        r is Some == (total_words(paragraphs_view(ps@)) <= usize::MAX && page_breaks(
            paragraphs_view(ps@),
        ) + 1 <= usize::MAX),
        r matches Some((pages, words)) ==> pages == page_breaks(paragraphs_view(ps@)) + 1 && words
            == total_words(paragraphs_view(ps@)),
{
    let ghost pv = paragraphs_view(ps@);
    let mut breaks: usize = 0;
    let mut words: usize = 0;
    let mut i: usize = 0;
    while i < ps.len()
        invariant
            i <= ps@.len(),
            pv == paragraphs_view(ps@),
            breaks == page_breaks(pv.take(i as int)),
            breaks <= i,
            words == total_words(pv.take(i as int)),
        decreases ps@.len() - i,
    {
        proof {
            assert(pv.take(i + 1).drop_last() =~= pv.take(i as int));
            assert(pv.take(i + 1).last() == pv[i as int]);
            broadcast use vstd::utf8::encode_utf8_decode_utf8;
            assert(chars(pv[i as int].text) == ps@[i as int].text@);
        }
        let w = count_words(ps[i].text.as_str());
        if words > usize::MAX - w {
            proof {
                lemma_totals_grow(pv, i as int + 1);
            }
            return None;
        }
        words = words + w;
        if find_byte_str(ps[i].text.as_str(), 12u8).is_some() {
            breaks = breaks + 1;
        }
        i = i + 1;
    }
    proof {
        assert(pv.take(ps@.len() as int) =~= pv);
    }
    if breaks == usize::MAX {
        return None;
    }
    Some((breaks + 1, words))
}

/// The counts of a prefix are at most those of the whole.
pub proof fn lemma_totals_grow(ps: Seq<ParagraphModel>, n: int)
    requires
        0 <= n <= ps.len(),
    ensures
        total_words(ps.take(n)) <= total_words(ps),
        page_breaks(ps.take(n)) <= page_breaks(ps),
    decreases ps.len() - n,
{
    if n < ps.len() {
        lemma_totals_grow(ps, n + 1);
        assert(ps.take(n + 1).drop_last() =~= ps.take(n));
    } else {
        assert(ps.take(n) =~= ps);
    }
}

fn scan_docx(doc_xml: &str, styles_xml: Option<&str>, props_xml: Option<&str>) -> (r: Option<
    WordDocument,
>)
    ensures
        r is Some == docx_ok(bytes(doc_xml), opt_bytes(styles_xml), opt_bytes(props_xml)),
        r matches Some(d) ==> d@ == docx_of(bytes(doc_xml), opt_bytes(styles_xml), opt_bytes(props_xml)),
{
    if !styles_readable(styles_xml) {
        return None;
    }
    let styles = parse_styles(styles_xml);
    let (ok, paragraphs) = scan_document(doc_xml, &styles);
    if !ok {
        return None;
    }
    if !properties_readable(props_xml) {
        return None;
    }
    let mut properties = parse_properties(props_xml);
    match count_totals(&paragraphs) {
        None => None,
        Some((pages, words)) => {
            properties.page_count = Some(pages);
            properties.word_count = Some(words);
            Some(WordDocument { paragraphs, styles, properties })
        },
    }
}

/// Whether the styles part can be read without cutting a character.
pub fn styles_readable(xml: Option<&str>) -> (r: bool)
    ensures
        r == styles_ok(opt_bytes(xml)),
{
    match xml {
        None => true,
        Some(x) => {
            proof {
                lemma_style_patterns();
            }
            let lines = split_str(x, "</w:style>");
            let ghost ls = bytes_seq(lines@);
            assert(opt_bytes(xml) == Some(bytes(x)));
            let mut k: usize = 0;
            while k < lines.len()
                invariant
                    k <= lines@.len(),
                    ls == bytes_seq(lines@),
                    ls == style_lines(bytes(x)),
                    opt_bytes(xml) == Some(bytes(x)),
                    forall|i: int| 0 <= i < k ==> style_line_ok(#[trigger] ls[i]),
                decreases lines@.len() - k,
            {
                let (ok, _) = style_of_line_exec(lines[k]);
                assert(ls[k as int] == bytes(lines@[k as int]));
                if !ok {
                    assert(!lines_ok(ls));
                    return false;
                }
                k = k + 1;
            }
            true
        },
    }
}

/// Whether the parts of a document can be read (and their counts fit in a
/// `usize`): the condition under which `parse_docx_parts` reads them.
pub fn docx_parts_readable(doc_xml: &str, styles_xml: Option<&str>, props_xml: Option<&str>) -> (r: bool)
    ensures
        r == docx_ok(bytes(doc_xml), opt_bytes(styles_xml), opt_bytes(props_xml)),
{
    scan_docx(doc_xml, styles_xml, props_xml).is_some()
}

/// The text of the entry `name` of the ZIP archive whose bytes are `data`,
/// or the error met while opening the archive, finding the entry or reading
/// it as text.
pub uninterp spec fn zip_entry_of(data: Seq<u8>, name: Seq<char>) -> Result<Seq<char>, Seq<char>>;

/// `zip::ZipArchive::new` over the bytes, then `by_name` and
/// `Read::read_to_string`: the text of an entry of a ZIP archive. The
/// archive's error and the reading error come back as their text; an entry
/// that cannot be had is reported as "File {name} not found in archive". The
/// result is a function of the bytes and the name, named and not spelled out.
#[verifier::external_body]
fn zip_entry(data: &[u8], name: &str) -> (r: Result<String, String>)
    ensures
        match r {
            Ok(t) => zip_entry_of(data@, name@) == Ok::<Seq<char>, Seq<char>>(t@),
            Err(e) => zip_entry_of(data@, name@) == Err::<Seq<char>, Seq<char>>(e@),
        },
{
    let mut archive = zip::ZipArchive::new(std::io::Cursor::new(data)).map_err(|e| e.to_string())?;
    let mut file = archive.by_name(name).map_err(|_| format!("File {} not found in archive", name))?;
    let mut content = String::new();
    file.read_to_string(&mut content).map_err(|e| e.to_string())?;
    Ok(content)
}

/// The bytes of an entry of a Word file, where it can be read.
pub open spec fn part_of(data: Seq<u8>, name: Seq<char>) -> Option<Seq<u8>> {
    match zip_entry_of(data, name) {
        Ok(t) => Some(encode_utf8(t)),
        Err(_) => None,
    }
}

fn optional_part(data: &[u8], name: &str) -> (r: Option<String>)
    ensures
        opt_utf8(r) == part_of(data@, name@),
{
    match zip_entry(data, name) {
        Ok(t) => Some(t),
        Err(_) => None,
    }
}

fn as_opt_str(s: &Option<String>) -> (r: Option<&str>)
    ensures
        opt_bytes(r) == opt_utf8(*s),
{
    match s {
        Some(x) => Some(x.as_str()),
        None => None,
    }
}

/// Reads the bytes of a Word file: the error met reading its document part
/// where that fails (an archive that cannot be opened, or no
/// `word/document.xml`), else the document read from that part and, where
/// they can be read, the styles and properties parts. `None` where the parts
/// cannot be read without cutting a character (see `docx_ok`).
pub fn parse_docx_bytes(data: &[u8]) -> (r: Result<Option<WordDocument>, String>)
    ensures
        match zip_entry_of(data@, "word/document.xml"@) {
            Err(e) => r matches Err(m) && m@ == e,
            Ok(doc) => r matches Ok(o) && (o is Some <==> docx_ok(
                encode_utf8(doc),
                part_of(data@, "word/styles.xml"@),
                part_of(data@, "docProps/core.xml"@),
            )) && (o matches Some(d) ==> d@ == docx_of(
                encode_utf8(doc),
                part_of(data@, "word/styles.xml"@),
                part_of(data@, "docProps/core.xml"@),
            )),
        },
{
    let doc_xml = match zip_entry(data, "word/document.xml") {
        Ok(t) => t,
        Err(e) => {
            return Err(e);
        },
    };
    let styles_xml = optional_part(data, "word/styles.xml");
    let props_xml = optional_part(data, "docProps/core.xml");
    let styles = as_opt_str(&styles_xml);
    let props = as_opt_str(&props_xml);
    if !docx_parts_readable(doc_xml.as_str(), styles, props) {
        return Ok(None);
    }
    Ok(Some(parse_docx_parts(doc_xml.as_str(), styles, props)))
}

/// Reads a document from its parts: the document part, and the styles and
/// properties parts where the archive has them.
pub fn parse_docx_parts(doc_xml: &str, styles_xml: Option<&str>, props_xml: Option<&str>) -> (r:
    WordDocument)
    requires
        docx_ok(bytes(doc_xml), opt_bytes(styles_xml), opt_bytes(props_xml)),
    ensures
        r@ == docx_of(bytes(doc_xml), opt_bytes(styles_xml), opt_bytes(props_xml)),
{
    match scan_docx(doc_xml, styles_xml, props_xml) {
        Some(d) => d,
        None => {
            proof {
                assert(false);
            }
            WordDocument {
                paragraphs: Vec::new(),
                styles: Vec::new(),
                properties: parse_properties(None),
            }
        },
    }
}

// ---------------------------------------------------------------------------
// A summary of the document's formatting
// ---------------------------------------------------------------------------

/// How a paragraph's measures print in the summary: the first-line indent and
/// line spacing with one decimal (in characters and in lines), and the size of
/// the first run (in points), each as the text to show.
#[derive(Clone, Debug)]
pub struct MeasureTexts {
    pub indentation_first_line: Option<String>,
    pub line_spacing: Option<String>,
    pub font_size: Option<String>,
}

/// The first 100 bytes of a paragraph's text (all of it when shorter).
pub open spec fn preview_len(t: String) -> int {
    if utf8(t).len() < 100 {
        utf8(t).len() as int
    } else {
        100
    }
}

/// A paragraph's text can be cut after its first 100 bytes.
pub open spec fn preview_ok(t: String) -> bool {
    is_char_boundary(utf8(t), preview_len(t))
}

/// The first 100 bytes of a paragraph's text, as characters.
pub open spec fn preview(t: String) -> Seq<char> {
    chars(utf8(t).subrange(0, preview_len(t)))
}

/// `prefix` then `s` then `suffix`, when `s` is present.
pub open spec fn line_if(prefix: Seq<char>, s: Option<String>, suffix: Seq<char>) -> Seq<char> {
    match s {
        Some(x) => prefix + x@ + suffix,
        None => Seq::empty(),
    }
}

/// The lines that name the document's styles.
pub open spec fn style_lines_text(styles: Seq<WordStyle>) -> Seq<char>
    decreases styles.len(),
{
    if styles.len() == 0 {
        Seq::empty()
    } else {
        style_lines_text(styles.drop_last()) + line_if("- "@, styles.last().name, "\n"@)
    }
}

/// The lines on the first run of a paragraph.
pub open spec fn first_run_text(p: WordParagraph, m: MeasureTexts) -> Seq<char> {
    if p.runs@.len() == 0 {
        Seq::empty()
    } else {
        line_if("字体: "@, p.runs@[0].font_name, "\n"@) + line_if("字号: "@, m.font_size, " pt\n"@)
            + if p.runs@[0].is_bold {
            "加粗: 是\n"@
        } else {
            Seq::empty()
        }
    }
}

/// The heading and the text of paragraph number `i` (from 0) in the summary.
pub open spec fn detail_head(i: int, p: WordParagraph) -> Seq<char> {
    "\n[段落 "@ + decimal((i + 1) as nat) + "]\n"@ + "内容: "@ + preview(p.text) + "\n"@
}

/// The style and layout lines of a paragraph in the summary.
pub open spec fn detail_layout(p: WordParagraph, m: MeasureTexts) -> Seq<char> {
    line_if("样式: "@, p.style_name, "\n"@) + line_if("对齐: "@, p.formatting.alignment, "\n"@)
        + line_if("首行缩进: "@, m.indentation_first_line, " 字符\n"@) + line_if(
        "行距: "@,
        m.line_spacing,
        " 倍\n"@,
    )
}

/// The block that details paragraph number `i` (from 0).
pub open spec fn paragraph_detail(i: int, p: WordParagraph, m: MeasureTexts) -> Seq<char> {
    detail_head(i, p) + detail_layout(p, m) + first_run_text(p, m)
}

/// The details of the first `k` paragraphs.
pub open spec fn details_upto(ps: Seq<WordParagraph>, ms: Seq<MeasureTexts>, k: int) -> Seq<char>
    decreases k,
{
    if k <= 0 {
        Seq::empty()
    } else {
        details_upto(ps, ms, k - 1) + paragraph_detail(k - 1, ps[k - 1], ms[k - 1])
    }
}

/// The number shown for the entry of rank `i` from the end among `n`
/// paragraphs: `n - 4 + i`, computed in `usize` arithmetic that wraps
/// around (so below 0 it counts down from `usize::MAX`).
pub open spec fn tail_label(n: int, i: int) -> nat {
    if n - 4 + i >= 0 {
        (n - 4 + i) as nat
    } else {
        (n - 4 + i + usize::MAX + 1) as nat
    }
}

/// The number of the entry of rank `j` from the end among `n` paragraphs:
/// `n - 5 + j`, plus one, in wrapping `usize` arithmetic.
fn tail_number(n: usize, j: usize) -> (r: usize)
    requires
        j < n,
        j < 5,
    ensures
        r as nat == tail_label(n as int, j as int),
{
    let idx = n.wrapping_sub(5).wrapping_add(j);
    idx.wrapping_add(1)
}

/// The entries of the last paragraphs, the last one first, each numbered
/// `tail_label(n, i)` for its rank `i` from the end.
pub open spec fn tail_upto(ps: Seq<WordParagraph>, k: int) -> Seq<char>
    decreases k,
{
    if k <= 0 {
        Seq::empty()
    } else {
        let n = ps.len() as int;
        let i = k - 1;
        tail_upto(ps, k - 1) + "\n[段落 "@ + decimal(tail_label(n, i)) + "]\n"@ + "内容: "@
            + preview(ps[n - 1 - i].text) + "\n"@
    }
}

/// The smaller of two counts.
pub open spec fn min_int(a: int, b: int) -> int {
    if a < b {
        a
    } else {
        b
    }
}

/// The summary of a Word document for the model: properties, style names,
/// details of the first 20 paragraphs and the texts of the last 5.
pub open spec fn docx_summary(doc: WordDocument, ms: Seq<MeasureTexts>) -> Seq<char> {
    let n = doc.paragraphs@.len() as int;
    "=== 论文格式分析 ===\n\n"@ + line_if("标题: "@, doc.properties.title, "\n"@) + line_if(
        "作者: "@,
        doc.properties.author,
        "\n"@,
    ) + "页数: "@ + debug_option(doc.properties.page_count) + "\n"@ + "字数: "@ + debug_option(
        doc.properties.word_count,
    ) + "\n\n"@ + "=== 样式统计 ===\n"@ + style_lines_text(doc.styles@) + "\n"@
        + "=== 段落格式详情 (前20段) ===\n"@ + details_upto(doc.paragraphs@, ms, min_int(n, 20))
        + "\n=== 后5段 ===\n"@ + tail_upto(doc.paragraphs@, min_int(n, 5))
}

/// The summary opens with its heading, then the title line and the author
/// line where the document names them, the page and word counts as they
/// print, and the heading of the style section.
#[verifier::spinoff_prover]
pub proof fn lemma_summary_opening(doc: WordDocument, ms: Seq<MeasureTexts>)
    ensures
        ({
            let title_line = match doc.properties.title {
                Some(x) => "标题: "@ + x@ + "\n"@,
                None => Seq::<char>::empty(),
            };
            let author_line = match doc.properties.author {
                Some(x) => "作者: "@ + x@ + "\n"@,
                None => Seq::<char>::empty(),
            };
            let opening = "=== 论文格式分析 ===\n\n"@ + title_line + author_line + "页数: "@ + debug_option(
                doc.properties.page_count,
            ) + "\n"@ + "字数: "@ + debug_option(doc.properties.word_count) + "\n\n"@ + "=== 样式统计 ===\n"@;
            opening.len() <= docx_summary(doc, ms).len() && docx_summary(doc, ms).subrange(0, opening.len() as int)
                == opening
        }),
{
    let n = doc.paragraphs@.len() as int;
    let title_line = line_if("标题: "@, doc.properties.title, "\n"@);
    let author_line = line_if("作者: "@, doc.properties.author, "\n"@);
    let opening = "=== 论文格式分析 ===\n\n"@ + title_line + author_line + "页数: "@ + debug_option(
        doc.properties.page_count,
    ) + "\n"@ + "字数: "@ + debug_option(doc.properties.word_count) + "\n\n"@ + "=== 样式统计 ===\n"@;
    let rest = style_lines_text(doc.styles@) + "\n"@ + "=== 段落格式详情 (前20段) ===\n"@ + details_upto(
        doc.paragraphs@,
        ms,
        min_int(n, 20),
    ) + "\n=== 后5段 ===\n"@ + tail_upto(doc.paragraphs@, min_int(n, 5));
    assert(docx_summary(doc, ms) =~= opening + rest);
    assert((opening + rest).subrange(0, opening.len() as int) =~= opening);
}

proof fn lemma_style_lines_text_show(ss: Seq<WordStyle>, i: int)
    requires
        0 <= i < ss.len(),
        ss[i].name is Some,
    ensures
        shows(style_lines_text(ss), "- "@ + ss[i].name->0@ + "\n"@),
    decreases ss.len(),
{
    let e = Seq::<char>::empty();
    let last = line_if("- "@, ss.last().name, "\n"@);
    assert(style_lines_text(ss) =~= e + style_lines_text(ss.drop_last()) + last);
    if i == ss.len() - 1 {
        lemma_shows_self(last);
        lemma_shows_within(last, last, style_lines_text(ss.drop_last()), e);
        assert(style_lines_text(ss.drop_last()) + last + e =~= style_lines_text(ss));
    } else {
        lemma_style_lines_text_show(ss.drop_last(), i);
        assert(ss.drop_last()[i] == ss[i]);
        lemma_shows_within(style_lines_text(ss.drop_last()), "- "@ + ss[i].name->0@ + "\n"@, e, last);
    }
}

proof fn lemma_details_show(ps: Seq<WordParagraph>, ms: Seq<MeasureTexts>, k: int, i: int)
    requires
        0 <= i < k,
    ensures
        shows(details_upto(ps, ms, k), paragraph_detail(i, ps[i], ms[i])),
    decreases k,
{
    let e = Seq::<char>::empty();
    let last = paragraph_detail(k - 1, ps[k - 1], ms[k - 1]);
    assert(details_upto(ps, ms, k) =~= e + details_upto(ps, ms, k - 1) + last);
    if i == k - 1 {
        lemma_shows_self(last);
        lemma_shows_within(last, last, details_upto(ps, ms, k - 1), e);
        assert(details_upto(ps, ms, k - 1) + last + e =~= details_upto(ps, ms, k));
    } else {
        lemma_details_show(ps, ms, k - 1, i);
        lemma_shows_within(details_upto(ps, ms, k - 1), paragraph_detail(i, ps[i], ms[i]), e, last);
    }
}

proof fn lemma_tail_show(ps: Seq<WordParagraph>, k: int, i: int)
    requires
        0 <= i < k,
    ensures
        shows(
            tail_upto(ps, k),
            "\n[段落 "@ + decimal(tail_label(ps.len() as int, i)) + "]\n"@ + "内容: "@ + preview(
                ps[ps.len() - 1 - i].text,
            ) + "\n"@,
        ),
    decreases k,
{
    let e = Seq::<char>::empty();
    let n = ps.len() as int;
    let entry = |j: int|
        "\n[段落 "@ + decimal(tail_label(n, j)) + "]\n"@ + "内容: "@ + preview(ps[n - 1 - j].text) + "\n"@;
    let last = entry(k - 1);
    assert(tail_upto(ps, k) =~= e + tail_upto(ps, k - 1) + last);
    if i == k - 1 {
        lemma_shows_self(last);
        lemma_shows_within(last, last, tail_upto(ps, k - 1), e);
        assert(tail_upto(ps, k - 1) + last + e =~= tail_upto(ps, k));
    } else {
        lemma_tail_show(ps, k - 1, i);
        lemma_shows_within(tail_upto(ps, k - 1), entry(i), e, last);
    }
}

/// The summary's opening, up to the list of styles.
pub open spec fn summary_opening(doc: WordDocument) -> Seq<char> {
    let p = doc.properties;
    "=== 论文格式分析 ===\n\n"@ + line_if("标题: "@, p.title, "\n"@) + line_if("作者: "@, p.author, "\n"@)
        + "页数: "@ + debug_option(p.page_count) + "\n"@ + "字数: "@ + debug_option(p.word_count) + "\n\n"@
        + "=== 样式统计 ===\n"@
}

#[verifier::spinoff_prover]
proof fn lemma_summary_split(doc: WordDocument, ms: Seq<MeasureTexts>)
    ensures
        ({
            let n = doc.paragraphs@.len() as int;
            let styles = style_lines_text(doc.styles@);
            let mid = "\n"@ + "=== 段落格式详情 (前20段) ===\n"@;
            let details = details_upto(doc.paragraphs@, ms, min_int(n, 20));
            let later = "\n=== 后5段 ===\n"@;
            let tail = tail_upto(doc.paragraphs@, min_int(n, 5));
            let s = docx_summary(doc, ms);
            &&& s == summary_opening(doc) + styles + (mid + details + later + tail)
            &&& s == (summary_opening(doc) + styles + mid) + details + (later + tail)
            &&& s == (summary_opening(doc) + styles + mid + details + later) + tail + Seq::<char>::empty()
        }),
{
    let n = doc.paragraphs@.len() as int;
    let styles = style_lines_text(doc.styles@);
    let mid = "\n"@ + "=== 段落格式详情 (前20段) ===\n"@;
    let details = details_upto(doc.paragraphs@, ms, min_int(n, 20));
    let later = "\n=== 后5段 ===\n"@;
    let tail = tail_upto(doc.paragraphs@, min_int(n, 5));
    let s = docx_summary(doc, ms);
    assert(s =~= summary_opening(doc) + styles + (mid + details + later + tail));
    assert(s =~= (summary_opening(doc) + styles + mid) + details + (later + tail));
    assert(s =~= (summary_opening(doc) + styles + mid + details + later) + tail + Seq::<char>::empty());
}

#[verifier::spinoff_prover]
proof fn lemma_summary_style(doc: WordDocument, ms: Seq<MeasureTexts>, i: int)
    requires
        0 <= i < doc.styles@.len(),
        doc.styles@[i].name is Some,
    ensures
        shows(docx_summary(doc, ms), "- "@ + doc.styles@[i].name->0@ + "\n"@),
{
    let n = doc.paragraphs@.len() as int;
    lemma_summary_split(doc, ms);
    lemma_style_lines_text_show(doc.styles@, i);
    lemma_shows_within(
        style_lines_text(doc.styles@),
        "- "@ + doc.styles@[i].name->0@ + "\n"@,
        summary_opening(doc),
        "\n"@ + "=== 段落格式详情 (前20段) ===\n"@ + details_upto(doc.paragraphs@, ms, min_int(n, 20))
            + "\n=== 后5段 ===\n"@ + tail_upto(doc.paragraphs@, min_int(n, 5)),
    );
}

#[verifier::spinoff_prover]
proof fn lemma_summary_detail(doc: WordDocument, ms: Seq<MeasureTexts>, i: int)
    requires
        0 <= i < doc.paragraphs@.len(),
        i < 20,
    ensures
        shows(docx_summary(doc, ms), paragraph_detail(i, doc.paragraphs@[i], ms[i])),
{
    let n = doc.paragraphs@.len() as int;
    let ps = doc.paragraphs@;
    lemma_summary_split(doc, ms);
    lemma_details_show(ps, ms, min_int(n, 20), i);
    lemma_shows_within(
        details_upto(ps, ms, min_int(n, 20)),
        paragraph_detail(i, ps[i], ms[i]),
        summary_opening(doc) + style_lines_text(doc.styles@) + ("\n"@ + "=== 段落格式详情 (前20段) ===\n"@),
        "\n=== 后5段 ===\n"@ + tail_upto(ps, min_int(n, 5)),
    );
}

#[verifier::spinoff_prover]
proof fn lemma_detail_parts(s: Seq<char>, i: int, p: WordParagraph, m: MeasureTexts)
    requires
        shows(s, paragraph_detail(i, p, m)),
    ensures
        shows(s, "\n[段落 "@ + decimal((i + 1) as nat) + "]\n"@ + "内容: "@ + preview(p.text) + "\n"@),
        p.style_name is Some ==> shows(
            s,
            "\n[段落 "@ + decimal((i + 1) as nat) + "]\n"@ + "内容: "@ + preview(p.text) + "\n"@ + "样式: "@
                + p.style_name->0@ + "\n"@,
        ),
        p.runs@.len() > 0 && p.runs@[0].is_bold ==> shows(s, "加粗: 是\n"@),
{
    let d = paragraph_detail(i, p, m);
    let head = detail_head(i, p);
    let lay = detail_layout(p, m);
    let fr = first_run_text(p, m);
    let e = Seq::<char>::empty();
    assert(d =~= e + head + (lay + fr));
    lemma_shows_part(s, e, head, lay + fr);
    if p.style_name is Some {
        let sl = "样式: "@ + p.style_name->0@ + "\n"@;
        let restl = line_if("对齐: "@, p.formatting.alignment, "\n"@) + line_if(
            "首行缩进: "@,
            m.indentation_first_line,
            " 字符\n"@,
        ) + line_if("行距: "@, m.line_spacing, " 倍\n"@);
        assert(d =~= e + (head + sl) + (restl + fr));
        lemma_shows_part(s, e, head + sl, restl + fr);
        assert(head + sl =~= "\n[段落 "@ + decimal((i + 1) as nat) + "]\n"@ + "内容: "@ + preview(p.text) + "\n"@
            + "样式: "@ + p.style_name->0@ + "\n"@);
    }
    if p.runs@.len() > 0 && p.runs@[0].is_bold {
        let b = "加粗: 是\n"@;
        let pre = line_if("字体: "@, p.runs@[0].font_name, "\n"@) + line_if("字号: "@, m.font_size, " pt\n"@);
        assert(d =~= (head + lay + pre) + b + e);
        lemma_shows_part(s, head + lay + pre, b, e);
    }
}

proof fn lemma_summary_detail_parts(doc: WordDocument, ms: Seq<MeasureTexts>, i: int)
    requires
        0 <= i < doc.paragraphs@.len(),
        i < 20,
    ensures
        shows(
            docx_summary(doc, ms),
            "\n[段落 "@ + decimal((i + 1) as nat) + "]\n"@ + "内容: "@ + preview(doc.paragraphs@[i].text) + "\n"@,
        ),
        doc.paragraphs@[i].style_name is Some ==> shows(
            docx_summary(doc, ms),
            "\n[段落 "@ + decimal((i + 1) as nat) + "]\n"@ + "内容: "@ + preview(doc.paragraphs@[i].text) + "\n"@
                + "样式: "@ + doc.paragraphs@[i].style_name->0@ + "\n"@,
        ),
        doc.paragraphs@[i].runs@.len() > 0 && doc.paragraphs@[i].runs@[0].is_bold ==> shows(
            docx_summary(doc, ms),
            "加粗: 是\n"@,
        ),
{
    lemma_summary_detail(doc, ms, i);
    lemma_detail_parts(docx_summary(doc, ms), i, doc.paragraphs@[i], ms[i]);
}

#[verifier::spinoff_prover]
proof fn lemma_summary_tail(doc: WordDocument, ms: Seq<MeasureTexts>, j: int)
    requires
        0 <= j < doc.paragraphs@.len(),
        j < 5,
    ensures
        shows(
            docx_summary(doc, ms),
            "\n[段落 "@ + decimal(tail_label(doc.paragraphs@.len() as int, j)) + "]\n"@ + "内容: "@ + preview(
                doc.paragraphs@[doc.paragraphs@.len() - 1 - j].text,
            ) + "\n"@,
        ),
{
    let n = doc.paragraphs@.len() as int;
    let ps = doc.paragraphs@;
    lemma_summary_split(doc, ms);
    lemma_tail_show(ps, min_int(n, 5), j);
    lemma_shows_within(
        tail_upto(ps, min_int(n, 5)),
        "\n[段落 "@ + decimal(tail_label(n, j)) + "]\n"@ + "内容: "@ + preview(ps[n - 1 - j].text) + "\n"@,
        summary_opening(doc) + style_lines_text(doc.styles@) + ("\n"@ + "=== 段落格式详情 (前20段) ===\n"@)
            + details_upto(ps, ms, min_int(n, 20)) + "\n=== 后5段 ===\n"@,
        Seq::<char>::empty(),
    );
}

/// The summary names every named style of the document; for each of the
/// first 20 paragraphs it gives its number (from 1) and the first 100 bytes
/// of its text, followed by its style where it has one, and notes a bold
/// first run; and for each of the last 5 paragraphs, the last first, it gives
/// the number computed for it and the first 100 bytes of its text.
pub proof fn lemma_summary_shows(doc: WordDocument, ms: Seq<MeasureTexts>)
    ensures
        forall|i: int| 0 <= i < doc.styles@.len() && (#[trigger] doc.styles@[i]).name is Some ==> shows(
            docx_summary(doc, ms),
            "- "@ + doc.styles@[i].name->0@ + "\n"@,
        ),
        forall|i: int| 0 <= i < doc.paragraphs@.len() && i < 20 ==> shows(
            docx_summary(doc, ms),
            "\n[段落 "@ + decimal((i + 1) as nat) + "]\n"@ + "内容: "@ + preview((#[trigger] doc.paragraphs@[i]).text)
                + "\n"@,
        ),
        forall|i: int| 0 <= i < doc.paragraphs@.len() && i < 20 && (#[trigger] doc.paragraphs@[i]).style_name is Some
            ==> shows(
            docx_summary(doc, ms),
            "\n[段落 "@ + decimal((i + 1) as nat) + "]\n"@ + "内容: "@ + preview(doc.paragraphs@[i].text) + "\n"@
                + "样式: "@ + doc.paragraphs@[i].style_name->0@ + "\n"@,
        ),
        forall|i: int| 0 <= i < doc.paragraphs@.len() && i < 20 && (#[trigger] doc.paragraphs@[i]).runs@.len() > 0
            && doc.paragraphs@[i].runs@[0].is_bold ==> shows(docx_summary(doc, ms), "加粗: 是\n"@),
        forall|j: int| 0 <= j < doc.paragraphs@.len() && j < 5 ==> shows(
            docx_summary(doc, ms),
            "\n[段落 "@ + decimal(tail_label(doc.paragraphs@.len() as int, j)) + "]\n"@ + "内容: "@ + preview(
                (#[trigger] doc.paragraphs@[doc.paragraphs@.len() - 1 - j]).text,
            ) + "\n"@,
        ),
{
    assert forall|i: int| 0 <= i < doc.styles@.len() && (#[trigger] doc.styles@[i]).name is Some implies shows(
        docx_summary(doc, ms),
        "- "@ + doc.styles@[i].name->0@ + "\n"@,
    ) by {
        lemma_summary_style(doc, ms, i);
    }
    assert forall|i: int| 0 <= i < doc.paragraphs@.len() && i < 20 implies {
        &&& shows(
            docx_summary(doc, ms),
            "\n[段落 "@ + decimal((i + 1) as nat) + "]\n"@ + "内容: "@ + preview((#[trigger] doc.paragraphs@[i]).text)
                + "\n"@,
        )
        &&& doc.paragraphs@[i].style_name is Some ==> shows(
            docx_summary(doc, ms),
            "\n[段落 "@ + decimal((i + 1) as nat) + "]\n"@ + "内容: "@ + preview(doc.paragraphs@[i].text) + "\n"@
                + "样式: "@ + doc.paragraphs@[i].style_name->0@ + "\n"@,
        )
        &&& doc.paragraphs@[i].runs@.len() > 0 && doc.paragraphs@[i].runs@[0].is_bold ==> shows(
            docx_summary(doc, ms),
            "加粗: 是\n"@,
        )
    } by {
        lemma_summary_detail_parts(doc, ms, i);
    }
    assert forall|j: int| 0 <= j < doc.paragraphs@.len() && j < 5 implies shows(
        docx_summary(doc, ms),
        "\n[段落 "@ + decimal(tail_label(doc.paragraphs@.len() as int, j)) + "]\n"@ + "内容: "@ + preview(
            (#[trigger] doc.paragraphs@[doc.paragraphs@.len() - 1 - j]).text,
        ) + "\n"@,
    ) by {
        lemma_summary_tail(doc, ms, j);
    }
}

/// The document can be summarised: the measures cover its paragraphs, and
/// the texts shown can be cut after 100 bytes.
pub open spec fn summary_ok(doc: WordDocument, ms: Seq<MeasureTexts>) -> bool {
    let n = doc.paragraphs@.len() as int;
    &&& ms.len() == n
    &&& forall|i: int| 0 <= i < min_int(n, 20) ==> preview_ok(#[trigger] doc.paragraphs@[i].text)
    &&& forall|i: int| 0 <= i && n - 5 <= i < n ==> preview_ok(#[trigger] doc.paragraphs@[i].text)
}

fn preview_cuttable(t: &String) -> (r: bool)
    ensures
        r == preview_ok(*t),
{
    let len = t.as_str().as_bytes().len();
    let n = if len < 100 {
        len
    } else {
        100
    };
    t.as_str().is_char_boundary(n)
}

/// Whether the document can be summarised with these measures (see
/// `summary_ok`).
pub fn summary_ready(doc: &WordDocument, measures: &Vec<MeasureTexts>) -> (r: bool)
    ensures
        r == summary_ok(*doc, measures@),
{
    let n = doc.paragraphs.len();
    if measures.len() != n {
        return false;
    }
    let head = if n < 20 {
        n
    } else {
        20
    };
    let mut i: usize = 0;
    while i < head
        invariant
            i <= head,
            head as int == min_int(n as int, 20),
            n == doc.paragraphs@.len(),
            forall|j: int| 0 <= j < i ==> preview_ok(#[trigger] doc.paragraphs@[j].text),
        decreases head - i,
    {
        if !preview_cuttable(&doc.paragraphs[i].text) {
            return false;
        }
        i = i + 1;
    }
    let mut k: usize = if n >= 5 {
        n - 5
    } else {
        0
    };
    let start = k;
    while k < n
        invariant
            start <= k <= n,
            n == doc.paragraphs@.len(),
            n >= 5 ==> start == n - 5,
            n < 5 ==> start == 0,
            measures@.len() == n,
            head as int == min_int(n as int, 20),
            forall|j: int| 0 <= j < head ==> preview_ok(#[trigger] doc.paragraphs@[j].text),
            forall|j: int| start <= j < k ==> preview_ok(#[trigger] doc.paragraphs@[j].text),
        decreases n - k,
    {
        if !preview_cuttable(&doc.paragraphs[k].text) {
            return false;
        }
        k = k + 1;
    }
    true
}

fn push_opt_line(out: &mut String, prefix: &str, s: &Option<String>, suffix: &str)
    ensures
        final(out)@ == old(out)@ + line_if(prefix@, *s, suffix@),
{
    match s {
        Some(x) => {
            out.append(prefix);
            out.append(x.as_str());
            out.append(suffix);
            assert(final(out)@ =~= old(out)@ + line_if(prefix@, *s, suffix@));
        },
        None => {
            assert(final(out)@ =~= old(out)@ + line_if(prefix@, *s, suffix@));
        },
    }
}

fn push_preview(out: &mut String, t: &String)
    requires
        preview_ok(*t),
    ensures
        final(out)@ == old(out)@ + preview(*t),
{
    let len = t.as_str().as_bytes().len();
    let n = if len < 100 {
        len
    } else {
        100
    };
    let p = slice_to(t.as_str(), n);
    proof {
        broadcast use vstd::utf8::encode_utf8_decode_utf8;
        assert(chars(bytes(p)) == p@);
    }
    out.append(p);
}

fn push_head(out: &mut String, i: usize, p: &WordParagraph)
    requires
        i < 20,
        preview_ok(p.text),
    ensures
        final(out)@ == old(out)@ + detail_head(i as int, *p),
{
    out.append("\n[段落 ");
    push_decimal(out, i + 1);
    out.append("]\n");
    out.append("内容: ");
    push_preview(out, &p.text);
    out.append("\n");
    assert(final(out)@ =~= old(out)@ + detail_head(i as int, *p));
}

fn push_layout(out: &mut String, p: &WordParagraph, m: &MeasureTexts)
    ensures
        final(out)@ == old(out)@ + detail_layout(*p, *m),
{
    push_opt_line(out, "样式: ", &p.style_name, "\n");
    push_opt_line(out, "对齐: ", &p.formatting.alignment, "\n");
    push_opt_line(out, "首行缩进: ", &m.indentation_first_line, " 字符\n");
    push_opt_line(out, "行距: ", &m.line_spacing, " 倍\n");
    assert(final(out)@ =~= old(out)@ + detail_layout(*p, *m));
}

fn push_first_run(out: &mut String, p: &WordParagraph, m: &MeasureTexts)
    ensures
        final(out)@ == old(out)@ + first_run_text(*p, *m),
{
    if p.runs.len() > 0 {
        let r = &p.runs[0];
        push_opt_line(out, "字体: ", &r.font_name, "\n");
        push_opt_line(out, "字号: ", &m.font_size, " pt\n");
        if r.is_bold {
            out.append("加粗: 是\n");
        }
        assert(final(out)@ =~= old(out)@ + first_run_text(*p, *m));
    } else {
        assert(final(out)@ =~= old(out)@ + first_run_text(*p, *m));
    }
}

fn push_detail(out: &mut String, i: usize, p: &WordParagraph, m: &MeasureTexts)
    requires
        i < 20,
        preview_ok(p.text),
    ensures
        final(out)@ == old(out)@ + paragraph_detail(i as int, *p, *m),
{
    push_head(out, i, p);
    push_layout(out, p, m);
    push_first_run(out, p, m);
    assert(final(out)@ =~= old(out)@ + paragraph_detail(i as int, *p, *m));
}

/// A summary of the document's formatting for the model: its properties, the
/// names of its styles, details of the first 20 paragraphs and the texts of
/// the last 5. `measures[i]` gives how paragraph `i`'s measures print.
pub fn extract_for_llm(doc: &WordDocument, measures: &Vec<MeasureTexts>) -> (r: String)
    requires
        summary_ok(*doc, measures@),
    ensures
        r@ == docx_summary(*doc, measures@),
{
    let mut out = String::new();
    out.append("=== 论文格式分析 ===\n\n");
    push_opt_line(&mut out, "标题: ", &doc.properties.title, "\n");
    push_opt_line(&mut out, "作者: ", &doc.properties.author, "\n");
    out.append("页数: ");
    push_debug_option(&mut out, doc.properties.page_count);
    out.append("\n");
    out.append("字数: ");
    push_debug_option(&mut out, doc.properties.word_count);
    out.append("\n\n");
    out.append("=== 样式统计 ===\n");
    let ghost head = out@;
    let mut k: usize = 0;
    while k < doc.styles.len()
        invariant
            k <= doc.styles@.len(),
            out@ == head + style_lines_text(doc.styles@.take(k as int)),
        decreases doc.styles@.len() - k,
    {
        proof {
            assert(doc.styles@.take(k + 1).drop_last() =~= doc.styles@.take(k as int));
        }
        push_opt_line(&mut out, "- ", &doc.styles[k].name, "\n");
        proof {
            assert(out@ =~= head + style_lines_text(doc.styles@.take(k + 1)));
        }
        k = k + 1;
    }
    proof {
        assert(doc.styles@.take(doc.styles@.len() as int) =~= doc.styles@);
    }
    out.append("\n");
    out.append("=== 段落格式详情 (前20段) ===\n");
    let n = doc.paragraphs.len();
    let shown = if n < 20 {
        n
    } else {
        20
    };
    let ghost mid = out@;
    let mut i: usize = 0;
    while i < shown
        invariant
            i <= shown,
            shown == min_int(n as int, 20),
            n == doc.paragraphs@.len(),
            summary_ok(*doc, measures@),
            out@ == mid + details_upto(doc.paragraphs@, measures@, i as int),
        decreases shown - i,
    {
        push_detail(&mut out, i, &doc.paragraphs[i], &measures[i]);
        proof {
            assert(out@ =~= mid + details_upto(doc.paragraphs@, measures@, i + 1));
        }
        i = i + 1;
    }
    out.append("\n=== 后5段 ===\n");
    let last = if n < 5 {
        n
    } else {
        5
    };
    let ghost tail_start = out@;
    let mut j: usize = 0;
    while j < last
        invariant
            j <= last,
            last == min_int(n as int, 5),
            n == doc.paragraphs@.len(),
            summary_ok(*doc, measures@),
            out@ == tail_start + tail_upto(doc.paragraphs@, j as int),
        decreases last - j,
    {
        let ghost before = out@;
        let label = tail_number(n, j);
        let p = &doc.paragraphs[n - 1 - j];
        out.append("\n[段落 ");
        push_decimal(&mut out, label);
        out.append("]\n");
        out.append("内容: ");
        push_preview(&mut out, &p.text);
        out.append("\n");
        proof {
            assert(out@ =~= tail_start + tail_upto(doc.paragraphs@, j + 1));
        }
        j = j + 1;
    }
    out
}


// ---------------------------------------------------------------------------
// What every parse keeps
// ---------------------------------------------------------------------------

/// Every style read from a styles part has a non-empty id, and no two styles
/// share an id: a later declaration of an id replaces the earlier one.
pub proof fn lemma_styles_distinct(lines: Seq<Seq<u8>>)
    ensures
        forall|i: int| 0 <= i < styles_from(lines).len() ==> (#[trigger] styles_from(lines)[i]).id.len() > 0,
        forall|i: int, j: int|
            0 <= i < j < styles_from(lines).len() ==> (#[trigger] styles_from(lines)[i]).id
                != (#[trigger] styles_from(lines)[j]).id,
    decreases lines.len(),
{
    if lines.len() > 0 {
        lemma_styles_distinct(lines.drop_last());
        let acc = styles_from(lines.drop_last());
        match style_of_line(lines.last()) {
            Some(st) => {
                lemma_style_index_from(acc, st.id, 0);
                match style_index(acc, st.id) {
                    Some(k) => {
                        let r = acc.update(k, st);
                        assert(r == styles_from(lines));
                        assert forall|i: int, j: int| 0 <= i < j < r.len() implies #[trigger] r[i].id != #[trigger] r[j].id by {
                            if i != k && j != k {
                                assert(acc[i].id != acc[j].id);
                            }
                        }
                    },
                    None => {
                        let r = acc.push(st);
                        assert(r == styles_from(lines));
                        assert forall|i: int, j: int| 0 <= i < j < r.len() implies #[trigger] r[i].id != #[trigger] r[j].id by {
                            if j < acc.len() {
                                assert(acc[i].id != acc[j].id);
                            }
                        }
                    },
                }
            },
            None => {},
        }
    }
}

/// The paragraphs read from the pieces of a document are numbered 0, 1, 2,
/// ... in order; each one's text is its runs' texts put together, and none
/// is blank.
pub proof fn lemma_paragraphs_numbered(blocks: Seq<Seq<u8>>, styles: Seq<StyleModel>)
    ensures
        paragraphs_from(blocks, styles).len() <= blocks.len(),
        forall|k: int|
            0 <= k < paragraphs_from(blocks, styles).len() ==> {
                let p = #[trigger] paragraphs_from(blocks, styles)[k];
                &&& p.index == k as usize
                &&& p.text == runs_text(p.runs)
                &&& !all_ws(chars(p.text))
            },
    decreases blocks.len(),
{
    if blocks.len() > 0 {
        lemma_paragraphs_numbered(blocks.drop_last(), styles);
    }
}

/// The paragraphs of a document part, as `parse_document_xml` gives them,
/// are numbered 0, 1, 2, ... in order; each one's text is its runs' texts
/// put together, and none is blank.
pub proof fn lemma_document_paragraphs_numbered(xml: Seq<u8>, styles: Seq<StyleModel>)
    ensures
        forall|k: int|
            0 <= k < document_paragraphs(xml, styles).len() ==> {
                let p = #[trigger] document_paragraphs(xml, styles)[k];
                &&& p.index == k as usize
                &&& p.text == runs_text(p.runs)
                &&& !all_ws(chars(p.text))
            },
{
    lemma_paragraphs_numbered(para_blocks(xml), styles);
}


/// A paragraph with another position.
pub open spec fn with_index(p: ParagraphModel, i: int) -> ParagraphModel {
    ParagraphModel {
        index: i as usize,
        text: p.text,
        style_id: p.style_id,
        style_name: p.style_name,
        runs: p.runs,
        formatting: p.formatting,
    }
}

/// The paragraphs numbered on from `n`.
pub open spec fn renumbered(ps: Seq<ParagraphModel>, n: int) -> Seq<ParagraphModel> {
    Seq::new(ps.len(), |k: int| with_index(ps[k], n + k))
}

proof fn lemma_split_empty(sep: Seq<u8>)
    requires
        sep.len() > 0,
    ensures
        split(Seq::<u8>::empty(), sep) == seq![Seq::<u8>::empty()],
{
    assert(find(Seq::<u8>::empty(), sep) is None);
}

proof fn lemma_empty_run_text()
    ensures
        run_text(Seq::<u8>::empty()) == Seq::<u8>::empty(),
{
    lemma_docx_patterns();
    let e = Seq::<u8>::empty();
    lemma_split_empty(bytes("</w:t>"));
    assert(find(e, bytes("<w:t")) is None);
    assert(text_piece(e) == e);
    assert(split(e, bytes("</w:t>")).map_values(|t: Seq<u8>| text_piece(t)) =~= seq![e]);
    let one: Seq<Seq<u8>> = seq![e];
    assert(one.drop_last() =~= Seq::<Seq<u8>>::empty());
    assert(concat_all(Seq::<Seq<u8>>::empty()) == e);
    assert(concat_all(one) == concat_all(one.drop_last()) + one.last());
    assert(concat_all(one) =~= e);
}

proof fn lemma_empty_runs()
    ensures
        runs_from(run_blocks(Seq::<u8>::empty())) == Seq::<RunModel>::empty(),
{
    lemma_docx_patterns();
    let e = Seq::<u8>::empty();
    lemma_split_empty(bytes("</w:r>"));
    lemma_empty_run_text();
    assert(run_of(e) is None);
    let one: Seq<Seq<u8>> = seq![e];
    assert(run_blocks(e) == one);
    assert(one.drop_last() =~= Seq::<Seq<u8>>::empty());
    assert(one.last() == e);
    assert(runs_from(Seq::<Seq<u8>>::empty()) == Seq::<RunModel>::empty());
    assert(runs_from(one) == runs_from(one.drop_last()));
}

/// An empty piece holds no paragraph.
proof fn lemma_empty_block(styles: Seq<StyleModel>, n: int)
    ensures
        para_of(Seq::empty(), styles, n) is None,
{
    let e = Seq::<u8>::empty();
    lemma_empty_runs();
    assert(Seq::<RunModel>::empty().map_values(|r: RunModel| r.text) =~= Seq::<Seq<u8>>::empty());
    assert(runs_text(Seq::<RunModel>::empty()) == e);
    assert(chars(e) =~= Seq::<char>::empty());
    assert(para_blank(e));
}

/// The paragraph a piece holds at position `m` is the one it holds at `k`,
/// renumbered.
proof fn lemma_para_of_index(x: Seq<u8>, styles: Seq<StyleModel>, k: int, m: int)
    ensures
        para_of(x, styles, m) == match para_of(x, styles, k) {
            Some(p) => Some(with_index(p, m)),
            None => None,
        },
{
}

/// Reading pieces one after the other: the paragraphs of the first pieces,
/// then those of the others numbered on.
proof fn lemma_paragraphs_concat(b1: Seq<Seq<u8>>, b2: Seq<Seq<u8>>, styles: Seq<StyleModel>)
    ensures
        paragraphs_from(b1 + b2, styles) == paragraphs_from(b1, styles) + renumbered(
            paragraphs_from(b2, styles),
            paragraphs_from(b1, styles).len() as int,
        ),
    decreases b2.len(),
{
    let p1 = paragraphs_from(b1, styles);
    let n1 = p1.len() as int;
    if b2.len() == 0 {
        assert(b1 + b2 =~= b1);
        assert(renumbered(paragraphs_from(b2, styles), n1) =~= Seq::<ParagraphModel>::empty());
        assert(p1 + Seq::<ParagraphModel>::empty() =~= p1);
    } else {
        let b2p = b2.drop_last();
        lemma_paragraphs_concat(b1, b2p, styles);
        assert((b1 + b2).drop_last() =~= b1 + b2p);
        assert((b1 + b2).last() == b2.last());
        let p2p = paragraphs_from(b2p, styles);
        let k = p2p.len() as int;
        lemma_para_of_index(b2.last(), styles, k, n1 + k);
        let acc = paragraphs_from(b1 + b2p, styles);
        assert(acc.len() == n1 + k);
        match para_of(b2.last(), styles, k) {
            Some(p) => {
                assert(renumbered(p2p.push(p), n1) =~= renumbered(p2p, n1).push(with_index(p, n1 + k)));
                assert(acc.push(with_index(p, n1 + k)) =~= p1 + renumbered(p2p.push(p), n1));
            },
            None => {},
        }
    }
}

/// Reading a document part that ends a paragraph, followed by more, gives
/// the paragraphs of the first part, then those of the rest numbered on:
/// nothing carries over from one paragraph's piece to the next.
pub proof fn lemma_document_concat(x1: Seq<u8>, x2: Seq<u8>, styles: Seq<StyleModel>)
    requires
        ends_with(x1, bytes("</w:p>")),
    ensures
        document_paragraphs(x1 + x2, styles) == document_paragraphs(x1, styles) + renumbered(
            document_paragraphs(x2, styles),
            document_paragraphs(x1, styles).len() as int,
        ),
{
    broadcast use vstd::string::is_ascii_spec_bytes;
    reveal_strlit("</w:p>");
    let sep = bytes("</w:p>");
    assert(is_ascii("</w:p>"));
    assert(sep.len() == 6);
    assert(sep[0] == 60u8 && sep[1] == 47u8 && sep[2] == 119u8 && sep[3] == 58u8 && sep[4] == 112u8
        && sep[5] == 62u8);
    assert forall|d: int| 0 < d < sep.len() implies #[trigger] sep[d] != sep[0] by {}
    lemma_split_concat(x1, x2, sep);
    let s1 = split(x1, sep);
    let s2 = split(x2, sep);
    assert(s1 =~= s1.drop_last().push(Seq::<u8>::empty()));
    lemma_empty_block(styles, paragraphs_from(s1.drop_last(), styles).len() as int);
    assert(paragraphs_from(s1, styles) == paragraphs_from(s1.drop_last(), styles));
    lemma_paragraphs_concat(s1.drop_last(), s2, styles);
}

} // verus!
