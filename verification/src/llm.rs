//! Format checking and guideline parsing with a language model: the
//! requests' prompts and endpoints, and the JSON found in a model's reply.
//!
//! Quantities that are only shown to the model or to the user are held as
//! the text they are shown as.
use vstd::prelude::*;
use vstd::string::*;
use vstd::utf8::*;
use crate::text::{
    bytes, find, rest, contains, find_str, contains_str, find_byte_str, rfind_byte, rfind_byte_str,
    slice, slice_from, slice_to, trim, trim_str, push_join, lemma_find_from, lemma_match_boundaries,
    lemma_ascii_boundary, ascii_pattern, lemma_ascii_str, decimal, push_decimal, join, str_eq,
    lemma_rfind_byte_before, shows, is_ws, lemma_trim_keeps, lemma_shows_self, lemma_shows_within,
};
use crate::docx_parser::{chars, line_if};

verus! {

broadcast use vstd::utf8::encode_utf8_valid_utf8;

// ---------------------------------------------------------------------------
// Requests and replies
// ---------------------------------------------------------------------------

/// A style as described to the model: its size as printed in points and its
/// line spacing as printed with one decimal.
#[derive(Clone, Debug)]
pub struct StyleInfo {
    pub name: String,
    pub font_name: Option<String>,
    pub font_size: Option<String>,
    pub is_bold: bool,
    pub alignment: Option<String>,
    pub line_spacing: Option<String>,
}

/// What is known of a document's format; the average line spacing is the
/// text it prints as, with one decimal.
#[derive(Clone, Debug)]
pub struct DocumentAnalysisMetadata {
    pub file_type: String,
    pub page_count: usize,
    pub word_count: usize,
    pub styles_used: Vec<StyleInfo>,
    pub paragraph_count: usize,
    pub has_toc: bool,
    pub has_bibliography: bool,
    pub fonts_detected: Vec<String>,
    pub average_line_spacing: Option<String>,
}

impl Default for DocumentAnalysisMetadata {
    fn default() -> (r: Self)
        ensures
            r.file_type@ == Seq::<char>::empty(),
            r.page_count == 0,
            r.word_count == 0,
            r.styles_used@.len() == 0,
            r.paragraph_count == 0,
            !r.has_toc,
            !r.has_bibliography,
            r.fonts_detected@.len() == 0,
            r.average_line_spacing is None,
    {
        DocumentAnalysisMetadata {
            file_type: String::new(),
            page_count: 0,
            word_count: 0,
            styles_used: Vec::new(),
            paragraph_count: 0,
            has_toc: false,
            has_bibliography: false,
            fonts_detected: Vec::new(),
            average_line_spacing: None,
        }
    }
}

/// A request to check a paper's format against requirements.
#[derive(Clone, Debug)]
pub struct FormatCheckRequest {
    pub format_requirements: String,
    pub document_content: String,
    pub document_metadata: DocumentAnalysisMetadata,
}

/// Where an issue is.
#[derive(Clone, Debug)]
pub struct IssueLocation {
    pub page: Option<usize>,
    pub paragraph: Option<usize>,
    pub section: Option<String>,
}

/// A format issue that the model reports.
#[derive(Clone, Debug)]
pub struct FormatIssue {
    pub issue_type: String,
    pub description: String,
    pub location: IssueLocation,
    /// `critical`, `major` or `minor`.
    pub severity: String,
    pub suggestion: String,
}

/// The counts of a check.
#[derive(Clone, Debug)]
pub struct CheckSummary {
    pub total_issues: usize,
    pub critical: usize,
    pub major: usize,
    pub minor: usize,
    pub overall_assessment: String,
}

/// The model's answer to a format check.
#[derive(Clone, Debug)]
pub struct FormatCheckResponse {
    pub issues: Vec<FormatIssue>,
    pub summary: CheckSummary,
}

/// Which model to ask, and how.
#[derive(Clone, Debug)]
pub struct LlmConfig {
    /// `minimax` or `openai`.
    pub provider: String,
    pub api_key: String,
    pub model: String,
    pub base_url: String,
}

impl Default for LlmConfig {
    fn default() -> (r: Self)
        ensures
            r.provider@ == "minimax"@,
            r.api_key@ == Seq::<char>::empty(),
            r.model@ == "MiniMax-Text-01"@,
            r.base_url@ == "https://api.minimax.chat/v1"@,
            check_endpoint(r) == Ok::<Seq<char>, Seq<char>>(
                "https://api.minimax.chat/v1"@ + "/text/chatcompletion_v2"@,
            ),
            guideline_endpoint_of(r) == Ok::<Seq<char>, Seq<char>>(
                "https://api.minimax.chat/v1"@ + "/text/chatcompletion_v2"@,
            ),
    {
        LlmConfig {
            provider: "minimax".to_owned(),
            api_key: String::new(),
            model: "MiniMax-Text-01".to_owned(),
            base_url: "https://api.minimax.chat/v1".to_owned(),
        }
    }
}

impl LlmConfig {
    /// Sets provider, key and model; the base URL follows a known provider
    /// (OpenAI's or MiniMax's) and stays as it was for any other.
    pub fn configure(&mut self, provider: String, api_key: String, model: String)
        ensures
            final(self).provider@ == provider@,
            final(self).api_key@ == api_key@,
            final(self).model@ == model@,
            final(self).base_url@ == (if provider@ == "openai"@ {
                "https://api.openai.com/v1"@
            } else if provider@ == "minimax"@ {
                "https://api.minimax.chat/v1"@
            } else {
                old(self).base_url@
            }),
            provider@ == "openai"@ ==> check_endpoint(*final(self)) == Ok::<Seq<char>, Seq<char>>(
                "https://api.openai.com/v1"@ + "/chat/completions"@,
            ),
            provider@ == "minimax"@ ==> check_endpoint(*final(self)) == Ok::<Seq<char>, Seq<char>>(
                "https://api.minimax.chat/v1"@ + "/text/chatcompletion_v2"@,
            ),
            provider@ == "openai"@ ==> guideline_endpoint_of(*final(self)) == Ok::<
                Seq<char>,
                Seq<char>,
            >("https://api.openai.com/v1"@ + "/chat/completions"@),
            provider@ == "minimax"@ ==> guideline_endpoint_of(*final(self)) == Ok::<
                Seq<char>,
                Seq<char>,
            >("https://api.minimax.chat/v1"@ + "/text/chatcompletion_v2"@),
    {
        proof {
            reveal_strlit("openai");
            reveal_strlit("minimax");
            assert("openai"@[0] != "minimax"@[0]);
        }
        if str_eq(provider.as_str(), "openai") {
            self.base_url = "https://api.openai.com/v1".to_owned();
        } else if str_eq(provider.as_str(), "minimax") {
            self.base_url = "https://api.minimax.chat/v1".to_owned();
        }
        self.provider = provider;
        self.api_key = api_key;
        self.model = model;
    }
}

/// The URL a format check is posted to: MiniMax's chat completion under the
/// base URL, or OpenAI's; any other provider is refused.
pub open spec fn check_endpoint(config: LlmConfig) -> Result<Seq<char>, Seq<char>> {
    if config.provider@ == "minimax"@ {
        Ok(config.base_url@ + "/text/chatcompletion_v2"@)
    } else if config.provider@ == "openai"@ {
        Ok(config.base_url@ + "/chat/completions"@)
    } else {
        Err("Unknown provider: "@ + config.provider@)
    }
}

/// The result's text, whichever side it is on.
pub open spec fn result_chars(r: Result<String, String>) -> Result<Seq<char>, Seq<char>> {
    match r {
        Ok(s) => Ok(s@),
        Err(e) => Err(e@),
    }
}

fn concat2(a: &str, b: &str) -> (r: String)
    ensures
        r@ == a@ + b@,
{
    let mut s = a.to_owned();
    s.append(b);
    s
}

/// The URL a format check is posted to, or the error for an unknown provider.
pub fn format_check_endpoint(config: &LlmConfig) -> (r: Result<String, String>)
    ensures
        result_chars(r) == check_endpoint(*config),
{
    if str_eq(config.provider.as_str(), "minimax") {
        Ok(concat2(config.base_url.as_str(), "/text/chatcompletion_v2"))
    } else if str_eq(config.provider.as_str(), "openai") {
        Ok(concat2(config.base_url.as_str(), "/chat/completions"))
    } else {
        Err(concat2("Unknown provider: ", config.provider.as_str()))
    }
}

/// The URL a guideline is posted to: each provider's chat completion under
/// the base URL, as for a format check; any other provider is refused.
pub open spec fn guideline_endpoint_of(config: LlmConfig) -> Result<Seq<char>, Seq<char>> {
    if config.provider@ == "minimax"@ {
        Ok(config.base_url@ + "/text/chatcompletion_v2"@)
    } else if config.provider@ == "openai"@ {
        Ok(config.base_url@ + "/chat/completions"@)
    } else {
        Err("Unknown provider: "@ + config.provider@)
    }
}

/// The URL a guideline is posted to, or the error for an unknown provider.
pub fn guideline_endpoint(config: &LlmConfig) -> (r: Result<String, String>)
    ensures
        result_chars(r) == guideline_endpoint_of(*config),
{
    if str_eq(config.provider.as_str(), "minimax") {
        Ok(concat2(config.base_url.as_str(), "/text/chatcompletion_v2"))
    } else if str_eq(config.provider.as_str(), "openai") {
        Ok(concat2(config.base_url.as_str(), "/chat/completions"))
    } else {
        Err(concat2("Unknown provider: ", config.provider.as_str()))
    }
}

/// The `Authorization` header of a request: the key as a bearer token.
pub fn authorization(config: &LlmConfig) -> (r: String)
    ensures
        r@ == "Bearer "@ + config.api_key@,
{
    concat2("Bearer ", config.api_key.as_str())
}

// ---------------------------------------------------------------------------
// The JSON in a reply
// ---------------------------------------------------------------------------

/// The text of `b` without leading and trailing whitespace, as bytes.
pub open spec fn trim_bytes(b: Seq<u8>) -> Seq<u8> {
    encode_utf8(trim(decode_utf8(b)))
}

/// What follows the first `"```json"`, up to the next `"```"`.
pub open spec fn json_fenced(b: Seq<u8>) -> Seq<u8> {
    match find(b, bytes("```json")) {
        Some(i) => {
            let a = rest(b, i + 7);
            match find(a, bytes("```")) {
                Some(j) => a.subrange(0, j),
                None => a,
            }
        },
        None => b,
    }
}

/// What lies between the first `"```"` and the next one (or the end).
pub open spec fn fenced(b: Seq<u8>) -> Seq<u8> {
    match find(b, bytes("```")) {
        Some(i) => {
            let a = rest(b, i + 3);
            match find(a, bytes("```")) {
                Some(j) => a.subrange(0, j),
                None => a,
            }
        },
        None => b,
    }
}

/// From the first `{` to the last `}`, when both occur; else all of `b`.
pub open spec fn braced(b: Seq<u8>) -> Seq<u8> {
    match find(b, seq![123u8]) {
        Some(st) => match rfind_byte(b, 125u8) {
            Some(e) => b.subrange(st, e + 1),
            None => b,
        },
        None => b,
    }
}

/// The last `}` does not come before the first `{` with text between them
/// (else cutting from one to the other is impossible).
pub open spec fn braced_ok(b: Seq<u8>) -> bool {
    match (find(b, seq![123u8]), rfind_byte(b, 125u8)) {
        (Some(st), Some(e)) => st <= e + 1,
        _ => true,
    }
}

/// The candidate JSON of a format-check reply, before braces are looked for:
/// a fenced `json` block, else a fenced block, else the whole reply, trimmed.
pub open spec fn reply_candidate(c: Seq<u8>) -> Seq<u8> {
    if contains(c, bytes("```json")) {
        trim_bytes(json_fenced(c))
    } else if contains(c, bytes("```")) {
        trim_bytes(fenced(c))
    } else {
        trim_bytes(c)
    }
}

/// The JSON of a format-check reply: the candidate, cut from its first `{`
/// to its last `}`.
pub open spec fn reply_json(c: Seq<u8>) -> Seq<u8> {
    braced(reply_candidate(c))
}

/// The reply's JSON can be cut out.
pub open spec fn reply_json_ok(c: Seq<u8>) -> bool {
    braced_ok(reply_candidate(c))
}

/// The JSON of a guideline reply: in the trimmed reply, a fenced `json`
/// block, else a fenced block (each trimmed), else from the first `{` to the
/// last `}`.
pub open spec fn guideline_json(c: Seq<u8>) -> Seq<u8> {
    let t = trim_bytes(c);
    if contains(t, bytes("```json")) {
        trim_bytes(json_fenced(t))
    } else if contains(t, bytes("```")) {
        trim_bytes(fenced(t))
    } else {
        braced(t)
    }
}

/// The guideline reply's JSON can be cut out.
pub open spec fn guideline_json_ok(c: Seq<u8>) -> bool {
    let t = trim_bytes(c);
    contains(t, bytes("```json")) || contains(t, bytes("```")) || braced_ok(t)
}

proof fn lemma_fences()
    ensures
        ascii_pattern(bytes("```json")),
        bytes("```json").len() == 7,
        ascii_pattern(bytes("```")),
        bytes("```").len() == 3,
{
    reveal_strlit("```json");
    reveal_strlit("```");
    lemma_ascii_str("```json");
    lemma_ascii_str("```");
}

/// Text without a plain fence has no `json` fence either.
proof fn lemma_no_json_fence(b: Seq<u8>)
    requires
        !contains(b, bytes("```")),
    ensures
        !contains(b, bytes("```json")),
{
    broadcast use vstd::string::is_ascii_spec_bytes;
    reveal_strlit("```json");
    reveal_strlit("```");
    lemma_fences();
    assert(is_ascii("```json"));
    assert(is_ascii("```"));
    let j = bytes("```json");
    let f = bytes("```");
    assert(j.len() == 7 && f.len() == 3);
    assert(j[0] == 96u8 && j[1] == 96u8 && j[2] == 96u8);
    assert(f[0] == 96u8 && f[1] == 96u8 && f[2] == 96u8);
    lemma_find_from(b, j, 0);
    lemma_find_from(b, f, 0);
    if contains(b, j) {
        let k = find(b, j)->0;
        assert(b.subrange(k, k + 3) =~= f) by {
            assert forall|i: int| 0 <= i < 3 implies b.subrange(k, k + 3)[i] == f[i] by {
                assert(b.subrange(k, k + 7)[i] == j[i]);
            }
        }
        assert(crate::text::occurs_at(b, f, k));
    }
}

/// A text that starts with `{` and ends with `}` is its own braced part.
proof fn lemma_braced_whole(t: Seq<u8>)
    requires
        t.len() > 0,
        t[0] == 123u8,
        t.last() == 125u8,
    ensures
        braced_ok(t),
        braced(t) == t,
{
    assert(t.subrange(0, 1) =~= seq![123u8]);
    assert(crate::text::find_from(t, seq![123u8], 0) == Some(0int));
    assert(rfind_byte(t, 125u8) == Some(t.len() - 1));
    assert(t.subrange(0, t.len() as int) =~= t);
}

/// The braced part of a text runs from its first `{` to its last `}`; a
/// text without a `{`, or without a `}`, is taken whole.
#[verifier::spinoff_prover]
pub proof fn lemma_braced_first_to_last(b: Seq<u8>, st: int, e: int)
    ensures
        (forall|j: int| 0 <= j < b.len() ==> b[j] != 123u8) ==> braced(b) == b,
        (forall|j: int| 0 <= j < b.len() ==> b[j] != 125u8) ==> braced(b) == b,
        0 <= st <= e < b.len() && b[st] == 123u8 && b[e] == 125u8 && (forall|j: int| 0 <= j < st ==> b[j] != 123u8)
            && (forall|j: int| e < j < b.len() ==> b[j] != 125u8) ==> braced_ok(b) && braced(b) == b.subrange(
            st,
            e + 1,
        ),
{
    let open = seq![123u8];
    lemma_find_from(b, open, 0);
    lemma_rfind_byte_before(b, 125u8, b.len() as int);
    if let Some(k) = find(b, open) {
        assert(b.subrange(k, k + 1)[0] == b[k]);
    }
    if 0 <= st <= e < b.len() && b[st] == 123u8 && b[e] == 125u8 && (forall|j: int| 0 <= j < st ==> b[j] != 123u8)
        && (forall|j: int| e < j < b.len() ==> b[j] != 125u8) {
        assert(b.subrange(st, st + 1) =~= open);
        assert(crate::text::occurs_at(b, open, st));
        let k = find(b, open)->0;
        assert(b.subrange(k, k + 1)[0] == b[k]);
        assert(k == st);
        assert(rfind_byte(b, 125u8) == Some(e));
    }
}

/// A reply that is one JSON object, with no code fence, is taken whole once
/// trimmed: as a format-check reply when the reply has no fence, and as a
/// guideline reply when its trimmed text has none.
pub proof fn lemma_plain_reply_kept(c: Seq<u8>)
    requires
        trim_bytes(c).len() > 0,
        trim_bytes(c)[0] == 123u8,
        trim_bytes(c).last() == 125u8,
    ensures
        !contains(c, bytes("```")) ==> reply_json_ok(c) && reply_json(c) == trim_bytes(c),
        !contains(trim_bytes(c), bytes("```")) ==> guideline_json_ok(c) && guideline_json(c)
            == trim_bytes(c),
{
    lemma_braced_whole(trim_bytes(c));
    if !contains(c, bytes("```")) {
        lemma_no_json_fence(c);
    }
    if !contains(trim_bytes(c), bytes("```")) {
        lemma_no_json_fence(trim_bytes(c));
    }
}

fn trimmed(s: &str) -> (r: &str)
    ensures
        bytes(r) == trim_bytes(bytes(s)),
{
    proof {
        broadcast use vstd::utf8::encode_utf8_decode_utf8;
        assert(decode_utf8(bytes(s)) == s@);
    }
    trim_str(s)
}

fn after_fence<'a>(s: &'a str, fence: &str, n: usize) -> (r: &'a str)
    requires
        ascii_pattern(bytes(fence)),
        bytes(fence).len() == n,
        ascii_pattern(bytes("```")),
        bytes("```").len() == 3,
    ensures
        bytes(r) == (match find(bytes(s), bytes(fence)) {
            Some(i) => {
                let a = rest(bytes(s), i + n);
                match find(a, bytes("```")) {
                    Some(j) => a.subrange(0, j),
                    None => a,
                }
            },
            None => bytes(s),
        }),
{
    let len = s.as_bytes().len();
    match find_str(s, fence) {
        None => s,
        Some(i) => {
            proof {
                lemma_find_from(bytes(s), bytes(fence), 0);
                lemma_match_boundaries(bytes(s), bytes(fence), i as int);
            }
            let a = slice_from(s, i + n);
            match find_str(a, "```") {
                None => a,
                Some(j) => {
                    proof {
                        lemma_find_from(bytes(a), bytes("```"), 0);
                        lemma_match_boundaries(bytes(a), bytes("```"), j as int);
                    }
                    slice_to(a, j)
                },
            }
        },
    }
}

fn braced_exec(s: &str) -> (r: &str)
    requires
        braced_ok(bytes(s)),
    ensures
        bytes(r) == braced(bytes(s)),
{
    match find_byte_str(s, 123u8) {
        None => s,
        Some(st) => match rfind_byte_str(s, 125u8) {
            None => s,
            Some(e) => {
                let ghost sb = bytes(s);
                let len = s.as_bytes().len();
                proof {
                    lemma_find_from(sb, seq![123u8], 0);
                    assert(sb[st as int] == sb.subrange(st as int, st + 1)[0]);
                    lemma_ascii_boundary(sb, st as int);
                    lemma_rfind_byte_before(sb, 125u8, sb.len() as int);
                    if e + 1 < sb.len() {
                        crate::text::lemma_after_ascii(sb, e + 1);
                    }
                    crate::text::lemma_start_boundary(sb, e + 1);
                }
                slice(s, st, e + 1)
            },
        },
    }
}

fn reply_candidate_exec(content: &str) -> (r: &str)
    ensures
        bytes(r) == reply_candidate(bytes(content)),
{
    proof {
        lemma_fences();
    }
    if contains_str(content, "```json") {
        trimmed(after_fence(content, "```json", 7))
    } else if contains_str(content, "```") {
        trimmed(after_fence(content, "```", 3))
    } else {
        trimmed(content)
    }
}

/// Whether the JSON of a format-check reply can be cut out.
pub fn reply_json_readable(content: &str) -> (r: bool)
    ensures
        r == reply_json_ok(bytes(content)),
{
    let c = reply_candidate_exec(content);
    match find_byte_str(c, 123u8) {
        None => true,
        Some(st) => match rfind_byte_str(c, 125u8) {
            None => true,
            Some(e) => st == 0 || st - 1 <= e,
        },
    }
}

/// The JSON of a model's format-check reply: the content of a ```json (or
/// plain ```) fence when there is one, trimmed, then from its first `{` to
/// its last `}`.
pub fn llm_reply_json(content: &str) -> (r: &str)
    requires
        reply_json_ok(bytes(content)),
    ensures
        bytes(r) == reply_json(bytes(content)),
{
    braced_exec(reply_candidate_exec(content))
}

/// Whether the JSON of a guideline reply can be cut out.
pub fn guideline_json_readable(content: &str) -> (r: bool)
    ensures
        r == guideline_json_ok(bytes(content)),
{
    proof {
        lemma_fences();
    }
    let t = trimmed(content);
    if contains_str(t, "```json") || contains_str(t, "```") {
        return true;
    }
    match find_byte_str(t, 123u8) {
        None => true,
        Some(st) => match rfind_byte_str(t, 125u8) {
            None => true,
            Some(e) => st == 0 || st - 1 <= e,
        },
    }
}

/// The JSON of a model's guideline reply: in the trimmed reply, the content
/// of a ```json (or plain ```) fence, trimmed, or else from the first `{` to
/// the last `}`.
pub fn extract_json(content: &str) -> (r: &str)
    requires
        guideline_json_ok(bytes(content)),
    ensures
        bytes(r) == guideline_json(bytes(content)),
{
    proof {
        lemma_fences();
    }
    let t = trimmed(content);
    if contains_str(t, "```json") {
        trimmed(after_fence(t, "```json", 7))
    } else if contains_str(t, "```") {
        trimmed(after_fence(t, "```", 3))
    } else {
        braced_exec(t)
    }
}


// ---------------------------------------------------------------------------
// The format-check prompt
// ---------------------------------------------------------------------------

/// One attribute of a style in the prompt, when the style has it.
pub open spec fn attr_item(v: Option<String>, label: Seq<char>, unit: Seq<char>) -> Seq<Seq<char>> {
    match v {
        Some(x) => seq![label + x@ + unit],
        None => Seq::empty(),
    }
}

/// The attributes of a style in the prompt: font, size, boldness, alignment
/// and line spacing, those it has, in that order.
pub open spec fn style_attrs(s: StyleInfo) -> Seq<Seq<char>> {
    attr_item(s.font_name, "字体: "@, Seq::empty())
        + attr_item(s.font_size, "字号: "@, "pt"@)
        + (if s.is_bold { seq!["加粗"@] } else { Seq::empty() })
        + attr_item(s.alignment, "对齐: "@, Seq::empty())
        + attr_item(s.line_spacing, "行距: "@, "倍"@)
}

/// A style's line in the prompt: its name, then its attributes joined by
/// commas, or a note that it is the default style when it has none.
pub open spec fn style_line(s: StyleInfo) -> Seq<char> {
    let attrs = style_attrs(s);
    "- "@ + s.name@ + ": "@ + if attrs.len() == 0 {
        "(默认样式)\n"@
    } else {
        join(attrs, ", "@) + "\n"@
    }
}

/// The lines of the styles, in order.
pub open spec fn style_lines(ss: Seq<StyleInfo>) -> Seq<char>
    decreases ss.len(),
{
    if ss.len() == 0 {
        Seq::empty()
    } else {
        style_lines(ss.drop_last()) + style_line(ss.last())
    }
}

/// The lines of the fonts, in order: `- ` and the font's name each.
pub open spec fn font_lines(fs: Seq<String>) -> Seq<char>
    decreases fs.len(),
{
    if fs.len() == 0 {
        Seq::empty()
    } else {
        font_lines(fs.drop_last()) + "- "@ + fs.last()@ + "\n"@
    }
}

/// What the model is asked to check and to answer.
pub open spec fn check_instructions() -> Seq<char> {
    CHECK_ASPECTS@ + CHECK_ANSWER_SHAPE@
        + "\n\n请直接返回JSON，不要有其他文字。确保返回所有发现的问题，不要遗漏。"@
}

/// The aspects the model is asked to check, and the request for a JSON answer.
pub const CHECK_ASPECTS: &'static str = "\n## 检测要求\n\
请仔细对比\"论文格式要求\"和\"论文格式信息\"，检查以下方面：\n\
1. 字体：要求使用什么字体，论文实际使用了什么字体\n\
2. 字号：各级标题、正文的字号是否正确\n\
3. 行距：行距设置是否符合要求\n\
4. 页边距：检查页面设置\n\
5. 对齐方式：段落对齐是否正确\n\
6. 缩进：段落缩进是否正确\n\
7. 标题层次：标题层级是否规范\n\
8. 页眉页脚：是否有且格式正确\n\
9. 参考文献：格式是否符合要求\n\
\n## 输出要求\n\
请以JSON格式返回检查结果，必须包含所有发现的问题：\n";

/// The JSON shape the model is asked to answer in.
pub const CHECK_ANSWER_SHAPE: &'static str = "{
  \"issues\": [
    {
      \"issue_type\": \"字体/字号/行距/页边距/对齐/缩进/标题层次/页眉页脚/参考文献/其他\",
      \"description\": \"具体问题描述，明确指出哪里不符合要求\",
      \"location\": {\"page\": null, \"paragraph\": null, \"section\": \"具体位置\"},
      \"severity\": \"critical/major/minor\",
      \"suggestion\": \"具体修复建议\"
    }
  ],
  \"summary\": {
    \"total_issues\": 5,
    \"critical\": 1,
    \"major\": 3,
    \"minor\": 1,
    \"overall_assessment\": \"整体评估\"
  }
}";

/// The opening of a format-check prompt: the task, the requirements and the
/// document's counts.
pub open spec fn prompt_head(r: FormatCheckRequest) -> Seq<char> {
    let m = r.document_metadata;
    "你是论文格式检查专家。请根据用户提供的格式要求和论文格式信息，检查所有格式是否符合要求。\n\n"@
        + "## 论文格式要求（请严格遵守）\n"@
        + r.format_requirements@
        + "\n\n"@
        + "## 论文格式信息\n"@
        + "- 总页数: "@ + decimal(m.page_count as nat) + "\n"@
        + "- 总字数: "@ + decimal(m.word_count as nat) + "\n"@
        + "- 总段落数: "@ + decimal(m.paragraph_count as nat) + "\n"@
}

/// The fonts section of a format-check prompt, when fonts were detected.
pub open spec fn prompt_fonts(m: DocumentAnalysisMetadata) -> Seq<char> {
    if m.fonts_detected@.len() > 0 {
        "\n### 使用的字体\n"@ + font_lines(m.fonts_detected@)
    } else {
        Seq::empty()
    }
}

/// The styles section of a format-check prompt, when styles are known.
pub open spec fn prompt_styles(m: DocumentAnalysisMetadata) -> Seq<char> {
    if m.styles_used@.len() > 0 {
        "\n### 样式统计（共 "@ + decimal(m.styles_used@.len()) + " 种样式）\n"@ + style_lines(
            m.styles_used@,
        )
    } else {
        Seq::empty()
    }
}

/// The line-spacing section of a format-check prompt, when the average is known.
pub open spec fn prompt_spacing(m: DocumentAnalysisMetadata) -> Seq<char> {
    match m.average_line_spacing {
        Some(a) => "\n### 行距\n- 平均行距: "@ + a@ + " 倍\n"@,
        None => Seq::empty(),
    }
}

/// The section-structure part of a format-check prompt.
pub open spec fn prompt_structure(m: DocumentAnalysisMetadata) -> Seq<char> {
    "\n### 章节结构\n"@
        + (if m.has_toc { "- 有目录\n"@ } else { "- 无目录\n"@ })
        + (if m.has_bibliography { "- 有参考文献\n"@ } else { "- 无参考文献\n"@ })
}

/// The prompt of a format check: the requirements, the document's counts,
/// fonts, styles, average line spacing and sections, then what to check and
/// how to answer.
pub open spec fn check_prompt(r: FormatCheckRequest) -> Seq<char> {
    let m = r.document_metadata;
    prompt_head(r) + prompt_fonts(m) + prompt_styles(m) + prompt_spacing(m) + prompt_structure(m)
        + check_instructions()
}

fn push_attr(attrs: &mut Vec<String>, v: &Option<String>, label: &str, unit: &str)
    ensures
        final(attrs)@.map_values(|a: String| a@) == old(attrs)@.map_values(|a: String| a@)
            + attr_item(*v, label@, unit@),
{
    let ghost before = attrs@.map_values(|a: String| a@);
    match v {
        Some(x) => {
            let mut item = label.to_owned();
            item.append(x.as_str());
            item.append(unit);
            attrs.push(item);
            assert(attrs@.map_values(|a: String| a@) =~= before + attr_item(*v, label@, unit@));
        },
        None => {
            assert(attrs@.map_values(|a: String| a@) =~= before + attr_item(*v, label@, unit@));
        },
    }
}

fn push_style_line(prompt: &mut String, style: &StyleInfo)
    ensures
        final(prompt)@ == old(prompt)@ + style_line(*style),
{
    let ghost start = prompt@;
    prompt.append("- ");
    prompt.append(style.name.as_str());
    prompt.append(": ");
    let mut attrs: Vec<String> = Vec::new();
    proof {
        reveal_strlit("");
        assert(attrs@.map_values(|a: String| a@) =~= Seq::<Seq<char>>::empty());
    }
    push_attr(&mut attrs, &style.font_name, "字体: ", "");
    push_attr(&mut attrs, &style.font_size, "字号: ", "pt");
    if style.is_bold {
        let ghost before = attrs@.map_values(|a: String| a@);
        attrs.push("加粗".to_owned());
        assert(attrs@.map_values(|a: String| a@) =~= before + seq!["加粗"@]);
    }
    push_attr(&mut attrs, &style.alignment, "对齐: ", "");
    push_attr(&mut attrs, &style.line_spacing, "行距: ", "倍");
    proof {
        assert(attrs@.map_values(|a: String| a@) =~= style_attrs(*style));
    }
    if attrs.len() == 0 {
        prompt.append("(默认样式)\n");
    } else {
        push_join(prompt, &attrs, ", ");
        prompt.append("\n");
    }
    assert(prompt@ =~= start + style_line(*style));
}

fn push_prompt_head(prompt: &mut String, request: &FormatCheckRequest)
    ensures
        final(prompt)@ == old(prompt)@ + prompt_head(*request),
{
    let m = &request.document_metadata;
    let ghost start = prompt@;
    prompt.append("你是论文格式检查专家。请根据用户提供的格式要求和论文格式信息，检查所有格式是否符合要求。\n\n");
    prompt.append("## 论文格式要求（请严格遵守）\n");
    prompt.append(request.format_requirements.as_str());
    prompt.append("\n\n");
    prompt.append("## 论文格式信息\n");
    prompt.append("- 总页数: ");
    push_decimal(prompt, m.page_count);
    prompt.append("\n");
    prompt.append("- 总字数: ");
    push_decimal(prompt, m.word_count);
    prompt.append("\n");
    prompt.append("- 总段落数: ");
    push_decimal(prompt, m.paragraph_count);
    prompt.append("\n");
    assert(prompt@ =~= start + prompt_head(*request));
}

fn push_prompt_fonts(prompt: &mut String, m: &DocumentAnalysisMetadata)
    ensures
        final(prompt)@ == old(prompt)@ + prompt_fonts(*m),
{
    let ghost start = prompt@;
    if m.fonts_detected.len() > 0 {
        prompt.append("\n### 使用的字体\n");
        let ghost fs = m.fonts_detected@;
        let ghost base = prompt@;
        let mut i: usize = 0;
        while i < m.fonts_detected.len()
            invariant
                i <= fs.len(),
                fs == m.fonts_detected@,
                prompt@ == base + font_lines(fs.take(i as int)),
            decreases fs.len() - i,
        {
            prompt.append("- ");
            prompt.append(m.fonts_detected[i].as_str());
            prompt.append("\n");
            proof {
                assert(fs.take(i + 1).drop_last() =~= fs.take(i as int));
                assert(prompt@ =~= base + font_lines(fs.take(i + 1)));
            }
            i = i + 1;
        }
        assert(fs.take(fs.len() as int) =~= fs);
    }
    assert(prompt@ =~= start + prompt_fonts(*m));
}

fn push_prompt_styles(prompt: &mut String, m: &DocumentAnalysisMetadata)
    ensures
        final(prompt)@ == old(prompt)@ + prompt_styles(*m),
{
    let ghost start = prompt@;
    if m.styles_used.len() > 0 {
        prompt.append("\n### 样式统计（共 ");
        push_decimal(prompt, m.styles_used.len());
        prompt.append(" 种样式）\n");
        let ghost ss = m.styles_used@;
        let ghost base = prompt@;
        let mut i: usize = 0;
        while i < m.styles_used.len()
            invariant
                i <= ss.len(),
                ss == m.styles_used@,
                prompt@ == base + style_lines(ss.take(i as int)),
            decreases ss.len() - i,
        {
            push_style_line(prompt, &m.styles_used[i]);
            proof {
                assert(ss.take(i + 1).drop_last() =~= ss.take(i as int));
                assert(prompt@ =~= base + style_lines(ss.take(i + 1)));
            }
            i = i + 1;
        }
        assert(ss.take(ss.len() as int) =~= ss);
    }
    assert(prompt@ =~= start + prompt_styles(*m));
}

fn push_prompt_tail(prompt: &mut String, m: &DocumentAnalysisMetadata)
    ensures
        final(prompt)@ == old(prompt)@ + prompt_spacing(*m) + prompt_structure(*m)
            + check_instructions(),
{
    let ghost start = prompt@;
    if let Some(a) = &m.average_line_spacing {
        prompt.append("\n### 行距\n- 平均行距: ");
        prompt.append(a.as_str());
        prompt.append(" 倍\n");
    }
    assert(prompt@ =~= start + prompt_spacing(*m));
    let ghost with_spacing = prompt@;
    prompt.append("\n### 章节结构\n");
    if m.has_toc {
        prompt.append("- 有目录\n");
    } else {
        prompt.append("- 无目录\n");
    }
    if m.has_bibliography {
        prompt.append("- 有参考文献\n");
    } else {
        prompt.append("- 无参考文献\n");
    }
    assert(prompt@ =~= with_spacing + prompt_structure(*m));
    let ghost with_sections = prompt@;
    prompt.append(CHECK_ASPECTS);
    prompt.append(CHECK_ANSWER_SHAPE);
    prompt.append("\n\n请直接返回JSON，不要有其他文字。确保返回所有发现的问题，不要遗漏。");
    assert(prompt@ =~= with_sections + check_instructions());
}

/// The prompt that asks the model to check a paper's format.
pub fn build_format_check_prompt(request: &FormatCheckRequest) -> (prompt: String)
    ensures
        prompt@ == check_prompt(*request),
{
    let mut prompt = String::new();
    push_prompt_head(&mut prompt, request);
    push_prompt_fonts(&mut prompt, &request.document_metadata);
    push_prompt_styles(&mut prompt, &request.document_metadata);
    push_prompt_tail(&mut prompt, &request.document_metadata);
    assert(prompt@ =~= check_prompt(*request));
    prompt
}


// ---------------------------------------------------------------------------
// Guidelines
// ---------------------------------------------------------------------------

/// Font requirements read from a guideline; each size is the text its number
/// prints as (points).
#[derive(Clone, Debug)]
pub struct FontRequirement {
    pub font_family: Option<String>,
    pub font_family_alternative: Option<String>,
    pub font_size_body: Option<String>,
    pub font_size_title: Option<String>,
    pub font_size_heading1: Option<String>,
    pub font_size_heading2: Option<String>,
    pub font_size_heading3: Option<String>,
    pub font_style_body: Option<String>,
    pub bold_required: bool,
    pub confidence: String,
    pub source_snippet: Option<String>,
}

/// Spacing requirements read from a guideline; each number is the text it
/// prints as.
#[derive(Clone, Debug)]
pub struct SpacingRequirement {
    pub line_spacing: Option<String>,
    pub line_spacing_unit: Option<String>,
    pub paragraph_spacing_before: Option<String>,
    pub paragraph_spacing_after: Option<String>,
    pub paragraph_indent: Option<String>,
    pub paragraph_indent_unit: Option<String>,
    pub confidence: String,
    pub source_snippet: Option<String>,
}

/// Margin requirements read from a guideline; each number is the text it
/// prints as.
#[derive(Clone, Debug)]
pub struct MarginRequirement {
    pub top: Option<String>,
    pub bottom: Option<String>,
    pub left: Option<String>,
    pub right: Option<String>,
    pub unit: Option<String>,
    pub header_position: Option<String>,
    pub footer_position: Option<String>,
    pub confidence: String,
    pub source_snippet: Option<String>,
}

/// Citation requirements read from a guideline.
#[derive(Clone, Debug)]
pub struct CitationRequirement {
    pub citation_style: Option<String>,
    pub in_text_format: Option<String>,
    pub reference_format: Option<String>,
    pub reference_numbering: Option<String>,
    pub confidence: String,
    pub source_snippet: Option<String>,
}

/// Heading requirements read from a guideline.
#[derive(Clone, Debug)]
pub struct HeadingRequirement {
    pub heading_level1_numbering: Option<String>,
    pub heading_level2_numbering: Option<String>,
    pub heading_level3_numbering: Option<String>,
    pub heading_level1_format: Option<String>,
    pub heading_level2_format: Option<String>,
    pub heading_level3_format: Option<String>,
    pub heading_style: Option<String>,
    pub confidence: String,
    pub source_snippet: Option<String>,
}

/// Abstract requirements read from a guideline; the font size is the text
/// its number prints as.
#[derive(Clone, Debug)]
pub struct AbstractRequirement {
    pub abstract_keyword: Option<String>,
    pub abstract_length: Option<String>,
    pub abstract_font_size: Option<String>,
    pub abstract_alignment: Option<String>,
    pub abstract_keywords_required: bool,
    pub abstract_keywords_label: Option<String>,
    pub confidence: String,
    pub source_snippet: Option<String>,
}

/// Reference-list requirements read from a guideline.
#[derive(Clone, Debug)]
pub struct ReferencesRequirement {
    pub references_title: Option<String>,
    pub references_placement: Option<String>,
    pub references_ordering: Option<String>,
    pub references_format: Option<String>,
    pub references_indentation: Option<String>,
    pub confidence: String,
    pub source_snippet: Option<String>,
}

/// Figure and table caption requirements read from a guideline.
#[derive(Clone, Debug)]
pub struct FigureRequirement {
    pub figure_caption_position: Option<String>,
    pub figure_caption_format: Option<String>,
    pub table_caption_position: Option<String>,
    pub table_caption_format: Option<String>,
    pub confidence: String,
    pub source_snippet: Option<String>,
}

/// All requirements read from a guideline, by section.
#[derive(Clone, Debug)]
pub struct GuidelineFormatRequirements {
    pub font: Option<FontRequirement>,
    pub spacing: Option<SpacingRequirement>,
    pub margins: Option<MarginRequirement>,
    pub citations: Option<CitationRequirement>,
    pub headings: Option<HeadingRequirement>,
    pub abstract_spec: Option<AbstractRequirement>,
    pub references: Option<ReferencesRequirement>,
    pub figures: Option<FigureRequirement>,
}

impl Default for GuidelineFormatRequirements {
    fn default() -> (r: Self)
        ensures
            r.font is None,
            r.spacing is None,
            r.margins is None,
            r.citations is None,
            r.headings is None,
            r.abstract_spec is None,
            r.references is None,
            r.figures is None,
    {
        GuidelineFormatRequirements {
            font: None,
            spacing: None,
            margins: None,
            citations: None,
            headings: None,
            abstract_spec: None,
            references: None,
            figures: None,
        }
    }
}

/// A point of a guideline that the model found ambiguous.
#[derive(Clone, Debug)]
pub struct AmbiguousItem {
    pub field_name: String,
    pub raw_text: String,
    pub interpretation: String,
    pub confidence: String,
    pub suggestion: String,
}

/// What was read from a guideline, with what could not be.
#[derive(Clone, Debug)]
pub struct ParsedGuidelineResult {
    pub requirements: GuidelineFormatRequirements,
    pub raw_json: String,
    pub parsing_errors: Vec<String>,
    pub ambiguous_items: Vec<AmbiguousItem>,
    pub unparsed_segments: Vec<String>,
}

/// A guideline to read, with where it comes from and the citation standard
/// it is expected to follow, where known.
#[derive(Clone, Debug)]
pub struct GuidelineParseRequest {
    pub guideline_text: String,
    pub guideline_source: Option<String>,
    pub expected_style: Option<String>,
}

#[verifier::spinoff_prover]
proof fn lemma_font_lines_show(fs: Seq<String>, i: int)
    requires
        0 <= i < fs.len(),
    ensures
        shows(font_lines(fs), "- "@ + fs[i]@ + "\n"@),
    decreases fs.len(),
{
    let e = Seq::<char>::empty();
    let last = "- "@ + fs.last()@ + "\n"@;
    assert(font_lines(fs) =~= e + font_lines(fs.drop_last()) + last);
    if i == fs.len() - 1 {
        lemma_shows_self(last);
        lemma_shows_within(last, last, font_lines(fs.drop_last()), e);
        assert(font_lines(fs.drop_last()) + last + e =~= font_lines(fs));
    } else {
        lemma_font_lines_show(fs.drop_last(), i);
        assert(fs.drop_last()[i] == fs[i]);
        lemma_shows_within(font_lines(fs.drop_last()), "- "@ + fs[i]@ + "\n"@, e, last);
    }
}

#[verifier::spinoff_prover]
proof fn lemma_style_lines_show(ss: Seq<StyleInfo>, i: int)
    requires
        0 <= i < ss.len(),
    ensures
        shows(style_lines(ss), "- "@ + ss[i].name@ + ": "@),
    decreases ss.len(),
{
    let e = Seq::<char>::empty();
    let last = style_line(ss.last());
    assert(style_lines(ss) =~= e + style_lines(ss.drop_last()) + last);
    if i == ss.len() - 1 {
        let m = "- "@ + ss[i].name@ + ": "@;
        let attrs = style_attrs(ss[i]);
        let tail = if attrs.len() == 0 { "(默认样式)\n"@ } else { join(attrs, ", "@) + "\n"@ };
        assert(last =~= e + m + tail);
        lemma_shows_self(m);
        lemma_shows_within(m, m, e, tail);
        lemma_shows_within(last, m, style_lines(ss.drop_last()), e);
        assert(style_lines(ss.drop_last()) + last + e =~= style_lines(ss));
    } else {
        lemma_style_lines_show(ss.drop_last(), i);
        assert(ss.drop_last()[i] == ss[i]);
        lemma_shows_within(style_lines(ss.drop_last()), "- "@ + ss[i].name@ + ": "@, e, last);
    }
}

/// The format-check prompt opens with the task, then the requirements as
/// given, then the document's page, word and paragraph counts; and it closes
/// with what to check and the shape of the answer.
#[verifier::spinoff_prover]
pub proof fn lemma_check_prompt_frame(r: FormatCheckRequest)
    ensures
        ({
            let m = r.document_metadata;
            let opening = "你是论文格式检查专家。请根据用户提供的格式要求和论文格式信息，检查所有格式是否符合要求。\n\n"@
                + "## 论文格式要求（请严格遵守）\n"@ + r.format_requirements@ + "\n\n"@ + "## 论文格式信息\n"@
                + "- 总页数: "@ + decimal(m.page_count as nat) + "\n"@ + "- 总字数: "@ + decimal(m.word_count as nat)
                + "\n"@ + "- 总段落数: "@ + decimal(m.paragraph_count as nat) + "\n"@;
            opening.len() <= check_prompt(r).len() && check_prompt(r).subrange(0, opening.len() as int) == opening
        }),
        ({
            let closing = CHECK_ASPECTS@ + CHECK_ANSWER_SHAPE@
                + "\n\n请直接返回JSON，不要有其他文字。确保返回所有发现的问题，不要遗漏。"@;
            let p = check_prompt(r);
            closing.len() <= p.len() && p.subrange(p.len() - closing.len(), p.len() as int) == closing
        }),
{
    let m = r.document_metadata;
    let head = prompt_head(r);
    let mid = prompt_fonts(m) + prompt_styles(m) + prompt_spacing(m) + prompt_structure(m);
    let tail = check_instructions();
    assert(check_prompt(r) =~= head + mid + tail);
    assert((head + mid + tail).subrange(0, head.len() as int) =~= head);
    let p = check_prompt(r);
    assert(p.subrange(p.len() - tail.len(), p.len() as int) =~= tail);
}

#[verifier::spinoff_prover]
proof fn lemma_check_prompt_shows_font(r: FormatCheckRequest, i: int)
    requires
        0 <= i < r.document_metadata.fonts_detected@.len(),
    ensures
        shows(check_prompt(r), "- "@ + r.document_metadata.fonts_detected@[i]@ + "\n"@),
{
    let m = r.document_metadata;
    lemma_font_lines_show(m.fonts_detected@, i);
    let pre = prompt_head(r) + "\n### 使用的字体\n"@;
    let post = prompt_styles(m) + prompt_spacing(m) + prompt_structure(m) + check_instructions();
    lemma_shows_within(font_lines(m.fonts_detected@), "- "@ + m.fonts_detected@[i]@ + "\n"@, pre, post);
    assert(check_prompt(r) =~= pre + font_lines(m.fonts_detected@) + post);
}

#[verifier::spinoff_prover]
proof fn lemma_check_prompt_shows_style(r: FormatCheckRequest, i: int)
    requires
        0 <= i < r.document_metadata.styles_used@.len(),
    ensures
        shows(check_prompt(r), "- "@ + r.document_metadata.styles_used@[i].name@ + ": "@),
        shows(
            check_prompt(r),
            "\n### 样式统计（共 "@ + decimal(r.document_metadata.styles_used@.len()) + " 种样式）\n"@,
        ),
{
    let m = r.document_metadata;
    let sh = "\n### 样式统计（共 "@ + decimal(m.styles_used@.len()) + " 种样式）\n"@;
    lemma_style_lines_show(m.styles_used@, i);
    let pre = prompt_head(r) + prompt_fonts(m) + sh;
    let post = prompt_spacing(m) + prompt_structure(m) + check_instructions();
    lemma_shows_within(style_lines(m.styles_used@), "- "@ + m.styles_used@[i].name@ + ": "@, pre, post);
    assert(check_prompt(r) =~= pre + style_lines(m.styles_used@) + post);
    lemma_shows_self(sh);
    lemma_shows_within(sh, sh, prompt_head(r) + prompt_fonts(m), style_lines(m.styles_used@) + post);
    assert(check_prompt(r) =~= prompt_head(r) + prompt_fonts(m) + sh + (style_lines(m.styles_used@) + post));
}

#[verifier::spinoff_prover]
proof fn lemma_check_prompt_shows_structure(r: FormatCheckRequest)
    ensures
        shows(check_prompt(r), if r.document_metadata.has_toc { "- 有目录\n"@ } else { "- 无目录\n"@ }),
        shows(
            check_prompt(r),
            if r.document_metadata.has_bibliography { "- 有参考文献\n"@ } else { "- 无参考文献\n"@ },
        ),
{
    let m = r.document_metadata;
    let pre = prompt_head(r) + prompt_fonts(m) + prompt_styles(m) + prompt_spacing(m) + "\n### 章节结构\n"@;
    let tail = check_instructions();
    let toc = if m.has_toc { "- 有目录\n"@ } else { "- 无目录\n"@ };
    let bib = if m.has_bibliography { "- 有参考文献\n"@ } else { "- 无参考文献\n"@ };
    lemma_shows_self(toc);
    lemma_shows_within(toc, toc, pre, bib + tail);
    assert(check_prompt(r) =~= pre + toc + (bib + tail));
    lemma_shows_self(bib);
    lemma_shows_within(bib, bib, pre + toc, tail);
    assert(check_prompt(r) =~= pre + toc + bib + tail);
}

#[verifier::spinoff_prover]
proof fn lemma_check_prompt_shows_spacing(r: FormatCheckRequest)
    ensures
        r.document_metadata.average_line_spacing matches Some(a) ==> shows(
            check_prompt(r),
            "\n### 行距\n- 平均行距: "@ + a@ + " 倍\n"@,
        ),
{
    let m = r.document_metadata;
    if let Some(a) = m.average_line_spacing {
        let line = "\n### 行距\n- 平均行距: "@ + a@ + " 倍\n"@;
        let pre = prompt_head(r) + prompt_fonts(m) + prompt_styles(m);
        let post = prompt_structure(m) + check_instructions();
        lemma_shows_self(line);
        lemma_shows_within(line, line, pre, post);
        assert(check_prompt(r) =~= pre + line + post);
    }
}

/// The format-check prompt names every font detected in the document and
/// every style used (with their count), says whether the document has a
/// table of contents and a bibliography, and gives the average line spacing
/// (in a section of its own) where it is known.
pub proof fn lemma_check_prompt_shows_document(r: FormatCheckRequest)
    ensures
        forall|i: int| 0 <= i < r.document_metadata.fonts_detected@.len() ==> shows(
            check_prompt(r),
            "- "@ + (#[trigger] r.document_metadata.fonts_detected@[i])@ + "\n"@,
        ),
        forall|i: int| 0 <= i < r.document_metadata.styles_used@.len() ==> shows(
            check_prompt(r),
            "- "@ + (#[trigger] r.document_metadata.styles_used@[i]).name@ + ": "@,
        ),
        r.document_metadata.styles_used@.len() > 0 ==> shows(
            check_prompt(r),
            "\n### 样式统计（共 "@ + decimal(r.document_metadata.styles_used@.len()) + " 种样式）\n"@,
        ),
        shows(check_prompt(r), if r.document_metadata.has_toc { "- 有目录\n"@ } else { "- 无目录\n"@ }),
        shows(
            check_prompt(r),
            if r.document_metadata.has_bibliography { "- 有参考文献\n"@ } else { "- 无参考文献\n"@ },
        ),
        r.document_metadata.average_line_spacing matches Some(a) ==> shows(
            check_prompt(r),
            "\n### 行距\n- 平均行距: "@ + a@ + " 倍\n"@,
        ),
{
    assert forall|i: int| 0 <= i < r.document_metadata.fonts_detected@.len() implies shows(
        check_prompt(r),
        "- "@ + (#[trigger] r.document_metadata.fonts_detected@[i])@ + "\n"@,
    ) by {
        lemma_check_prompt_shows_font(r, i);
    }
    assert forall|i: int| 0 <= i < r.document_metadata.styles_used@.len() implies shows(
        check_prompt(r),
        "- "@ + (#[trigger] r.document_metadata.styles_used@[i]).name@ + ": "@,
    ) by {
        lemma_check_prompt_shows_style(r, i);
    }
    if r.document_metadata.styles_used@.len() > 0 {
        lemma_check_prompt_shows_style(r, 0);
    }
    lemma_check_prompt_shows_structure(r);
    lemma_check_prompt_shows_spacing(r);
}

/// What the model is asked to extract from a guideline, and the JSON shape
/// of its answer.
pub const GUIDELINE_INSTRUCTIONS: &'static str = r#"## 提取要求

请仔细阅读上述规范，提取所有格式相关的要求。即使某些信息没有明确说明，也可以根据上下文推断，但要标记为"inferred"。

## 输出格式

请严格以以下JSON格式返回，不要包含任何其他文字：

{
  "font": {
    "font_family": "字体名称，如 Times New Roman, 宋体, 黑体",
    "font_family_alternative": "备选字体（如有）",
    "font_size_body": 正文字号（数字，单位pt）,
    "font_size_title": 标题字号,
    "font_size_heading1": 一级标题字号,
    "font_size_heading2": 二级标题字号,
    "font_size_heading3": 三级标题字号,
    "font_style_body": "normal/italic/加粗",
    "bold_required": true或false,
    "confidence": "high/medium/low",
    "source_snippet": "对应的原文片段"
  },
  "spacing": {
    "line_spacing": 行距数值（如1.5表示1.5倍行距）,
    "line_spacing_unit": "倍",
    "paragraph_spacing_before": 段落前间距（单位pt）,
    "paragraph_spacing_after": 段落后间距（单位pt）,
    "paragraph_indent": 段落首行缩进（如2表示2字符或2cm）,
    "paragraph_indent_unit": "字符/cm",
    "confidence": "high/medium/low",
    "source_snippet": "对应的原文片段"
  },
  "margins": {
    "top": 上边距数值,
    "bottom": 下边距数值,
    "left": 左边距数值,
    "right": 右边距数值,
    "unit": "cm/英寸/inch",
    "header_position": 页眉到顶边距离,
    "footer_position": 页脚到底边距离,
    "confidence": "high/medium/low",
    "source_snippet": "对应的原文片段"
  },
  "citations": {
    "citation_style": "APA/MLA/Chicago/IEEE/Harvard/GB/T 7714/其他",
    "in_text_format": "文中引用格式描述",
    "reference_format": "参考文献格式描述",
    "reference_numbering": "字母顺序/数字顺序/引用顺序",
    "confidence": "high/medium/low",
    "source_snippet": "对应的原文片段"
  },
  "headings": {
    "heading_level1_numbering": "一级标题编号格式，如 1, 1.1",
    "heading_level2_numbering": "二级标题编号格式",
    "heading_level3_numbering": "三级标题编号格式",
    "heading_level1_format": "一级标题样式，如 居中、加粗",
    "heading_level2_format": "二级标题样式",
    "heading_level3_format": "三级标题样式",
    "heading_style": "整体标题风格描述",
    "confidence": "high/medium/low",
    "source_snippet": "对应的原文片段"
  },
  "abstract_spec": {
    "abstract_keyword": "摘要标题，如 摘要/Abstract",
    "abstract_length": "摘要长度要求，如 200-300字",
    "abstract_font_size": 摘要字号,
    "abstract_alignment": "对齐方式",
    "abstract_keywords_required": true或false,
    "abstract_keywords_label": "关键词标题，如 关键词/Keywords",
    "confidence": "high/medium/low",
    "source_snippet": "对应的原文片段"
  },
  "references": {
    "references_title": "参考文献标题，如 参考文献/References",
    "references_placement": "位置，如 文末、章节末尾",
    "references_ordering": "排序方式，如 按字母顺序、按引用顺序",
    "references_format": "格式描述",
    "references_indentation": "缩进方式，如 悬挂缩进2字符",
    "confidence": "high/medium/low",
    "source_snippet": "对应的原文片段"
  },
  "figures": {
    "figure_caption_position": "图注位置，如 图下方、图上方",
    "figure_caption_format": "图注格式，如 图1 XXX",
    "table_caption_position": "表注位置",
    "table_caption_format": "表注格式",
    "confidence": "high/medium/low",
    "source_snippet": "对应的原文片段"
  },
  "ambiguous_items": [
    {
      "field_name": "字段名",
      "raw_text": "原始文本",
      "interpretation": "可能的解释",
      "confidence": "medium或low",
      "suggestion": "建议如何处理"
    }
  ],
  "unparsed_segments": ["无法解析的原文片段（如果有）"],
  "parsing_errors": ["解析错误说明（如果有）"]
}

## 重要说明

1. 所有字段都是可选的，如果没有找到相关信息，请使用 null
2. 如果文本使用了"标准"、"常规"等模糊表述，请标注 confidence 为 "low" 并说明是默认值
3. "source_snippet" 应截取最相关的原文片段（不超过50字）
4. 如果发现矛盾的要求（如先说12pt后说14pt），请在 ambiguous_items 中标注
5. 对于隐含的要求（如"双倍行距"隐含 line_spacing=2.0），请提取并标注

请直接返回JSON："#;

/// The prompt that asks the model to read a guideline: the task, the
/// guideline's source and expected standard where given, the guideline in a
/// fence, then what to extract and how to answer.
pub open spec fn guideline_prompt(r: GuidelineParseRequest) -> Seq<char> {
    "你是论文格式规范解析专家。请从以下论文撰写规范中提取所有格式要求，返回结构化的JSON数据。\n\n"@
        + match r.guideline_source {
            Some(src) => "## 规范来源\n"@ + src@ + "\n\n"@,
            None => Seq::empty(),
        }
        + match r.expected_style {
            Some(st) => "## 预期格式标准\n"@ + st@ + "\n\n"@,
            None => Seq::empty(),
        }
        + "## 论文撰写规范原文\n"@
        + "```\n"@
        + r.guideline_text@
        + "\n```\n\n"@
        + GUIDELINE_INSTRUCTIONS@
}

/// The part of the guideline prompt that names a given value.
pub open spec fn given_part(label: Seq<char>, v: Option<String>) -> Seq<char> {
    match v {
        Some(x) => label + x@ + "\n\n"@,
        None => Seq::empty(),
    }
}

#[verifier::spinoff_prover]
proof fn lemma_guideline_prompt_split(r: GuidelineParseRequest)
    ensures
        guideline_prompt(r) == "你是论文格式规范解析专家。请从以下论文撰写规范中提取所有格式要求，返回结构化的JSON数据。\n\n"@
            + given_part("## 规范来源\n"@, r.guideline_source) + given_part("## 预期格式标准\n"@, r.expected_style)
            + ("## 论文撰写规范原文\n"@ + "```\n"@ + r.guideline_text@ + "\n```\n\n"@) + GUIDELINE_INSTRUCTIONS@,
{
    assert(guideline_prompt(r) =~= "你是论文格式规范解析专家。请从以下论文撰写规范中提取所有格式要求，返回结构化的JSON数据。\n\n"@
        + given_part("## 规范来源\n"@, r.guideline_source) + given_part("## 预期格式标准\n"@, r.expected_style)
        + ("## 论文撰写规范原文\n"@ + "```\n"@ + r.guideline_text@ + "\n```\n\n"@) + GUIDELINE_INSTRUCTIONS@);
}

/// The guideline prompt opens with the task and closes with what to extract
/// and how to answer.
#[verifier::spinoff_prover]
pub proof fn lemma_guideline_prompt_frame(r: GuidelineParseRequest)
    ensures
        ({
            let p = guideline_prompt(r);
            let opening = "你是论文格式规范解析专家。请从以下论文撰写规范中提取所有格式要求，返回结构化的JSON数据。\n\n"@;
            &&& opening.len() <= p.len()
            &&& p.subrange(0, opening.len() as int) == opening
            &&& GUIDELINE_INSTRUCTIONS@.len() <= p.len()
            &&& p.subrange(p.len() - GUIDELINE_INSTRUCTIONS@.len(), p.len() as int) == GUIDELINE_INSTRUCTIONS@
        }),
{
    lemma_guideline_prompt_split(r);
    let opening = "你是论文格式规范解析专家。请从以下论文撰写规范中提取所有格式要求，返回结构化的JSON数据。\n\n"@;
    let mid = given_part("## 规范来源\n"@, r.guideline_source) + given_part("## 预期格式标准\n"@, r.expected_style)
        + ("## 论文撰写规范原文\n"@ + "```\n"@ + r.guideline_text@ + "\n```\n\n"@);
    let tail = GUIDELINE_INSTRUCTIONS@;
    let p = guideline_prompt(r);
    assert(p =~= opening + mid + tail);
    assert(p.subrange(0, opening.len() as int) =~= opening);
    assert(p.subrange(p.len() - tail.len(), p.len() as int) =~= tail);
}

/// Between its opening and its closing, the guideline prompt gives the
/// guideline's source and the expected standard where they are given, and
/// the guideline text itself, whole, in a fence.
#[verifier::spinoff_prover]
pub proof fn lemma_guideline_prompt_parts(r: GuidelineParseRequest)
    ensures
        shows(guideline_prompt(r), "## 论文撰写规范原文\n"@ + "```\n"@ + r.guideline_text@ + "\n```\n\n"@),
        r.guideline_source matches Some(src) ==> shows(guideline_prompt(r), "## 规范来源\n"@ + src@ + "\n\n"@),
        r.expected_style matches Some(st) ==> shows(guideline_prompt(r), "## 预期格式标准\n"@ + st@ + "\n\n"@),
{
    lemma_guideline_prompt_split(r);
    let opening = "你是论文格式规范解析专家。请从以下论文撰写规范中提取所有格式要求，返回结构化的JSON数据。\n\n"@;
    let src = given_part("## 规范来源\n"@, r.guideline_source);
    let st = given_part("## 预期格式标准\n"@, r.expected_style);
    let text = "## 论文撰写规范原文\n"@ + "```\n"@ + r.guideline_text@ + "\n```\n\n"@;
    let tail = GUIDELINE_INSTRUCTIONS@;
    lemma_shows_self(text);
    lemma_shows_within(text, text, opening + src + st, tail);
    lemma_shows_self(src);
    lemma_shows_within(src, src, opening, st + text + tail);
    assert(opening + src + (st + text + tail) =~= opening + src + st + text + tail);
    lemma_shows_self(st);
    lemma_shows_within(st, st, opening + src, text + tail);
    assert(opening + src + st + (text + tail) =~= opening + src + st + text + tail);
}

/// The prompt that asks the model to read a guideline.
pub fn build_guideline_parsing_prompt(request: &GuidelineParseRequest) -> (prompt: String)
    ensures
        prompt@ == guideline_prompt(*request),
{
    let mut prompt = String::new();
    prompt.append("你是论文格式规范解析专家。请从以下论文撰写规范中提取所有格式要求，返回结构化的JSON数据。\n\n");
    let ghost head = prompt@;
    if let Some(source) = &request.guideline_source {
        prompt.append("## 规范来源\n");
        prompt.append(source.as_str());
        prompt.append("\n\n");
    }
    let ghost with_source = prompt@;
    if let Some(style) = &request.expected_style {
        prompt.append("## 预期格式标准\n");
        prompt.append(style.as_str());
        prompt.append("\n\n");
    }
    let ghost with_style = prompt@;
    prompt.append("## 论文撰写规范原文\n");
    prompt.append("```\n");
    prompt.append(request.guideline_text.as_str());
    prompt.append("\n```\n\n");
    prompt.append(GUIDELINE_INSTRUCTIONS);
    assert(with_source =~= head + match request.guideline_source {
        Some(src) => "## 规范来源\n"@ + src@ + "\n\n"@,
        None => Seq::empty(),
    });
    assert(with_style =~= with_source + match request.expected_style {
        Some(st) => "## 预期格式标准\n"@ + st@ + "\n\n"@,
        None => Seq::empty(),
    });
    assert(prompt@ =~= guideline_prompt(*request));
    prompt
}


/// A line of the requirements text, when the value is there.
pub open spec fn opt_line(v: Option<String>, label: Seq<char>, tail: Seq<char>) -> Seq<char> {
    match v {
        Some(x) => label + x@ + tail,
        None => Seq::empty(),
    }
}

/// The value, or `default` when there is none.
pub open spec fn or_default(v: Option<String>, default: Seq<char>) -> Seq<char> {
    match v {
        Some(x) => x@,
        None => default,
    }
}

/// The font section of the requirements text.
pub open spec fn font_section(f: Option<FontRequirement>) -> Seq<char> {
    match f {
        Some(f) => "### 字体要求\n"@
            + opt_line(f.font_family, "- 正文字体："@, "\n"@)
            + opt_line(f.font_size_body, "- 正文字号："@, "pt\n"@)
            + opt_line(f.font_size_title, "- 题目字号："@, "pt\n"@)
            + opt_line(f.font_size_heading1, "- 一级标题字号："@, "pt\n"@)
            + "\n"@,
        None => Seq::empty(),
    }
}

/// The spacing section of the requirements text; an indent without a unit
/// is in characters.
pub open spec fn spacing_section(sp: Option<SpacingRequirement>) -> Seq<char> {
    match sp {
        Some(sp) => "### 间距要求\n"@
            + opt_line(sp.line_spacing, "- 行距："@, " 倍\n"@)
            + opt_line(sp.paragraph_indent, "- 段落缩进："@, or_default(sp.paragraph_indent_unit, "字符"@) + "\n"@)
            + "\n"@,
        None => Seq::empty(),
    }
}

/// One margin's line of the requirements text.
pub open spec fn margin_line(label: Seq<char>, v: Seq<char>, unit: Seq<char>) -> Seq<char> {
    label + v + unit + "\n"@
}

/// The four margins' lines of the requirements text, in `unit`.
pub open spec fn margin_lines(t: Seq<char>, b: Seq<char>, l: Seq<char>, r: Seq<char>, unit: Seq<char>) -> Seq<char> {
    margin_line("- 上："@, t, unit) + margin_line("- 下："@, b, unit) + margin_line("- 左："@, l, unit)
        + margin_line("- 右："@, r, unit)
}

/// The margins section of the requirements text: the four margins, only when
/// all four are given, in their unit (centimetres when none is given).
pub open spec fn margins_section(mg: Option<MarginRequirement>) -> Seq<char> {
    match mg {
        Some(mg) => "### 页边距要求\n"@ + match (mg.top, mg.bottom, mg.left, mg.right) {
            (Some(t), Some(b), Some(l), Some(r)) => margin_lines(t@, b@, l@, r@, or_default(mg.unit, "cm"@)),
            _ => Seq::empty(),
        } + "\n"@,
        None => Seq::empty(),
    }
}

/// The citations section of the requirements text.
pub open spec fn citations_section(c: Option<CitationRequirement>) -> Seq<char> {
    match c {
        Some(c) => "### 引用格式\n"@
            + opt_line(c.citation_style, "- 引用风格："@, "\n"@)
            + opt_line(c.in_text_format, "- 文中引用："@, "\n"@)
            + "\n"@,
        None => Seq::empty(),
    }
}

/// The abstract section of the requirements text.
pub open spec fn abstract_section(a: Option<AbstractRequirement>) -> Seq<char> {
    match a {
        Some(a) => "### 摘要要求\n"@
            + opt_line(a.abstract_length, "- 摘要长度："@, "\n"@)
            + (if a.abstract_keywords_required { "- 需要关键词\n"@ } else { Seq::empty() })
            + "\n"@,
        None => Seq::empty(),
    }
}

/// The references section of the requirements text.
pub open spec fn references_section(r: Option<ReferencesRequirement>) -> Seq<char> {
    match r {
        Some(r) => "### 参考文献要求\n"@
            + opt_line(r.references_title, "- 参考文献标题："@, "\n"@)
            + opt_line(r.references_ordering, "- 排序方式："@, "\n"@)
            + "\n"@,
        None => Seq::empty(),
    }
}

/// The requirements as text for a reader: a title, then the font, spacing,
/// margins, citation, abstract and reference sections that are given,
/// trimmed. Headings and figures are not shown.
pub open spec fn requirements_text(r: GuidelineFormatRequirements) -> Seq<char> {
    trim(
        "## 论文格式要求\n\n"@ + font_section(r.font) + spacing_section(r.spacing)
            + margins_section(r.margins) + citations_section(r.citations)
            + abstract_section(r.abstract_spec) + references_section(r.references),
    )
}

fn push_opt_line(out: &mut String, v: &Option<String>, label: &str, tail: &str)
    ensures
        final(out)@ == old(out)@ + opt_line(*v, label@, tail@),
{
    if let Some(x) = v {
        out.append(label);
        out.append(x.as_str());
        out.append(tail);
    }
    assert(final(out)@ =~= old(out)@ + opt_line(*v, label@, tail@));
}

fn push_font_section(out: &mut String, f: &Option<FontRequirement>)
    ensures
        final(out)@ == old(out)@ + font_section(*f),
{
    let ghost start = out@;
    if let Some(f) = f {
        out.append("### 字体要求\n");
        push_opt_line(out, &f.font_family, "- 正文字体：", "\n");
        push_opt_line(out, &f.font_size_body, "- 正文字号：", "pt\n");
        push_opt_line(out, &f.font_size_title, "- 题目字号：", "pt\n");
        push_opt_line(out, &f.font_size_heading1, "- 一级标题字号：", "pt\n");
        out.append("\n");
    }
    assert(out@ =~= start + font_section(*f));
}

fn push_spacing_section(out: &mut String, sp: &Option<SpacingRequirement>)
    ensures
        final(out)@ == old(out)@ + spacing_section(*sp),
{
    let ghost start = out@;
    if let Some(sp) = sp {
        out.append("### 间距要求\n");
        push_opt_line(out, &sp.line_spacing, "- 行距：", " 倍\n");
        let ghost mid = out@;
        if let Some(indent) = &sp.paragraph_indent {
            let unit: &str = match &sp.paragraph_indent_unit {
                Some(u) => u.as_str(),
                None => "字符",
            };
            out.append("- 段落缩进：");
            out.append(indent.as_str());
            out.append(unit);
            out.append("\n");
        }
        assert(out@ =~= mid + opt_line(
            sp.paragraph_indent,
            "- 段落缩进："@,
            or_default(sp.paragraph_indent_unit, "字符"@) + "\n"@,
        ));
        out.append("\n");
    }
    assert(out@ =~= start + spacing_section(*sp));
}

fn push_margin_line(out: &mut String, label: &str, v: &str, unit: &str)
    ensures
        final(out)@ == old(out)@ + margin_line(label@, v@, unit@),
{
    out.append(label);
    out.append(v);
    out.append(unit);
    out.append("\n");
}

fn push_four_margins(out: &mut String, mg: &MarginRequirement, unit: &str)
    ensures
        final(out)@ == old(out)@ + match (mg.top, mg.bottom, mg.left, mg.right) {
            (Some(t), Some(b), Some(l), Some(r)) => margin_lines(t@, b@, l@, r@, unit@),
            _ => Seq::empty(),
        },
{
    let ghost start = out@;
    match (&mg.top, &mg.bottom, &mg.left, &mg.right) {
        (Some(t), Some(b), Some(l), Some(r)) => {
            push_margin_line(out, "- 上：", t.as_str(), unit);
            push_margin_line(out, "- 下：", b.as_str(), unit);
            push_margin_line(out, "- 左：", l.as_str(), unit);
            push_margin_line(out, "- 右：", r.as_str(), unit);
            assert(out@ =~= start + margin_lines(t@, b@, l@, r@, unit@));
        },
        _ => {
            assert(out@ =~= start + Seq::<char>::empty());
        },
    }
}

fn push_margins_section(out: &mut String, mg: &Option<MarginRequirement>)
    ensures
        final(out)@ == old(out)@ + margins_section(*mg),
{
    let ghost start = out@;
    if let Some(mg) = mg {
        out.append("### 页边距要求\n");
        let unit: &str = match &mg.unit {
            Some(u) => u.as_str(),
            None => "cm",
        };
        push_four_margins(out, mg, unit);
        out.append("\n");
    }
    assert(out@ =~= start + margins_section(*mg));
}

fn push_citations_section(out: &mut String, c: &Option<CitationRequirement>)
    ensures
        final(out)@ == old(out)@ + citations_section(*c),
{
    let ghost start = out@;
    if let Some(c) = c {
        out.append("### 引用格式\n");
        push_opt_line(out, &c.citation_style, "- 引用风格：", "\n");
        push_opt_line(out, &c.in_text_format, "- 文中引用：", "\n");
        out.append("\n");
    }
    assert(out@ =~= start + citations_section(*c));
}

fn push_abstract_section(out: &mut String, a: &Option<AbstractRequirement>)
    ensures
        final(out)@ == old(out)@ + abstract_section(*a),
{
    let ghost start = out@;
    if let Some(a) = a {
        out.append("### 摘要要求\n");
        push_opt_line(out, &a.abstract_length, "- 摘要长度：", "\n");
        if a.abstract_keywords_required {
            out.append("- 需要关键词\n");
        }
        out.append("\n");
    }
    assert(out@ =~= start + abstract_section(*a));
}

fn push_references_section(out: &mut String, r: &Option<ReferencesRequirement>)
    ensures
        final(out)@ == old(out)@ + references_section(*r),
{
    let ghost start = out@;
    if let Some(r) = r {
        out.append("### 参考文献要求\n");
        push_opt_line(out, &r.references_title, "- 参考文献标题：", "\n");
        push_opt_line(out, &r.references_ordering, "- 排序方式：", "\n");
        out.append("\n");
    }
    assert(out@ =~= start + references_section(*r));
}

/// The requirements as text for a reader.
pub fn format_requirements_to_text(requirements: &GuidelineFormatRequirements) -> (text: String)
    ensures
        text@ == requirements_text(*requirements),
{
    let mut text = String::new();
    text.append("## 论文格式要求\n\n");
    push_font_section(&mut text, &requirements.font);
    push_spacing_section(&mut text, &requirements.spacing);
    push_margins_section(&mut text, &requirements.margins);
    push_citations_section(&mut text, &requirements.citations);
    push_abstract_section(&mut text, &requirements.abstract_spec);
    push_references_section(&mut text, &requirements.references);
    trim_str(text.as_str()).to_owned()
}


/// A part of the untrimmed requirements text that ends with a
/// non-whitespace character is shown in the text.
#[verifier::spinoff_prover]
proof fn lemma_kept_after_head(before: Seq<char>, m: Seq<char>, after: Seq<char>)
    requires
        m.len() > 0,
        !is_ws(m.last()),
    ensures
        shows(trim("## 论文格式要求\n\n"@ + before + m + after), m),
{
    reveal_strlit("## 论文格式要求\n\n");
    let h = "## 论文格式要求\n\n"@;
    let a = h + before;
    assert(a[0] == '#');
    lemma_trim_keeps(a, m, after);
}

/// A part of a section that ends with a non-whitespace character is shown
/// in the trimmed text.
#[verifier::spinoff_prover]
proof fn lemma_part_shown(pre: Seq<char>, sec: Seq<char>, post: Seq<char>, sb: Seq<char>, m: Seq<char>, sa: Seq<char>)
    requires
        sec == sb + m + sa,
        m.len() > 0,
        !is_ws(m.last()),
    ensures
        shows(trim("## 论文格式要求\n\n"@ + pre + sec + post), m),
{
    let h = "## 论文格式要求\n\n"@;
    assert(h + pre + sec + post =~= h + (pre + sb) + m + (sa + post));
    lemma_kept_after_head(pre + sb, m, sa + post);
}

#[verifier::spinoff_prover]
proof fn lemma_text_around_font(r: GuidelineFormatRequirements)
    ensures
        requirements_text(r) == trim("## 论文格式要求\n\n"@ + (Seq::<char>::empty()) + font_section(r.font) + (spacing_section(r.spacing) + margins_section(r.margins) + citations_section(r.citations) + abstract_section(r.abstract_spec) + references_section(r.references))),
{
    assert("## 论文格式要求\n\n"@ + font_section(r.font) + spacing_section(r.spacing) + margins_section(r.margins) + citations_section(r.citations) + abstract_section(r.abstract_spec) + references_section(r.references) =~= "## 论文格式要求\n\n"@ + (Seq::<char>::empty()) + font_section(r.font) + (spacing_section(r.spacing) + margins_section(r.margins) + citations_section(r.citations) + abstract_section(r.abstract_spec) + references_section(r.references)));
}

proof fn lemma_font_part_shown(r: GuidelineFormatRequirements, sb: Seq<char>, m: Seq<char>, sa: Seq<char>)
    requires
        font_section(r.font) == sb + m + sa,
        m.len() > 0,
        !is_ws(m.last()),
    ensures
        shows(requirements_text(r), m),
{
    lemma_text_around_font(r);
    lemma_part_shown(Seq::<char>::empty(), font_section(r.font), spacing_section(r.spacing) + margins_section(r.margins) + citations_section(r.citations) + abstract_section(r.abstract_spec) + references_section(r.references), sb, m, sa);
}

#[verifier::spinoff_prover]
proof fn lemma_text_around_spacing(r: GuidelineFormatRequirements)
    ensures
        requirements_text(r) == trim("## 论文格式要求\n\n"@ + (font_section(r.font)) + spacing_section(r.spacing) + (margins_section(r.margins) + citations_section(r.citations) + abstract_section(r.abstract_spec) + references_section(r.references))),
{
    assert("## 论文格式要求\n\n"@ + font_section(r.font) + spacing_section(r.spacing) + margins_section(r.margins) + citations_section(r.citations) + abstract_section(r.abstract_spec) + references_section(r.references) =~= "## 论文格式要求\n\n"@ + (font_section(r.font)) + spacing_section(r.spacing) + (margins_section(r.margins) + citations_section(r.citations) + abstract_section(r.abstract_spec) + references_section(r.references)));
}

proof fn lemma_spacing_part_shown(r: GuidelineFormatRequirements, sb: Seq<char>, m: Seq<char>, sa: Seq<char>)
    requires
        spacing_section(r.spacing) == sb + m + sa,
        m.len() > 0,
        !is_ws(m.last()),
    ensures
        shows(requirements_text(r), m),
{
    lemma_text_around_spacing(r);
    lemma_part_shown(font_section(r.font), spacing_section(r.spacing), margins_section(r.margins) + citations_section(r.citations) + abstract_section(r.abstract_spec) + references_section(r.references), sb, m, sa);
}

#[verifier::spinoff_prover]
proof fn lemma_text_around_margins(r: GuidelineFormatRequirements)
    ensures
        requirements_text(r) == trim("## 论文格式要求\n\n"@ + (font_section(r.font) + spacing_section(r.spacing)) + margins_section(r.margins) + (citations_section(r.citations) + abstract_section(r.abstract_spec) + references_section(r.references))),
{
    assert("## 论文格式要求\n\n"@ + font_section(r.font) + spacing_section(r.spacing) + margins_section(r.margins) + citations_section(r.citations) + abstract_section(r.abstract_spec) + references_section(r.references) =~= "## 论文格式要求\n\n"@ + (font_section(r.font) + spacing_section(r.spacing)) + margins_section(r.margins) + (citations_section(r.citations) + abstract_section(r.abstract_spec) + references_section(r.references)));
}

proof fn lemma_margins_part_shown(r: GuidelineFormatRequirements, sb: Seq<char>, m: Seq<char>, sa: Seq<char>)
    requires
        margins_section(r.margins) == sb + m + sa,
        m.len() > 0,
        !is_ws(m.last()),
    ensures
        shows(requirements_text(r), m),
{
    lemma_text_around_margins(r);
    lemma_part_shown(font_section(r.font) + spacing_section(r.spacing), margins_section(r.margins), citations_section(r.citations) + abstract_section(r.abstract_spec) + references_section(r.references), sb, m, sa);
}

#[verifier::spinoff_prover]
proof fn lemma_text_around_citations(r: GuidelineFormatRequirements)
    ensures
        requirements_text(r) == trim("## 论文格式要求\n\n"@ + (font_section(r.font) + spacing_section(r.spacing) + margins_section(r.margins)) + citations_section(r.citations) + (abstract_section(r.abstract_spec) + references_section(r.references))),
{
    assert("## 论文格式要求\n\n"@ + font_section(r.font) + spacing_section(r.spacing) + margins_section(r.margins) + citations_section(r.citations) + abstract_section(r.abstract_spec) + references_section(r.references) =~= "## 论文格式要求\n\n"@ + (font_section(r.font) + spacing_section(r.spacing) + margins_section(r.margins)) + citations_section(r.citations) + (abstract_section(r.abstract_spec) + references_section(r.references)));
}

proof fn lemma_citations_part_shown(r: GuidelineFormatRequirements, sb: Seq<char>, m: Seq<char>, sa: Seq<char>)
    requires
        citations_section(r.citations) == sb + m + sa,
        m.len() > 0,
        !is_ws(m.last()),
    ensures
        shows(requirements_text(r), m),
{
    lemma_text_around_citations(r);
    lemma_part_shown(font_section(r.font) + spacing_section(r.spacing) + margins_section(r.margins), citations_section(r.citations), abstract_section(r.abstract_spec) + references_section(r.references), sb, m, sa);
}

#[verifier::spinoff_prover]
proof fn lemma_text_around_abstract(r: GuidelineFormatRequirements)
    ensures
        requirements_text(r) == trim("## 论文格式要求\n\n"@ + (font_section(r.font) + spacing_section(r.spacing) + margins_section(r.margins) + citations_section(r.citations)) + abstract_section(r.abstract_spec) + (references_section(r.references))),
{
    assert("## 论文格式要求\n\n"@ + font_section(r.font) + spacing_section(r.spacing) + margins_section(r.margins) + citations_section(r.citations) + abstract_section(r.abstract_spec) + references_section(r.references) =~= "## 论文格式要求\n\n"@ + (font_section(r.font) + spacing_section(r.spacing) + margins_section(r.margins) + citations_section(r.citations)) + abstract_section(r.abstract_spec) + (references_section(r.references)));
}

proof fn lemma_abstract_part_shown(r: GuidelineFormatRequirements, sb: Seq<char>, m: Seq<char>, sa: Seq<char>)
    requires
        abstract_section(r.abstract_spec) == sb + m + sa,
        m.len() > 0,
        !is_ws(m.last()),
    ensures
        shows(requirements_text(r), m),
{
    lemma_text_around_abstract(r);
    lemma_part_shown(font_section(r.font) + spacing_section(r.spacing) + margins_section(r.margins) + citations_section(r.citations), abstract_section(r.abstract_spec), references_section(r.references), sb, m, sa);
}

#[verifier::spinoff_prover]
proof fn lemma_text_around_references(r: GuidelineFormatRequirements)
    ensures
        requirements_text(r) == trim("## 论文格式要求\n\n"@ + (font_section(r.font) + spacing_section(r.spacing) + margins_section(r.margins) + citations_section(r.citations) + abstract_section(r.abstract_spec)) + references_section(r.references) + (Seq::<char>::empty())),
{
    assert("## 论文格式要求\n\n"@ + font_section(r.font) + spacing_section(r.spacing) + margins_section(r.margins) + citations_section(r.citations) + abstract_section(r.abstract_spec) + references_section(r.references) =~= "## 论文格式要求\n\n"@ + (font_section(r.font) + spacing_section(r.spacing) + margins_section(r.margins) + citations_section(r.citations) + abstract_section(r.abstract_spec)) + references_section(r.references) + (Seq::<char>::empty()));
}

proof fn lemma_references_part_shown(r: GuidelineFormatRequirements, sb: Seq<char>, m: Seq<char>, sa: Seq<char>)
    requires
        references_section(r.references) == sb + m + sa,
        m.len() > 0,
        !is_ws(m.last()),
    ensures
        shows(requirements_text(r), m),
{
    lemma_text_around_references(r);
    lemma_part_shown(font_section(r.font) + spacing_section(r.spacing) + margins_section(r.margins) + citations_section(r.citations) + abstract_section(r.abstract_spec), references_section(r.references), Seq::<char>::empty(), sb, m, sa);
}

proof fn lemma_font_heading_shown(r: GuidelineFormatRequirements)
    ensures
        r.font is Some ==> shows(requirements_text(r), "### 字体要求"@),
{
    if let Some(v) = r.font {
        reveal_strlit("### 字体要求\n");
        reveal_strlit("### 字体要求");
        reveal_strlit("\n");
        let m = "### 字体要求"@;
        assert(font_section(r.font) =~= Seq::<char>::empty() + m + ("\n"@ + opt_line(v.font_family, "- 正文字体："@, "\n"@) + opt_line(v.font_size_body, "- 正文字号："@, "pt\n"@) + opt_line(v.font_size_title, "- 题目字号："@, "pt\n"@) + opt_line(v.font_size_heading1, "- 一级标题字号："@, "pt\n"@) + "\n"@));
        lemma_font_part_shown(r, Seq::<char>::empty(), m, "\n"@ + opt_line(v.font_family, "- 正文字体："@, "\n"@) + opt_line(v.font_size_body, "- 正文字号："@, "pt\n"@) + opt_line(v.font_size_title, "- 题目字号："@, "pt\n"@) + opt_line(v.font_size_heading1, "- 一级标题字号："@, "pt\n"@) + "\n"@);
    }
}

proof fn lemma_font_font_family_shown(r: GuidelineFormatRequirements)
    ensures
        r.font matches Some(v) ==> (v.font_family matches Some(x) ==> (!is_ws(("- 正文字体："@ + x@).last()) ==> shows(requirements_text(r), "- 正文字体："@ + x@))),
{
    if let Some(v) = r.font {
        if let Some(x) = v.font_family {
            if !is_ws(("- 正文字体："@ + x@).last()) {
                reveal_strlit("- 正文字体：");
                reveal_strlit("\n");
                let m = "- 正文字体："@ + x@;
                assert(font_section(r.font) =~= ("### 字体要求\n"@) + m + ("\n"@ + opt_line(v.font_size_body, "- 正文字号："@, "pt\n"@) + opt_line(v.font_size_title, "- 题目字号："@, "pt\n"@) + opt_line(v.font_size_heading1, "- 一级标题字号："@, "pt\n"@) + "\n"@));
                
                lemma_font_part_shown(r, "### 字体要求\n"@, m, "\n"@ + opt_line(v.font_size_body, "- 正文字号："@, "pt\n"@) + opt_line(v.font_size_title, "- 题目字号："@, "pt\n"@) + opt_line(v.font_size_heading1, "- 一级标题字号："@, "pt\n"@) + "\n"@);
            }
        }
    }
}

proof fn lemma_font_font_size_body_shown(r: GuidelineFormatRequirements)
    ensures
        r.font matches Some(v) ==> (v.font_size_body matches Some(x) ==> shows(requirements_text(r), "- 正文字号："@ + x@ + "pt"@)),
{
    if let Some(v) = r.font {
        if let Some(x) = v.font_size_body {
            if true {
                reveal_strlit("pt\n");
                reveal_strlit("pt");
                reveal_strlit("\n");
                let m = "- 正文字号："@ + x@ + "pt"@;
                assert(font_section(r.font) =~= ("### 字体要求\n"@ + opt_line(v.font_family, "- 正文字体："@, "\n"@)) + m + ("\n"@ + opt_line(v.font_size_title, "- 题目字号："@, "pt\n"@) + opt_line(v.font_size_heading1, "- 一级标题字号："@, "pt\n"@) + "\n"@));
                assert(m.last() == 't');
                lemma_font_part_shown(r, "### 字体要求\n"@ + opt_line(v.font_family, "- 正文字体："@, "\n"@), m, "\n"@ + opt_line(v.font_size_title, "- 题目字号："@, "pt\n"@) + opt_line(v.font_size_heading1, "- 一级标题字号："@, "pt\n"@) + "\n"@);
            }
        }
    }
}

proof fn lemma_font_font_size_title_shown(r: GuidelineFormatRequirements)
    ensures
        r.font matches Some(v) ==> (v.font_size_title matches Some(x) ==> shows(requirements_text(r), "- 题目字号："@ + x@ + "pt"@)),
{
    if let Some(v) = r.font {
        if let Some(x) = v.font_size_title {
            if true {
                reveal_strlit("pt\n");
                reveal_strlit("pt");
                reveal_strlit("\n");
                let m = "- 题目字号："@ + x@ + "pt"@;
                assert(font_section(r.font) =~= ("### 字体要求\n"@ + opt_line(v.font_family, "- 正文字体："@, "\n"@) + opt_line(v.font_size_body, "- 正文字号："@, "pt\n"@)) + m + ("\n"@ + opt_line(v.font_size_heading1, "- 一级标题字号："@, "pt\n"@) + "\n"@));
                assert(m.last() == 't');
                lemma_font_part_shown(r, "### 字体要求\n"@ + opt_line(v.font_family, "- 正文字体："@, "\n"@) + opt_line(v.font_size_body, "- 正文字号："@, "pt\n"@), m, "\n"@ + opt_line(v.font_size_heading1, "- 一级标题字号："@, "pt\n"@) + "\n"@);
            }
        }
    }
}

proof fn lemma_font_font_size_heading1_shown(r: GuidelineFormatRequirements)
    ensures
        r.font matches Some(v) ==> (v.font_size_heading1 matches Some(x) ==> shows(requirements_text(r), "- 一级标题字号："@ + x@ + "pt"@)),
{
    if let Some(v) = r.font {
        if let Some(x) = v.font_size_heading1 {
            if true {
                reveal_strlit("pt\n");
                reveal_strlit("pt");
                reveal_strlit("\n");
                let m = "- 一级标题字号："@ + x@ + "pt"@;
                assert(font_section(r.font) =~= ("### 字体要求\n"@ + opt_line(v.font_family, "- 正文字体："@, "\n"@) + opt_line(v.font_size_body, "- 正文字号："@, "pt\n"@) + opt_line(v.font_size_title, "- 题目字号："@, "pt\n"@)) + m + ("\n"@ + "\n"@));
                assert(m.last() == 't');
                lemma_font_part_shown(r, "### 字体要求\n"@ + opt_line(v.font_family, "- 正文字体："@, "\n"@) + opt_line(v.font_size_body, "- 正文字号："@, "pt\n"@) + opt_line(v.font_size_title, "- 题目字号："@, "pt\n"@), m, "\n"@ + "\n"@);
            }
        }
    }
}

proof fn lemma_spacing_heading_shown(r: GuidelineFormatRequirements)
    ensures
        r.spacing is Some ==> shows(requirements_text(r), "### 间距要求"@),
{
    if let Some(v) = r.spacing {
        reveal_strlit("### 间距要求\n");
        reveal_strlit("### 间距要求");
        reveal_strlit("\n");
        let m = "### 间距要求"@;
        assert(spacing_section(r.spacing) =~= Seq::<char>::empty() + m + ("\n"@ + opt_line(v.line_spacing, "- 行距："@, " 倍\n"@) + opt_line(v.paragraph_indent, "- 段落缩进："@, or_default(v.paragraph_indent_unit, "字符"@) + "\n"@) + "\n"@));
        lemma_spacing_part_shown(r, Seq::<char>::empty(), m, "\n"@ + opt_line(v.line_spacing, "- 行距："@, " 倍\n"@) + opt_line(v.paragraph_indent, "- 段落缩进："@, or_default(v.paragraph_indent_unit, "字符"@) + "\n"@) + "\n"@);
    }
}

proof fn lemma_spacing_line_spacing_shown(r: GuidelineFormatRequirements)
    ensures
        r.spacing matches Some(v) ==> (v.line_spacing matches Some(x) ==> shows(requirements_text(r), "- 行距："@ + x@ + " 倍"@)),
{
    if let Some(v) = r.spacing {
        if let Some(x) = v.line_spacing {
            if true {
                reveal_strlit(" 倍\n");
                reveal_strlit(" 倍");
                reveal_strlit("\n");
                let m = "- 行距："@ + x@ + " 倍"@;
                assert(spacing_section(r.spacing) =~= ("### 间距要求\n"@) + m + ("\n"@ + opt_line(v.paragraph_indent, "- 段落缩进："@, or_default(v.paragraph_indent_unit, "字符"@) + "\n"@) + "\n"@));
                assert(m.last() == '倍');
                lemma_spacing_part_shown(r, "### 间距要求\n"@, m, "\n"@ + opt_line(v.paragraph_indent, "- 段落缩进："@, or_default(v.paragraph_indent_unit, "字符"@) + "\n"@) + "\n"@);
            }
        }
    }
}

proof fn lemma_spacing_paragraph_indent_shown(r: GuidelineFormatRequirements)
    ensures
        r.spacing matches Some(v) ==> (v.paragraph_indent matches Some(x) ==> (!is_ws(("- 段落缩进："@ + x@ + or_default(v.paragraph_indent_unit, "字符"@)).last()) ==> shows(requirements_text(r), "- 段落缩进："@ + x@ + or_default(v.paragraph_indent_unit, "字符"@)))),
{
    if let Some(v) = r.spacing {
        if let Some(x) = v.paragraph_indent {
            if !is_ws(("- 段落缩进："@ + x@ + or_default(v.paragraph_indent_unit, "字符"@)).last()) {
                reveal_strlit("- 段落缩进：");
                reveal_strlit("\n");
                let m = "- 段落缩进："@ + x@ + or_default(v.paragraph_indent_unit, "字符"@);
                assert(spacing_section(r.spacing) =~= ("### 间距要求\n"@ + opt_line(v.line_spacing, "- 行距："@, " 倍\n"@)) + m + ("\n"@ + "\n"@));
                
                lemma_spacing_part_shown(r, "### 间距要求\n"@ + opt_line(v.line_spacing, "- 行距："@, " 倍\n"@), m, "\n"@ + "\n"@);
            }
        }
    }
}

proof fn lemma_citations_heading_shown(r: GuidelineFormatRequirements)
    ensures
        r.citations is Some ==> shows(requirements_text(r), "### 引用格式"@),
{
    if let Some(v) = r.citations {
        reveal_strlit("### 引用格式\n");
        reveal_strlit("### 引用格式");
        reveal_strlit("\n");
        let m = "### 引用格式"@;
        assert(citations_section(r.citations) =~= Seq::<char>::empty() + m + ("\n"@ + opt_line(v.citation_style, "- 引用风格："@, "\n"@) + opt_line(v.in_text_format, "- 文中引用："@, "\n"@) + "\n"@));
        lemma_citations_part_shown(r, Seq::<char>::empty(), m, "\n"@ + opt_line(v.citation_style, "- 引用风格："@, "\n"@) + opt_line(v.in_text_format, "- 文中引用："@, "\n"@) + "\n"@);
    }
}

proof fn lemma_citations_citation_style_shown(r: GuidelineFormatRequirements)
    ensures
        r.citations matches Some(v) ==> (v.citation_style matches Some(x) ==> (!is_ws(("- 引用风格："@ + x@).last()) ==> shows(requirements_text(r), "- 引用风格："@ + x@))),
{
    if let Some(v) = r.citations {
        if let Some(x) = v.citation_style {
            if !is_ws(("- 引用风格："@ + x@).last()) {
                reveal_strlit("- 引用风格：");
                reveal_strlit("\n");
                let m = "- 引用风格："@ + x@;
                assert(citations_section(r.citations) =~= ("### 引用格式\n"@) + m + ("\n"@ + opt_line(v.in_text_format, "- 文中引用："@, "\n"@) + "\n"@));
                
                lemma_citations_part_shown(r, "### 引用格式\n"@, m, "\n"@ + opt_line(v.in_text_format, "- 文中引用："@, "\n"@) + "\n"@);
            }
        }
    }
}

proof fn lemma_citations_in_text_format_shown(r: GuidelineFormatRequirements)
    ensures
        r.citations matches Some(v) ==> (v.in_text_format matches Some(x) ==> (!is_ws(("- 文中引用："@ + x@).last()) ==> shows(requirements_text(r), "- 文中引用："@ + x@))),
{
    if let Some(v) = r.citations {
        if let Some(x) = v.in_text_format {
            if !is_ws(("- 文中引用："@ + x@).last()) {
                reveal_strlit("- 文中引用：");
                reveal_strlit("\n");
                let m = "- 文中引用："@ + x@;
                assert(citations_section(r.citations) =~= ("### 引用格式\n"@ + opt_line(v.citation_style, "- 引用风格："@, "\n"@)) + m + ("\n"@ + "\n"@));
                
                lemma_citations_part_shown(r, "### 引用格式\n"@ + opt_line(v.citation_style, "- 引用风格："@, "\n"@), m, "\n"@ + "\n"@);
            }
        }
    }
}

proof fn lemma_abstract_heading_shown(r: GuidelineFormatRequirements)
    ensures
        r.abstract_spec is Some ==> shows(requirements_text(r), "### 摘要要求"@),
{
    if let Some(v) = r.abstract_spec {
        reveal_strlit("### 摘要要求\n");
        reveal_strlit("### 摘要要求");
        reveal_strlit("\n");
        let m = "### 摘要要求"@;
        assert(abstract_section(r.abstract_spec) =~= Seq::<char>::empty() + m + ("\n"@ + opt_line(v.abstract_length, "- 摘要长度："@, "\n"@) + (if v.abstract_keywords_required { "- 需要关键词\n"@ } else { Seq::<char>::empty() }) + "\n"@));
        lemma_abstract_part_shown(r, Seq::<char>::empty(), m, "\n"@ + opt_line(v.abstract_length, "- 摘要长度："@, "\n"@) + (if v.abstract_keywords_required { "- 需要关键词\n"@ } else { Seq::<char>::empty() }) + "\n"@);
    }
}

proof fn lemma_abstract_abstract_length_shown(r: GuidelineFormatRequirements)
    ensures
        r.abstract_spec matches Some(v) ==> (v.abstract_length matches Some(x) ==> (!is_ws(("- 摘要长度："@ + x@).last()) ==> shows(requirements_text(r), "- 摘要长度："@ + x@))),
{
    if let Some(v) = r.abstract_spec {
        if let Some(x) = v.abstract_length {
            if !is_ws(("- 摘要长度："@ + x@).last()) {
                reveal_strlit("- 摘要长度：");
                reveal_strlit("\n");
                let m = "- 摘要长度："@ + x@;
                assert(abstract_section(r.abstract_spec) =~= ("### 摘要要求\n"@) + m + ("\n"@ + (if v.abstract_keywords_required { "- 需要关键词\n"@ } else { Seq::<char>::empty() }) + "\n"@));
                
                lemma_abstract_part_shown(r, "### 摘要要求\n"@, m, "\n"@ + (if v.abstract_keywords_required { "- 需要关键词\n"@ } else { Seq::<char>::empty() }) + "\n"@);
            }
        }
    }
}

proof fn lemma_abstract_keywords_shown(r: GuidelineFormatRequirements)
    ensures
        r.abstract_spec matches Some(v) ==> (v.abstract_keywords_required ==> shows(requirements_text(r), "- 需要关键词"@)),
{
    if let Some(v) = r.abstract_spec {
        if v.abstract_keywords_required {
            reveal_strlit("- 需要关键词\n");
            reveal_strlit("- 需要关键词");
            reveal_strlit("\n");
            let m = "- 需要关键词"@;
            assert(abstract_section(r.abstract_spec) =~= ("### 摘要要求\n"@ + opt_line(v.abstract_length, "- 摘要长度："@, "\n"@)) + m + ("\n"@ + "\n"@));
            lemma_abstract_part_shown(r, "### 摘要要求\n"@ + opt_line(v.abstract_length, "- 摘要长度："@, "\n"@), m, "\n"@ + "\n"@);
        }
    }
}

proof fn lemma_references_heading_shown(r: GuidelineFormatRequirements)
    ensures
        r.references is Some ==> shows(requirements_text(r), "### 参考文献要求"@),
{
    if let Some(v) = r.references {
        reveal_strlit("### 参考文献要求\n");
        reveal_strlit("### 参考文献要求");
        reveal_strlit("\n");
        let m = "### 参考文献要求"@;
        assert(references_section(r.references) =~= Seq::<char>::empty() + m + ("\n"@ + opt_line(v.references_title, "- 参考文献标题："@, "\n"@) + opt_line(v.references_ordering, "- 排序方式："@, "\n"@) + "\n"@));
        lemma_references_part_shown(r, Seq::<char>::empty(), m, "\n"@ + opt_line(v.references_title, "- 参考文献标题："@, "\n"@) + opt_line(v.references_ordering, "- 排序方式："@, "\n"@) + "\n"@);
    }
}

proof fn lemma_references_references_title_shown(r: GuidelineFormatRequirements)
    ensures
        r.references matches Some(v) ==> (v.references_title matches Some(x) ==> (!is_ws(("- 参考文献标题："@ + x@).last()) ==> shows(requirements_text(r), "- 参考文献标题："@ + x@))),
{
    if let Some(v) = r.references {
        if let Some(x) = v.references_title {
            if !is_ws(("- 参考文献标题："@ + x@).last()) {
                reveal_strlit("- 参考文献标题：");
                reveal_strlit("\n");
                let m = "- 参考文献标题："@ + x@;
                assert(references_section(r.references) =~= ("### 参考文献要求\n"@) + m + ("\n"@ + opt_line(v.references_ordering, "- 排序方式："@, "\n"@) + "\n"@));
                
                lemma_references_part_shown(r, "### 参考文献要求\n"@, m, "\n"@ + opt_line(v.references_ordering, "- 排序方式："@, "\n"@) + "\n"@);
            }
        }
    }
}

proof fn lemma_references_references_ordering_shown(r: GuidelineFormatRequirements)
    ensures
        r.references matches Some(v) ==> (v.references_ordering matches Some(x) ==> (!is_ws(("- 排序方式："@ + x@).last()) ==> shows(requirements_text(r), "- 排序方式："@ + x@))),
{
    if let Some(v) = r.references {
        if let Some(x) = v.references_ordering {
            if !is_ws(("- 排序方式："@ + x@).last()) {
                reveal_strlit("- 排序方式：");
                reveal_strlit("\n");
                let m = "- 排序方式："@ + x@;
                assert(references_section(r.references) =~= ("### 参考文献要求\n"@ + opt_line(v.references_title, "- 参考文献标题："@, "\n"@)) + m + ("\n"@ + "\n"@));
                
                lemma_references_part_shown(r, "### 参考文献要求\n"@ + opt_line(v.references_title, "- 参考文献标题："@, "\n"@), m, "\n"@ + "\n"@);
            }
        }
    }
}

proof fn lemma_margins_heading_shown(r: GuidelineFormatRequirements)
    ensures
        r.margins is Some ==> shows(requirements_text(r), "### 页边距要求"@),
{
    if let Some(v) = r.margins {
        reveal_strlit("### 页边距要求\n");
        reveal_strlit("### 页边距要求");
        reveal_strlit("\n");
        let m = "### 页边距要求"@;
        let body = match (v.top, v.bottom, v.left, v.right) {
            (Some(t), Some(b), Some(l), Some(rt)) => margin_lines(t@, b@, l@, rt@, or_default(v.unit, "cm"@)),
            _ => Seq::<char>::empty(),
        };
        assert(margins_section(r.margins) =~= Seq::<char>::empty() + m + ("\n"@ + body + "\n"@));
        lemma_margins_part_shown(r, Seq::<char>::empty(), m, "\n"@ + body + "\n"@);
    }
}

proof fn lemma_margins_top_shown(r: GuidelineFormatRequirements)
    ensures
        r.margins matches Some(v) ==> (v.top matches Some(t) ==> (v.bottom matches Some(b) ==> (v.left matches Some(l)
            ==> (v.right matches Some(rt) ==> (!is_ws(("- 上："@ + t@ + or_default(v.unit, "cm"@)).last()) ==> shows(requirements_text(r), "- 上："@ + t@ + or_default(v.unit, "cm"@))))))),
{
    if let Some(v) = r.margins {
        if let (Some(t), Some(b), Some(l), Some(rt)) = (v.top, v.bottom, v.left, v.right) {
            if !is_ws(("- 上："@ + t@ + or_default(v.unit, "cm"@)).last()) {
                reveal_strlit("### 页边距要求\n");
                reveal_strlit("\n");
                reveal_strlit("- 上：");
                let m = "- 上："@ + t@ + or_default(v.unit, "cm"@);
                assert(margins_section(r.margins) =~= ("### 页边距要求\n"@) + m + ("\n"@ + margin_line("- 下："@, b@, or_default(v.unit, "cm"@)) + margin_line("- 左："@, l@, or_default(v.unit, "cm"@)) + margin_line("- 右："@, rt@, or_default(v.unit, "cm"@)) + "\n"@));
                lemma_margins_part_shown(r, "### 页边距要求\n"@, m, "\n"@ + margin_line("- 下："@, b@, or_default(v.unit, "cm"@)) + margin_line("- 左："@, l@, or_default(v.unit, "cm"@)) + margin_line("- 右："@, rt@, or_default(v.unit, "cm"@)) + "\n"@);
            }
        }
    }
}

proof fn lemma_margins_bottom_shown(r: GuidelineFormatRequirements)
    ensures
        r.margins matches Some(v) ==> (v.top matches Some(t) ==> (v.bottom matches Some(b) ==> (v.left matches Some(l)
            ==> (v.right matches Some(rt) ==> (!is_ws(("- 下："@ + b@ + or_default(v.unit, "cm"@)).last()) ==> shows(requirements_text(r), "- 下："@ + b@ + or_default(v.unit, "cm"@))))))),
{
    if let Some(v) = r.margins {
        if let (Some(t), Some(b), Some(l), Some(rt)) = (v.top, v.bottom, v.left, v.right) {
            if !is_ws(("- 下："@ + b@ + or_default(v.unit, "cm"@)).last()) {
                reveal_strlit("### 页边距要求\n");
                reveal_strlit("\n");
                reveal_strlit("- 下：");
                let m = "- 下："@ + b@ + or_default(v.unit, "cm"@);
                assert(margins_section(r.margins) =~= ("### 页边距要求\n"@ + margin_line("- 上："@, t@, or_default(v.unit, "cm"@))) + m + ("\n"@ + margin_line("- 左："@, l@, or_default(v.unit, "cm"@)) + margin_line("- 右："@, rt@, or_default(v.unit, "cm"@)) + "\n"@));
                lemma_margins_part_shown(r, "### 页边距要求\n"@ + margin_line("- 上："@, t@, or_default(v.unit, "cm"@)), m, "\n"@ + margin_line("- 左："@, l@, or_default(v.unit, "cm"@)) + margin_line("- 右："@, rt@, or_default(v.unit, "cm"@)) + "\n"@);
            }
        }
    }
}

proof fn lemma_margins_left_shown(r: GuidelineFormatRequirements)
    ensures
        r.margins matches Some(v) ==> (v.top matches Some(t) ==> (v.bottom matches Some(b) ==> (v.left matches Some(l)
            ==> (v.right matches Some(rt) ==> (!is_ws(("- 左："@ + l@ + or_default(v.unit, "cm"@)).last()) ==> shows(requirements_text(r), "- 左："@ + l@ + or_default(v.unit, "cm"@))))))),
{
    if let Some(v) = r.margins {
        if let (Some(t), Some(b), Some(l), Some(rt)) = (v.top, v.bottom, v.left, v.right) {
            if !is_ws(("- 左："@ + l@ + or_default(v.unit, "cm"@)).last()) {
                reveal_strlit("### 页边距要求\n");
                reveal_strlit("\n");
                reveal_strlit("- 左：");
                let m = "- 左："@ + l@ + or_default(v.unit, "cm"@);
                assert(margins_section(r.margins) =~= ("### 页边距要求\n"@ + margin_line("- 上："@, t@, or_default(v.unit, "cm"@)) + margin_line("- 下："@, b@, or_default(v.unit, "cm"@))) + m + ("\n"@ + margin_line("- 右："@, rt@, or_default(v.unit, "cm"@)) + "\n"@));
                lemma_margins_part_shown(r, "### 页边距要求\n"@ + margin_line("- 上："@, t@, or_default(v.unit, "cm"@)) + margin_line("- 下："@, b@, or_default(v.unit, "cm"@)), m, "\n"@ + margin_line("- 右："@, rt@, or_default(v.unit, "cm"@)) + "\n"@);
            }
        }
    }
}

proof fn lemma_margins_right_shown(r: GuidelineFormatRequirements)
    ensures
        r.margins matches Some(v) ==> (v.top matches Some(t) ==> (v.bottom matches Some(b) ==> (v.left matches Some(l)
            ==> (v.right matches Some(rt) ==> (!is_ws(("- 右："@ + rt@ + or_default(v.unit, "cm"@)).last()) ==> shows(requirements_text(r), "- 右："@ + rt@ + or_default(v.unit, "cm"@))))))),
{
    if let Some(v) = r.margins {
        if let (Some(t), Some(b), Some(l), Some(rt)) = (v.top, v.bottom, v.left, v.right) {
            if !is_ws(("- 右："@ + rt@ + or_default(v.unit, "cm"@)).last()) {
                reveal_strlit("### 页边距要求\n");
                reveal_strlit("\n");
                reveal_strlit("- 右：");
                let m = "- 右："@ + rt@ + or_default(v.unit, "cm"@);
                assert(margins_section(r.margins) =~= ("### 页边距要求\n"@ + margin_line("- 上："@, t@, or_default(v.unit, "cm"@)) + margin_line("- 下："@, b@, or_default(v.unit, "cm"@)) + margin_line("- 左："@, l@, or_default(v.unit, "cm"@))) + m + ("\n"@ + "\n"@));
                lemma_margins_part_shown(r, "### 页边距要求\n"@ + margin_line("- 上："@, t@, or_default(v.unit, "cm"@)) + margin_line("- 下："@, b@, or_default(v.unit, "cm"@)) + margin_line("- 左："@, l@, or_default(v.unit, "cm"@)), m, "\n"@ + "\n"@);
            }
        }
    }
}

/// Every requirement given in the font section: its heading, the body font, and the body, title and first-level heading sizes (in points) is shown in the requirements
/// text, each line up to its last non-whitespace character (a value that
/// ends in whitespace may lose that whitespace where nothing follows it).
pub proof fn lemma_font_section_shown(r: GuidelineFormatRequirements)
    ensures
        r.font is Some ==> shows(requirements_text(r), "### 字体要求"@),
        r.font matches Some(v) ==> (v.font_family matches Some(x) ==> (!is_ws(("- 正文字体："@ + x@).last()) ==> shows(requirements_text(r), "- 正文字体："@ + x@))),
        r.font matches Some(v) ==> (v.font_size_body matches Some(x) ==> shows(requirements_text(r), "- 正文字号："@ + x@ + "pt"@)),
        r.font matches Some(v) ==> (v.font_size_title matches Some(x) ==> shows(requirements_text(r), "- 题目字号："@ + x@ + "pt"@)),
        r.font matches Some(v) ==> (v.font_size_heading1 matches Some(x) ==> shows(requirements_text(r), "- 一级标题字号："@ + x@ + "pt"@)),
{
    lemma_font_heading_shown(r);
    lemma_font_font_family_shown(r);
    lemma_font_font_size_body_shown(r);
    lemma_font_font_size_title_shown(r);
    lemma_font_font_size_heading1_shown(r);
}

/// Every requirement given in the spacing section: its heading, the line spacing (as a multiple) and the paragraph indent in its unit (characters when none is given) is shown in the requirements
/// text, each line up to its last non-whitespace character (a value that
/// ends in whitespace may lose that whitespace where nothing follows it).
pub proof fn lemma_spacing_section_shown(r: GuidelineFormatRequirements)
    ensures
        r.spacing is Some ==> shows(requirements_text(r), "### 间距要求"@),
        r.spacing matches Some(v) ==> (v.line_spacing matches Some(x) ==> shows(requirements_text(r), "- 行距："@ + x@ + " 倍"@)),
        r.spacing matches Some(v) ==> (v.paragraph_indent matches Some(x) ==> (!is_ws(("- 段落缩进："@ + x@ + or_default(v.paragraph_indent_unit, "字符"@)).last()) ==> shows(requirements_text(r), "- 段落缩进："@ + x@ + or_default(v.paragraph_indent_unit, "字符"@)))),
{
    lemma_spacing_heading_shown(r);
    lemma_spacing_line_spacing_shown(r);
    lemma_spacing_paragraph_indent_shown(r);
}

/// Every requirement given in the margins section: its heading and, when all four margins are given, each margin in its unit (centimetres when none is given) is shown in the requirements
/// text, each line up to its last non-whitespace character (a value that
/// ends in whitespace may lose that whitespace where nothing follows it).
pub proof fn lemma_margins_section_shown(r: GuidelineFormatRequirements)
    ensures
        r.margins is Some ==> shows(requirements_text(r), "### 页边距要求"@),
        r.margins matches Some(v) ==> (v.top matches Some(t) ==> (v.bottom matches Some(b) ==> (v.left matches Some(l) ==> (v.right matches Some(rt) ==> (!is_ws(("- 上："@ + t@ + or_default(v.unit, "cm"@)).last()) ==> shows(requirements_text(r), "- 上："@ + t@ + or_default(v.unit, "cm"@))))))),
        r.margins matches Some(v) ==> (v.top matches Some(t) ==> (v.bottom matches Some(b) ==> (v.left matches Some(l) ==> (v.right matches Some(rt) ==> (!is_ws(("- 下："@ + b@ + or_default(v.unit, "cm"@)).last()) ==> shows(requirements_text(r), "- 下："@ + b@ + or_default(v.unit, "cm"@))))))),
        r.margins matches Some(v) ==> (v.top matches Some(t) ==> (v.bottom matches Some(b) ==> (v.left matches Some(l) ==> (v.right matches Some(rt) ==> (!is_ws(("- 左："@ + l@ + or_default(v.unit, "cm"@)).last()) ==> shows(requirements_text(r), "- 左："@ + l@ + or_default(v.unit, "cm"@))))))),
        r.margins matches Some(v) ==> (v.top matches Some(t) ==> (v.bottom matches Some(b) ==> (v.left matches Some(l) ==> (v.right matches Some(rt) ==> (!is_ws(("- 右："@ + rt@ + or_default(v.unit, "cm"@)).last()) ==> shows(requirements_text(r), "- 右："@ + rt@ + or_default(v.unit, "cm"@))))))),
{
    lemma_margins_heading_shown(r);
    lemma_margins_top_shown(r);
    lemma_margins_bottom_shown(r);
    lemma_margins_left_shown(r);
    lemma_margins_right_shown(r);
}

/// Every requirement given in the citations section: its heading, the citation style and the in-text citation form is shown in the requirements
/// text, each line up to its last non-whitespace character (a value that
/// ends in whitespace may lose that whitespace where nothing follows it).
pub proof fn lemma_citations_section_shown(r: GuidelineFormatRequirements)
    ensures
        r.citations is Some ==> shows(requirements_text(r), "### 引用格式"@),
        r.citations matches Some(v) ==> (v.citation_style matches Some(x) ==> (!is_ws(("- 引用风格："@ + x@).last()) ==> shows(requirements_text(r), "- 引用风格："@ + x@))),
        r.citations matches Some(v) ==> (v.in_text_format matches Some(x) ==> (!is_ws(("- 文中引用："@ + x@).last()) ==> shows(requirements_text(r), "- 文中引用："@ + x@))),
{
    lemma_citations_heading_shown(r);
    lemma_citations_citation_style_shown(r);
    lemma_citations_in_text_format_shown(r);
}

/// Every requirement given in the abstract section: its heading, the abstract length and whether keywords are required is shown in the requirements
/// text, each line up to its last non-whitespace character (a value that
/// ends in whitespace may lose that whitespace where nothing follows it).
pub proof fn lemma_abstract_section_shown(r: GuidelineFormatRequirements)
    ensures
        r.abstract_spec is Some ==> shows(requirements_text(r), "### 摘要要求"@),
        r.abstract_spec matches Some(v) ==> (v.abstract_length matches Some(x) ==> (!is_ws(("- 摘要长度："@ + x@).last()) ==> shows(requirements_text(r), "- 摘要长度："@ + x@))),
        r.abstract_spec matches Some(v) ==> (v.abstract_keywords_required ==> shows(requirements_text(r), "- 需要关键词"@)),
{
    lemma_abstract_heading_shown(r);
    lemma_abstract_abstract_length_shown(r);
    lemma_abstract_keywords_shown(r);
}

/// Every requirement given in the references section: its heading, the reference list title and its ordering is shown in the requirements
/// text, each line up to its last non-whitespace character (a value that
/// ends in whitespace may lose that whitespace where nothing follows it).
pub proof fn lemma_references_section_shown(r: GuidelineFormatRequirements)
    ensures
        r.references is Some ==> shows(requirements_text(r), "### 参考文献要求"@),
        r.references matches Some(v) ==> (v.references_title matches Some(x) ==> (!is_ws(("- 参考文献标题："@ + x@).last()) ==> shows(requirements_text(r), "- 参考文献标题："@ + x@))),
        r.references matches Some(v) ==> (v.references_ordering matches Some(x) ==> (!is_ws(("- 排序方式："@ + x@).last()) ==> shows(requirements_text(r), "- 排序方式："@ + x@))),
{
    lemma_references_heading_shown(r);
    lemma_references_references_title_shown(r);
    lemma_references_references_ordering_shown(r);
}

/// The requirements text neither starts nor ends with whitespace.
pub proof fn lemma_requirements_text_trimmed(r: GuidelineFormatRequirements)
    ensures
        trim(requirements_text(r)) == requirements_text(r),
{
    crate::text::lemma_trim_trimmed(
        "## 论文格式要求\n\n"@ + font_section(r.font) + spacing_section(r.spacing) + margins_section(
            r.margins,
        ) + citations_section(r.citations) + abstract_section(r.abstract_spec) + references_section(
            r.references,
        ),
    );
}

} // verus!
