//! Paper format checking: reading Word, PDF and plain-text papers into one
//! document shape, comparing their format against requirements, and building
//! the requests and reports of a format check by a language model.
use vstd::prelude::*;
use vstd::string::*;

pub mod text;
pub mod docx_parser;
pub mod pdf_parser;
pub mod llm;
pub mod format_compare;

use crate::text::{
    bytes, bytes_seq, lines, lines_of, join, word_count, count_words, lowercase, to_lowercase,
    str_eq,
};
use crate::docx_parser::{WordDocument, WordParagraph, WordStyle, chars, utf8};
use crate::pdf_parser::{PdfDocument, PdfPage, PdfFontInfo};

verus! {

broadcast use vstd::utf8::encode_utf8_valid_utf8;

/// The characters of an optional string.
pub open spec fn opt_chars(s: Option<String>) -> Option<Seq<char>> {
    match s {
        Some(x) => Some(x@),
        None => None,
    }
}

/// A paragraph of a parsed document. `font_size` is the size attribute of its
/// first run (half points) and `line_spacing` its line-spacing attribute
/// (240ths of a line), each as written in the document.
#[derive(Clone, Debug)]
pub struct ParsedParagraph {
    pub index: usize,
    pub text: String,
    pub style_name: Option<String>,
    pub font_name: Option<String>,
    pub font_size: Option<String>,
    pub line_spacing: Option<String>,
}

/// The characters of a parsed paragraph.
pub struct ParsedParagraphModel {
    pub index: usize,
    pub text: Seq<char>,
    pub style_name: Option<Seq<char>>,
    pub font_name: Option<Seq<char>>,
    pub font_size: Option<Seq<char>>,
    pub line_spacing: Option<Seq<char>>,
}

impl View for ParsedParagraph {
    type V = ParsedParagraphModel;

    open spec fn view(&self) -> ParsedParagraphModel {
        ParsedParagraphModel {
            index: self.index,
            text: self.text@,
            style_name: opt_chars(self.style_name),
            font_name: opt_chars(self.font_name),
            font_size: opt_chars(self.font_size),
            line_spacing: opt_chars(self.line_spacing),
        }
    }
}

/// Counts, title and author of a document.
#[derive(Clone, Debug)]
pub struct DocumentMetadata {
    pub page_count: usize,
    pub word_count: usize,
    pub title: Option<String>,
    pub author: Option<String>,
}

/// The characters of document metadata.
pub struct DocumentMetadataModel {
    pub page_count: usize,
    pub word_count: usize,
    pub title: Option<Seq<char>>,
    pub author: Option<Seq<char>>,
}

impl View for DocumentMetadata {
    type V = DocumentMetadataModel;

    open spec fn view(&self) -> DocumentMetadataModel {
        DocumentMetadataModel {
            page_count: self.page_count,
            word_count: self.word_count,
            title: opt_chars(self.title),
            author: opt_chars(self.author),
        }
    }
}

/// A style named in a document; `font_size` is its size attribute (half
/// points) as written.
#[derive(Clone, Debug)]
pub struct StyleSummary {
    pub name: String,
    pub font_name: Option<String>,
    pub font_size: Option<String>,
    pub is_bold: bool,
    pub alignment: Option<String>,
}

/// The characters of a style summary.
pub struct StyleSummaryModel {
    pub name: Seq<char>,
    pub font_name: Option<Seq<char>>,
    pub font_size: Option<Seq<char>>,
    pub is_bold: bool,
    pub alignment: Option<Seq<char>>,
}

impl View for StyleSummary {
    type V = StyleSummaryModel;

    open spec fn view(&self) -> StyleSummaryModel {
        StyleSummaryModel {
            name: self.name@,
            font_name: opt_chars(self.font_name),
            font_size: opt_chars(self.font_size),
            is_bold: self.is_bold,
            alignment: opt_chars(self.alignment),
        }
    }
}

/// What kind of file a document came from, and what is known of its format.
#[derive(Clone, Debug)]
pub struct FormatInfo {
    pub file_type: String,
    pub styles: Vec<StyleSummary>,
    pub fonts: Vec<String>,
    pub has_toc: bool,
    pub has_bibliography: bool,
}

/// The characters of format information.
pub struct FormatInfoModel {
    pub file_type: Seq<char>,
    pub styles: Seq<StyleSummaryModel>,
    pub fonts: Seq<Seq<char>>,
    pub has_toc: bool,
    pub has_bibliography: bool,
}

impl View for FormatInfo {
    type V = FormatInfoModel;

    open spec fn view(&self) -> FormatInfoModel {
        FormatInfoModel {
            file_type: self.file_type@,
            styles: self.styles@.map_values(|s: StyleSummary| s@),
            fonts: self.fonts@.map_values(|f: String| f@),
            has_toc: self.has_toc,
            has_bibliography: self.has_bibliography,
        }
    }
}

/// A document read from a Word, PDF or text file.
#[derive(Clone, Debug)]
pub struct ParsedDocument {
    pub content: String,
    pub paragraphs: Vec<ParsedParagraph>,
    pub metadata: DocumentMetadata,
    pub format_info: FormatInfo,
}

/// The characters of a parsed document.
pub struct ParsedDocumentModel {
    pub content: Seq<char>,
    pub paragraphs: Seq<ParsedParagraphModel>,
    pub metadata: DocumentMetadataModel,
    pub format_info: FormatInfoModel,
}

impl View for ParsedDocument {
    type V = ParsedDocumentModel;

    open spec fn view(&self) -> ParsedDocumentModel {
        ParsedDocumentModel {
            content: self.content@,
            paragraphs: self.paragraphs@.map_values(|p: ParsedParagraph| p@),
            metadata: self.metadata@,
            format_info: self.format_info@,
        }
    }
}

// ---------------------------------------------------------------------------
// From a Word document
// ---------------------------------------------------------------------------

/// A Word paragraph as a parsed paragraph: its font and size are those of
/// its first run.
pub open spec fn docx_paragraph(p: WordParagraph) -> ParsedParagraphModel {
    ParsedParagraphModel {
        index: p.index,
        text: p.text@,
        style_name: opt_chars(p.style_name),
        font_name: if p.runs@.len() > 0 {
            opt_chars(p.runs@[0].font_name)
        } else {
            None
        },
        font_size: if p.runs@.len() > 0 {
            opt_chars(p.runs@[0].font_size)
        } else {
            None
        },
        line_spacing: opt_chars(p.formatting.line_spacing),
    }
}

/// A Word style as a style summary: named by its name, else by its id.
pub open spec fn docx_style(s: WordStyle) -> StyleSummaryModel {
    StyleSummaryModel {
        name: match s.name {
            Some(n) => n@,
            None => s.id@,
        },
        font_name: match s.run_formatting {
            Some(r) => opt_chars(r.font_name),
            None => None,
        },
        font_size: match s.run_formatting {
            Some(r) => opt_chars(r.font_size),
            None => None,
        },
        is_bold: match s.run_formatting {
            Some(r) => r.is_bold,
            None => false,
        },
        alignment: match s.paragraph_formatting {
            Some(p) => opt_chars(p.alignment),
            None => None,
        },
    }
}

/// A Word document as a parsed document: its paragraphs' texts, one per
/// line, its paragraphs and styles, and its counts (one page and no words
/// where unknown).
pub open spec fn docx_parsed(doc: WordDocument) -> ParsedDocumentModel {
    ParsedDocumentModel {
        content: join(doc.paragraphs@.map_values(|p: WordParagraph| p.text@), "\n"@),
        paragraphs: doc.paragraphs@.map_values(|p: WordParagraph| docx_paragraph(p)),
        metadata: DocumentMetadataModel {
            page_count: match doc.properties.page_count {
                Some(n) => n,
                None => 1,
            },
            word_count: match doc.properties.word_count {
                Some(n) => n,
                None => 0,
            },
            title: opt_chars(doc.properties.title),
            author: opt_chars(doc.properties.author),
        },
        format_info: FormatInfoModel {
            file_type: "docx"@,
            styles: doc.styles@.map_values(|s: WordStyle| docx_style(s)),
            fonts: Seq::empty(),
            has_toc: false,
            has_bibliography: false,
        },
    }
}

fn clone_opt(s: &Option<String>) -> (r: Option<String>)
    ensures
        opt_chars(r) == opt_chars(*s),
{
    match s {
        Some(x) => Some(x.clone()),
        None => None,
    }
}

/// Appends `parts[i]`, after a newline unless it is the first part.
fn push_joined(out: &mut String, i: usize, part: &str, Ghost(parts): Ghost<Seq<Seq<char>>>)
    requires
        i < parts.len(),
        parts[i as int] == part@,
        old(out)@ == join(parts.take(i as int), "\n"@),
    ensures
        final(out)@ == join(parts.take(i + 1), "\n"@),
{
    if i > 0 {
        out.append("\n");
    }
    out.append(part);
    proof {
        let t = parts.take(i + 1);
        assert(t.drop_last() =~= parts.take(i as int));
        if i == 0 {
            assert(t.len() == 1);
            assert(final(out)@ =~= t[0]);
        }
    }
}

fn docx_paragraph_exec(p: &WordParagraph) -> (r: ParsedParagraph)
    ensures
        r@ == docx_paragraph(*p),
{
    let (font_name, font_size) = if p.runs.len() > 0 {
        (clone_opt(&p.runs[0].font_name), clone_opt(&p.runs[0].font_size))
    } else {
        (None, None)
    };
    ParsedParagraph {
        index: p.index,
        text: p.text.clone(),
        style_name: clone_opt(&p.style_name),
        font_name,
        font_size,
        line_spacing: clone_opt(&p.formatting.line_spacing),
    }
}

fn docx_style_exec(s: &WordStyle) -> (r: StyleSummary)
    ensures
        r@ == docx_style(*s),
{
    let name = match &s.name {
        Some(n) => n.clone(),
        None => s.id.clone(),
    };
    let (font_name, font_size, is_bold) = match &s.run_formatting {
        Some(r) => (clone_opt(&r.font_name), clone_opt(&r.font_size), r.is_bold),
        None => (None, None, false),
    };
    let alignment = match &s.paragraph_formatting {
        Some(p) => clone_opt(&p.alignment),
        None => None,
    };
    StyleSummary { name, font_name, font_size, is_bold, alignment }
}

/// A Word document in the shape shared by all file types.
pub fn parsed_from_docx(doc: &WordDocument) -> (r: ParsedDocument)
    ensures
        r@ == docx_parsed(*doc),
{
    let ghost texts = doc.paragraphs@.map_values(|p: WordParagraph| p.text@);
    let mut content = String::new();
    let mut paragraphs: Vec<ParsedParagraph> = Vec::new();
    let mut i: usize = 0;
    while i < doc.paragraphs.len()
        invariant
            i <= doc.paragraphs@.len(),
            texts == doc.paragraphs@.map_values(|p: WordParagraph| p.text@),
            content@ == join(texts.take(i as int), "\n"@),
            paragraphs@.len() == i,
            forall|k: int| 0 <= k < i ==> (#[trigger] paragraphs@[k])@ == docx_paragraph(doc.paragraphs@[k]),
        decreases doc.paragraphs@.len() - i,
    {
        push_joined(&mut content, i, doc.paragraphs[i].text.as_str(), Ghost(texts));
        paragraphs.push(docx_paragraph_exec(&doc.paragraphs[i]));
        i = i + 1;
    }
    proof {
        assert(texts.take(doc.paragraphs@.len() as int) =~= texts);
    }
    let mut styles: Vec<StyleSummary> = Vec::new();
    let mut k: usize = 0;
    while k < doc.styles.len()
        invariant
            k <= doc.styles@.len(),
            styles@.len() == k,
            forall|j: int| 0 <= j < k ==> (#[trigger] styles@[j])@ == docx_style(doc.styles@[j]),
        decreases doc.styles@.len() - k,
    {
        styles.push(docx_style_exec(&doc.styles[k]));
        k = k + 1;
    }
    let page_count = match doc.properties.page_count {
        Some(n) => n,
        None => 1,
    };
    let word_count = match doc.properties.word_count {
        Some(n) => n,
        None => 0,
    };
    let r = ParsedDocument {
        content,
        paragraphs,
        metadata: DocumentMetadata {
            page_count,
            word_count,
            title: clone_opt(&doc.properties.title),
            author: clone_opt(&doc.properties.author),
        },
        format_info: FormatInfo {
            file_type: "docx".to_owned(),
            styles,
            fonts: Vec::new(),
            has_toc: false,
            has_bibliography: false,
        },
    };
    assert(r@.paragraphs =~= docx_parsed(*doc).paragraphs);
    assert(r@.format_info.styles =~= docx_parsed(*doc).format_info.styles);
    assert(r@.format_info.fonts =~= docx_parsed(*doc).format_info.fonts);
    r
}

// ---------------------------------------------------------------------------
// From lines of text (PDF pages, plain text)
// ---------------------------------------------------------------------------

/// The lines as paragraphs numbered from 0, with nothing known of their format.
pub open spec fn line_paragraphs(ls: Seq<Seq<u8>>) -> Seq<ParsedParagraphModel> {
    Seq::new(
        ls.len(),
        |i: int|
            ParsedParagraphModel {
                index: i as usize,
                text: chars(ls[i]),
                style_name: None,
                font_name: None,
                font_size: None,
                line_spacing: None,
            },
    )
}

/// The paragraphs of the first `k` pages: each page's lines, numbered from 0
/// within the page.
pub open spec fn pages_paragraphs(ps: Seq<PdfPage>, k: int) -> Seq<ParsedParagraphModel>
    decreases k,
{
    if k <= 0 {
        Seq::empty()
    } else {
        pages_paragraphs(ps, k - 1) + line_paragraphs(lines(utf8(ps[k - 1].text)))
    }
}

/// The base fonts named among the first `k` fonts.
pub open spec fn base_fonts(fs: Seq<PdfFontInfo>, k: int) -> Seq<Seq<char>>
    decreases k,
{
    if k <= 0 {
        Seq::empty()
    } else {
        base_fonts(fs, k - 1) + match fs[k - 1].base_font {
            Some(b) => seq![b@],
            None => Seq::empty(),
        }
    }
}

/// A PDF document as a parsed document: its pages' texts, one per line, each
/// line of each page as a paragraph, and the base fonts it names.
pub open spec fn pdf_parsed(doc: PdfDocument) -> ParsedDocumentModel {
    ParsedDocumentModel {
        content: join(doc.pages@.map_values(|p: PdfPage| p.text@), "\n"@),
        paragraphs: pages_paragraphs(doc.pages@, doc.pages@.len() as int),
        metadata: DocumentMetadataModel {
            page_count: doc.metadata.page_count,
            word_count: doc.metadata.word_count,
            title: opt_chars(doc.metadata.title),
            author: opt_chars(doc.metadata.author),
        },
        format_info: FormatInfoModel {
            file_type: "pdf"@,
            styles: Seq::empty(),
            fonts: base_fonts(doc.fonts@, doc.fonts@.len() as int),
            has_toc: false,
            has_bibliography: false,
        },
    }
}

/// The parsed paragraphs of the lines of `text`.
fn line_paragraphs_exec(text: &str, out: &mut Vec<ParsedParagraph>)
    ensures
        final(out)@.map_values(|p: ParsedParagraph| p@) == old(out)@.map_values(
            |p: ParsedParagraph| p@,
        ) + line_paragraphs(lines(bytes(text))),
{
    let ls = lines_of(text);
    let ghost lb = bytes_seq(ls@);
    let ghost start = out@.map_values(|p: ParsedParagraph| p@);
    let mut i: usize = 0;
    while i < ls.len()
        invariant
            i <= ls@.len(),
            lb == bytes_seq(ls@),
            lb == lines(bytes(text)),
            out@.map_values(|p: ParsedParagraph| p@) == start + line_paragraphs(lb).take(i as int),
        decreases ls@.len() - i,
    {
        proof {
            broadcast use vstd::utf8::encode_utf8_decode_utf8;
            assert(lb[i as int] == bytes(ls@[i as int]));
            assert(chars(lb[i as int]) == ls@[i as int]@);
        }
        let ghost before = out@.map_values(|p: ParsedParagraph| p@);
        let p = ParsedParagraph {
            index: i,
            text: ls[i].to_owned(),
            style_name: None,
            font_name: None,
            font_size: None,
            line_spacing: None,
        };
        out.push(p);
        proof {
            assert(out@.map_values(|p: ParsedParagraph| p@) =~= before.push(p@));
            assert(start + line_paragraphs(lb).take(i + 1) =~= start + line_paragraphs(lb).take(
                i as int,
            ) + seq![line_paragraphs(lb)[i as int]]);
        }
        i = i + 1;
    }
    proof {
        assert(line_paragraphs(lb).take(ls@.len() as int) =~= line_paragraphs(lb));
    }
}

/// A PDF document in the shape shared by all file types.
pub fn parsed_from_pdf(doc: &PdfDocument) -> (r: ParsedDocument)
    ensures
        r@ == pdf_parsed(*doc),
{
    let ghost texts = doc.pages@.map_values(|p: PdfPage| p.text@);
    let mut content = String::new();
    let mut paragraphs: Vec<ParsedParagraph> = Vec::new();
    let mut i: usize = 0;
    while i < doc.pages.len()
        invariant
            i <= doc.pages@.len(),
            texts == doc.pages@.map_values(|p: PdfPage| p.text@),
            content@ == join(texts.take(i as int), "\n"@),
            paragraphs@.map_values(|p: ParsedParagraph| p@) == pages_paragraphs(doc.pages@, i as int),
        decreases doc.pages@.len() - i,
    {
        push_joined(&mut content, i, doc.pages[i].text.as_str(), Ghost(texts));
        line_paragraphs_exec(doc.pages[i].text.as_str(), &mut paragraphs);
        i = i + 1;
    }
    proof {
        assert(texts.take(doc.pages@.len() as int) =~= texts);
    }
    let mut fonts: Vec<String> = Vec::new();
    let mut k: usize = 0;
    while k < doc.fonts.len()
        invariant
            k <= doc.fonts@.len(),
            fonts@.map_values(|f: String| f@) == base_fonts(doc.fonts@, k as int),
        decreases doc.fonts@.len() - k,
    {
        let ghost before = fonts@.map_values(|f: String| f@);
        match &doc.fonts[k].base_font {
            Some(b) => {
                fonts.push(b.clone());
                assert(fonts@.map_values(|f: String| f@) =~= before.push(b@));
            },
            None => {
                assert(fonts@.map_values(|f: String| f@) =~= before + Seq::<Seq<char>>::empty());
            },
        }
        k = k + 1;
    }
    let r = ParsedDocument {
        content,
        paragraphs,
        metadata: DocumentMetadata {
            page_count: doc.metadata.page_count,
            word_count: doc.metadata.word_count,
            title: clone_opt(&doc.metadata.title),
            author: clone_opt(&doc.metadata.author),
        },
        format_info: FormatInfo {
            file_type: "pdf".to_owned(),
            styles: Vec::new(),
            fonts,
            has_toc: false,
            has_bibliography: false,
        },
    };
    assert(r@.format_info.styles =~= pdf_parsed(*doc).format_info.styles);
    r
}

/// A plain-text document as a parsed document: its content, each line as a
/// paragraph, one page, and its words counted.
pub open spec fn text_parsed(content: String) -> ParsedDocumentModel {
    ParsedDocumentModel {
        content: content@,
        paragraphs: line_paragraphs(lines(utf8(content))),
        metadata: DocumentMetadataModel {
            page_count: 1,
            word_count: word_count(content@) as usize,
            title: None,
            author: None,
        },
        format_info: FormatInfoModel {
            file_type: "txt"@,
            styles: Seq::empty(),
            fonts: Seq::empty(),
            has_toc: false,
            has_bibliography: false,
        },
    }
}

/// A plain-text document in the shape shared by all file types.
pub fn parsed_from_text(content: String) -> (r: ParsedDocument)
    ensures
        r@ == text_parsed(content),
{
    let word_count = count_words(content.as_str());
    let mut paragraphs: Vec<ParsedParagraph> = Vec::new();
    line_paragraphs_exec(content.as_str(), &mut paragraphs);
    assert(paragraphs@.map_values(|p: ParsedParagraph| p@) =~= line_paragraphs(lines(utf8(content))));
    let r = ParsedDocument {
        content,
        paragraphs,
        metadata: DocumentMetadata { page_count: 1, word_count, title: None, author: None },
        format_info: FormatInfo {
            file_type: "txt".to_owned(),
            styles: Vec::new(),
            fonts: Vec::new(),
            has_toc: false,
            has_bibliography: false,
        },
    };
    assert(r@.format_info.styles =~= text_parsed(r.content).format_info.styles);
    assert(r@.format_info.fonts =~= text_parsed(r.content).format_info.fonts);
    r
}


// ---------------------------------------------------------------------------
// Results of a format check
// ---------------------------------------------------------------------------

/// Where an issue is.
#[derive(Clone, Debug)]
pub struct IssueLocation {
    pub page: Option<usize>,
    pub paragraph: Option<usize>,
    pub section: Option<String>,
}

/// A format issue found in a paper.
#[derive(Clone, Debug)]
pub struct FormatIssue {
    pub issue_type: String,
    pub description: String,
    pub location: IssueLocation,
    /// `critical`, `major` or `minor`.
    pub severity: String,
    pub suggestion: String,
}

/// The counts of a format check.
#[derive(Clone, Debug)]
pub struct FormatSummary {
    pub total_issues: usize,
    pub critical: usize,
    pub major: usize,
    pub minor: usize,
    pub overall_assessment: String,
}

/// The issues of a format check and their counts.
#[derive(Clone, Debug)]
pub struct FormatCheckResult {
    pub issues: Vec<FormatIssue>,
    pub summary: FormatSummary,
}

/// An issue the model reported, as a format issue: every field kept.
pub open spec fn issue_from_reply(i: crate::llm::FormatIssue, r: FormatIssue) -> bool {
    &&& r.issue_type@ == i.issue_type@
    &&& r.description@ == i.description@
    &&& r.location.page == i.location.page
    &&& r.location.paragraph == i.location.paragraph
    &&& opt_chars(r.location.section) == opt_chars(i.location.section)
    &&& r.severity@ == i.severity@
    &&& r.suggestion@ == i.suggestion@
}

/// The model's answer as the result of a format check: the same issues in
/// the same order, and the same counts and assessment.
pub open spec fn result_from_reply(resp: crate::llm::FormatCheckResponse, r: FormatCheckResult) -> bool {
    &&& r.issues@.len() == resp.issues@.len()
    &&& forall|k: int| 0 <= k < r.issues@.len() ==> issue_from_reply(#[trigger] resp.issues@[k], r.issues@[k])
    &&& r.summary.total_issues == resp.summary.total_issues
    &&& r.summary.critical == resp.summary.critical
    &&& r.summary.major == resp.summary.major
    &&& r.summary.minor == resp.summary.minor
    &&& r.summary.overall_assessment@ == resp.summary.overall_assessment@
}

/// The result of a format check made from the model's answer.
pub fn format_check_result(response: crate::llm::FormatCheckResponse) -> (r: FormatCheckResult)
    ensures
        result_from_reply(response, r),
{
    let mut issues: Vec<FormatIssue> = Vec::new();
    let mut i: usize = 0;
    while i < response.issues.len()
        invariant
            i <= response.issues@.len(),
            issues@.len() == i,
            forall|k: int| 0 <= k < i ==> issue_from_reply(#[trigger] response.issues@[k], issues@[k]),
        decreases response.issues@.len() - i,
    {
        let it = &response.issues[i];
        issues.push(FormatIssue {
            issue_type: it.issue_type.clone(),
            description: it.description.clone(),
            location: IssueLocation {
                page: it.location.page,
                paragraph: it.location.paragraph,
                section: clone_opt(&it.location.section),
            },
            severity: it.severity.clone(),
            suggestion: it.suggestion.clone(),
        });
        i = i + 1;
    }
    FormatCheckResult {
        issues,
        summary: FormatSummary {
            total_issues: response.summary.total_issues,
            critical: response.summary.critical,
            major: response.summary.major,
            minor: response.summary.minor,
            overall_assessment: response.summary.overall_assessment.clone(),
        },
    }
}


// ---------------------------------------------------------------------------
// Shared state
// ---------------------------------------------------------------------------

/// `std::sync::Mutex`, declared so that the shared state can hold one.
#[verifier::external_type_specification]
#[verifier::external_body]
#[verifier::reject_recursive_types(T)]
pub struct ExMutex<T: ?Sized>(std::sync::Mutex<T>);

/// The state the application's commands share: the model configuration,
/// behind a lock.
pub struct AppState {
    pub llm_config: std::sync::Mutex<crate::llm::LlmConfig>,
}


// ---------------------------------------------------------------------------
// File types
// ---------------------------------------------------------------------------

/// The kinds of file a paper can be read from.
#[derive(Clone, Copy, Debug, PartialEq, Eq, Structural)]
pub enum FileKind {
    Docx,
    Pdf,
    Txt,
}

/// The kind of file a lowercased extension names, or the error that the
/// format is not supported.
pub open spec fn kind_of(ext: Seq<char>) -> Result<FileKind, Seq<char>> {
    if ext == "docx"@ {
        Ok(FileKind::Docx)
    } else if ext == "pdf"@ {
        Ok(FileKind::Pdf)
    } else if ext == "txt"@ {
        Ok(FileKind::Txt)
    } else {
        Err("不支持的文件格式: "@ + ext)
    }
}

/// The kind of file an extension names, compared without regard to case;
/// the error names the lowercased extension.
pub fn file_kind(extension: &str) -> (r: Result<FileKind, String>)
    ensures
        match r {
            Ok(k) => kind_of(lowercase(extension@)) == Ok::<FileKind, Seq<char>>(k),
            Err(e) => kind_of(lowercase(extension@)) == Err::<FileKind, Seq<char>>(e@),
        },
{
    let lower = to_lowercase(extension);
    file_kind_lowered(lower.as_str())
}

/// The kind of file a lowercased extension names; the error names it.
pub fn file_kind_lowered(e: &str) -> (r: Result<FileKind, String>)
    ensures
        match r {
            Ok(k) => kind_of(e@) == Ok::<FileKind, Seq<char>>(k),
            Err(m) => kind_of(e@) == Err::<FileKind, Seq<char>>(m@),
        },
{
    if str_eq(e, "docx") {
        Ok(FileKind::Docx)
    } else if str_eq(e, "pdf") {
        Ok(FileKind::Pdf)
    } else if str_eq(e, "txt") {
        Ok(FileKind::Txt)
    } else {
        let mut msg = "不支持的文件格式: ".to_owned();
        msg.append(e);
        Err(msg)
    }
}

} // verus!
