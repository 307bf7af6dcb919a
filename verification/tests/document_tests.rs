use paper_format_checker::docx_parser::parse_docx_parts;
use paper_format_checker::llm::{CheckSummary, FormatCheckResponse, FormatIssue, IssueLocation};
use paper_format_checker::pdf_parser::{assemble_pdf, PdfFontInfo, PdfMetadata};
use paper_format_checker::{
    file_kind, file_kind_lowered, format_check_result, parsed_from_docx, parsed_from_pdf, parsed_from_text, FileKind,
};

fn some(s: &str) -> Option<String> {
    Some(s.to_string())
}

#[test]
fn text_document_lines_become_paragraphs() {
    let d = parsed_from_text("Hello world\r\n\nSecond  line here\n".to_string());
    assert_eq!(d.content, "Hello world\r\n\nSecond  line here\n");
    assert_eq!(d.paragraphs.len(), 3);
    assert_eq!(d.paragraphs[0].index, 0);
    assert_eq!(d.paragraphs[0].text, "Hello world");
    assert_eq!(d.paragraphs[1].text, "");
    assert_eq!(d.paragraphs[2].index, 2);
    assert_eq!(d.paragraphs[2].text, "Second  line here");
    assert_eq!(d.paragraphs[2].style_name, None);
    assert_eq!(d.paragraphs[2].font_size, None);
    assert_eq!(d.metadata.page_count, 1);
    assert_eq!(d.metadata.word_count, 5);
    assert_eq!(d.metadata.title, None);
    assert_eq!(d.format_info.file_type, "txt");
    assert!(d.format_info.styles.is_empty());
    assert!(d.format_info.fonts.is_empty());
    assert!(!d.format_info.has_toc);
    assert!(!d.format_info.has_bibliography);
}

#[test]
fn text_document_empty() {
    let d = parsed_from_text(String::new());
    assert!(d.paragraphs.is_empty());
    assert_eq!(d.metadata.word_count, 0);
    assert_eq!(d.metadata.page_count, 1);
}

#[test]
fn word_document_in_the_shared_shape() {
    let xml = "<w:p><w:r><w:t>Intro</w:t></w:r></w:p>\
<w:sz w:val=\"X24\"/><w:rFonts w:ascii=\"x\"/><w:t>Big text</w:t></w:r></w:p>\
<w:spacing w:line=\"X360\"/><w:r><w:t>Spaced</w:t></w:r></w:p>";
    let styles = "<w:style w:styleId=\"XNormal\"></w:style><w:style w:styleId=\"XH1\"><w:name w:val=\"heading 1\"/></w:style>";
    let props = "<dc:title>XThesis</dc:title><dc:creator>Ann</dc:creator>";
    let doc = parse_docx_parts(xml, Some(styles), Some(props));
    let d = parsed_from_docx(&doc);
    assert_eq!(d.content, "Intro\nBig text\nSpaced");
    assert_eq!(d.paragraphs.len(), 3);
    assert_eq!(d.paragraphs[0].font_name, None);
    assert_eq!(d.paragraphs[1].index, 1);
    assert_eq!(d.paragraphs[1].text, "Big text");
    assert_eq!(d.paragraphs[1].font_size, some("24"));
    assert_eq!(d.paragraphs[2].line_spacing, some("360"));
    assert_eq!(d.metadata.page_count, 1);
    assert_eq!(d.metadata.word_count, 4);
    assert_eq!(d.metadata.title, some("Thesis"));
    assert_eq!(d.metadata.author, some("Ann"));
    assert_eq!(d.format_info.file_type, "docx");
    // a style without a name is named by its id
    assert_eq!(d.format_info.styles.len(), 2);
    assert_eq!(d.format_info.styles[0].name, "Normal");
    assert_eq!(d.format_info.styles[1].name, "heading 1");
    assert!(!d.format_info.styles[1].is_bold);
    assert!(d.format_info.fonts.is_empty());
}

#[test]
fn word_document_without_counts() {
    let mut doc = parse_docx_parts("<w:p><w:r><w:t>a b</w:t></w:r></w:p>", None, None);
    doc.properties.page_count = None;
    doc.properties.word_count = None;
    let d = parsed_from_docx(&doc);
    assert_eq!(d.metadata.page_count, 1);
    assert_eq!(d.metadata.word_count, 0);
}

#[test]
fn pdf_document_in_the_shared_shape() {
    let meta = PdfMetadata {
        title: some("P"),
        author: None,
        subject: None,
        creator: None,
        page_count: 0,
        word_count: 0,
    };
    let mut doc = assemble_pdf(vec![(1, "a b\nc".to_string()), (2, "d\n\ne f".to_string())], meta);
    doc.fonts.push(PdfFontInfo { name: "F1".to_string(), subtype: some("Type1"), base_font: some("Courier") });
    doc.fonts.push(PdfFontInfo { name: "F2".to_string(), subtype: None, base_font: None });
    let d = parsed_from_pdf(&doc);
    assert_eq!(d.content, "a b\nc\nd\n\ne f");
    // each page's lines, numbered from 0 within the page
    let texts: Vec<&str> = d.paragraphs.iter().map(|p| p.text.as_str()).collect();
    assert_eq!(texts, vec!["a b", "c", "d", "", "e f"]);
    let indices: Vec<usize> = d.paragraphs.iter().map(|p| p.index).collect();
    assert_eq!(indices, vec![0, 1, 0, 1, 2]);
    assert_eq!(d.metadata.page_count, 2);
    assert_eq!(d.metadata.word_count, 6);
    assert_eq!(d.metadata.title, some("P"));
    assert_eq!(d.format_info.file_type, "pdf");
    assert_eq!(d.format_info.fonts, vec!["Courier".to_string()]);
    assert!(d.format_info.styles.is_empty());
}

#[test]
fn file_kinds() {
    assert_eq!(file_kind("docx"), Ok(FileKind::Docx));
    assert_eq!(file_kind("DOCX"), Ok(FileKind::Docx));
    assert_eq!(file_kind("Pdf"), Ok(FileKind::Pdf));
    assert_eq!(file_kind("txt"), Ok(FileKind::Txt));
    assert_eq!(file_kind("doc"), Err("不支持的文件格式: doc".to_string()));
    assert_eq!(file_kind("MD"), Err("不支持的文件格式: md".to_string()));
    assert_eq!(file_kind(""), Err("不支持的文件格式: ".to_string()));
}

#[test]
fn check_result_keeps_the_reply() {
    let response = FormatCheckResponse {
        issues: vec![
            FormatIssue {
                issue_type: "字体".to_string(),
                description: "正文字体不对".to_string(),
                location: IssueLocation { page: Some(2), paragraph: None, section: some("摘要") },
                severity: "major".to_string(),
                suggestion: "改为宋体".to_string(),
            },
            FormatIssue {
                issue_type: "行距".to_string(),
                description: "d".to_string(),
                location: IssueLocation { page: None, paragraph: Some(7), section: None },
                severity: "minor".to_string(),
                suggestion: "s".to_string(),
            },
        ],
        summary: CheckSummary {
            total_issues: 2,
            critical: 0,
            major: 1,
            minor: 1,
            overall_assessment: "基本合格".to_string(),
        },
    };
    let r = format_check_result(response);
    assert_eq!(r.issues.len(), 2);
    assert_eq!(r.issues[0].issue_type, "字体");
    assert_eq!(r.issues[0].description, "正文字体不对");
    assert_eq!(r.issues[0].location.page, Some(2));
    assert_eq!(r.issues[0].location.paragraph, None);
    assert_eq!(r.issues[0].location.section, some("摘要"));
    assert_eq!(r.issues[0].severity, "major");
    assert_eq!(r.issues[0].suggestion, "改为宋体");
    assert_eq!(r.issues[1].location.paragraph, Some(7));
    assert_eq!(r.summary.total_issues, 2);
    assert_eq!(r.summary.critical, 0);
    assert_eq!(r.summary.major, 1);
    assert_eq!(r.summary.minor, 1);
    assert_eq!(r.summary.overall_assessment, "基本合格");
}

#[test]
fn file_kinds_lowered() {
    assert_eq!(file_kind_lowered("pdf"), Ok(FileKind::Pdf));
    assert_eq!(file_kind_lowered("PDF"), Err("不支持的文件格式: PDF".to_string()));
}
