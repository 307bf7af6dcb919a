use paper_format_checker::pdf_parser::{
    assemble_pdf, extract_for_llm, extract_metadata, metadata_from_info, pdf_from_pages, read_pdf, PdfMetadata,
};

fn meta(title: Option<&str>, author: Option<&str>) -> PdfMetadata {
    PdfMetadata {
        title: title.map(|s| s.to_string()),
        author: author.map(|s| s.to_string()),
        subject: None,
        creator: None,
        page_count: 0,
        word_count: 0,
    }
}

#[test]
fn pages_are_assembled_with_their_lines() {
    let pages = vec![
        (1u32, "Line one\n\nLine  three words\r\n".to_string()),
        (2u32, String::new()),
        (5u32, "  \nsolo".to_string()),
    ];
    let d = assemble_pdf(pages, meta(Some("T"), None));
    assert_eq!(d.pages.len(), 3);
    assert_eq!(d.metadata.page_count, 3);
    // 2 + 3 + 0 + 1
    assert_eq!(d.metadata.word_count, 6);
    assert_eq!(d.metadata.title, Some("T".to_string()));
    assert!(d.fonts.is_empty());
    let p0 = &d.pages[0];
    assert_eq!(p0.page_number, 1);
    assert_eq!(p0.text, "Line one\n\nLine  three words\r\n");
    assert_eq!(p0.text_with_layout.len(), 2);
    assert_eq!(p0.text_with_layout[0].text, "Line one");
    assert_eq!(p0.text_with_layout[0].line, 0);
    assert_eq!(p0.text_with_layout[1].text, "Line  three words");
    assert_eq!(p0.text_with_layout[1].line, 2);
    assert!(d.pages[1].text_with_layout.is_empty());
    assert_eq!(d.pages[2].page_number, 5);
    assert_eq!(d.pages[2].text_with_layout.len(), 1);
    assert_eq!(d.pages[2].text_with_layout[0].line, 1);
}

#[test]
fn word_count_adds_to_the_information() {
    let mut m = meta(None, None);
    m.word_count = 10;
    let d = assemble_pdf(vec![(1, "a b c".to_string())], m);
    assert_eq!(d.metadata.word_count, 13);
}

#[test]
fn summary_of_pages() {
    let d = assemble_pdf(
        vec![(1, "Line one\n\nLine  three words\n".to_string()), (2, String::new())],
        meta(Some("T"), Some("A")),
    );
    let expected = "=== PDF 文档分析 ===\n\n标题: T\n作者: A\n页数: 2\n字数: 5\n\n\
=== 内容预览 (前30页) ===\n\n--- 第 1 页 ---\nLine one\nLine  three words\n\n--- 第 2 页 ---\n";
    assert_eq!(extract_for_llm(&d), expected);
}

#[test]
fn summary_shows_ten_lines_and_thirty_pages() {
    let text: String = (1..=12).map(|i| format!("l{}\n", i)).collect();
    let pages: Vec<(u32, String)> = (1..=31).map(|i| (i as u32, text.clone())).collect();
    let d = assemble_pdf(pages, meta(None, None));
    let s = extract_for_llm(&d);
    let one_page: String = (1..=10).map(|i| format!("l{}\n", i)).collect();
    assert!(s.contains(&format!("\n--- 第 30 页 ---\n{}", one_page)));
    assert!(!s.contains("l11"));
    assert!(!s.contains("第 31 页"));
    assert!(s.ends_with(&format!("\n--- 第 30 页 ---\n{}\n... 共 31 页，内容已截断 ...\n", one_page)));
    assert!(s.starts_with("=== PDF 文档分析 ===\n\n页数: 31\n字数: 372\n\n"));
}

fn document_with_info() -> lopdf::Document {
    let mut doc = lopdf::Document::with_version("1.5");
    let mut info = lopdf::Dictionary::new();
    info.set("Title", lopdf::Object::string_literal("My Title"));
    info.set("Author", lopdf::Object::string_literal("Me"));
    info.set("Creator", lopdf::Object::Integer(3));
    let info_id = doc.add_object(lopdf::Object::Dictionary(info));
    doc.trailer.set("Info", lopdf::Object::Reference(info_id));
    doc
}

#[test]
fn information_of_a_loaded_document() {
    let doc = document_with_info();
    let m = extract_metadata(&doc);
    assert_eq!(m.title, Some("My Title".to_string()));
    assert_eq!(m.author, Some("Me".to_string()));
    assert_eq!(m.subject, None);
    // a number is no text
    assert_eq!(m.creator, None);
    assert_eq!(m.page_count, 0);
    assert_eq!(m.word_count, 0);
}

#[test]
fn information_invalid_utf8_is_replaced() {
    let mut doc = lopdf::Document::with_version("1.5");
    let mut info = lopdf::Dictionary::new();
    info.set("Title", lopdf::Object::string_literal(vec![b'a', 0xff, b'b']));
    let info_id = doc.add_object(lopdf::Object::Dictionary(info));
    doc.trailer.set("Info", lopdf::Object::Reference(info_id));
    assert_eq!(extract_metadata(&doc).title, Some("a\u{fffd}b".to_string()));
}

#[test]
fn information_missing() {
    let doc = lopdf::Document::with_version("1.5");
    let m = extract_metadata(&doc);
    assert_eq!(m.title, None);
    assert_eq!(m.author, None);
    let mut direct = lopdf::Document::with_version("1.5");
    let mut info = lopdf::Dictionary::new();
    info.set("Title", lopdf::Object::string_literal("x"));
    // the information is read only through a reference
    direct.trailer.set("Info", lopdf::Object::Dictionary(info));
    assert_eq!(extract_metadata(&direct).title, None);
}

#[test]
fn reading_a_document_without_pages() {
    let doc = document_with_info();
    let d = read_pdf(&doc).unwrap();
    assert!(d.pages.is_empty());
    assert_eq!(d.metadata.page_count, 0);
    assert_eq!(d.metadata.word_count, 0);
    assert_eq!(d.metadata.title, Some("My Title".to_string()));
    assert!(d.fonts.is_empty());
}

fn one_page_document() -> lopdf::Document {
    let mut doc = lopdf::Document::with_version("1.5");
    let pages_id = doc.new_object_id();
    let mut font = lopdf::Dictionary::new();
    font.set("Type", lopdf::Object::Name(b"Font".to_vec()));
    font.set("Subtype", lopdf::Object::Name(b"Type1".to_vec()));
    font.set("BaseFont", lopdf::Object::Name(b"Courier".to_vec()));
    let font_id = doc.add_object(lopdf::Object::Dictionary(font));
    let mut fonts = lopdf::Dictionary::new();
    fonts.set("F1", lopdf::Object::Reference(font_id));
    let mut resources = lopdf::Dictionary::new();
    resources.set("Font", lopdf::Object::Dictionary(fonts));
    let resources_id = doc.add_object(lopdf::Object::Dictionary(resources));
    let content = b"BT /F1 24 Tf 100 600 Td (Hello PDF world) Tj ET".to_vec();
    let stream = lopdf::Stream::new(lopdf::Dictionary::new(), content);
    let content_id = doc.add_object(lopdf::Object::Stream(stream));
    let mut page = lopdf::Dictionary::new();
    page.set("Type", lopdf::Object::Name(b"Page".to_vec()));
    page.set("Parent", lopdf::Object::Reference(pages_id));
    page.set("Contents", lopdf::Object::Reference(content_id));
    page.set("Resources", lopdf::Object::Reference(resources_id));
    page.set(
        "MediaBox",
        lopdf::Object::Array(vec![
            lopdf::Object::Integer(0),
            lopdf::Object::Integer(0),
            lopdf::Object::Integer(595),
            lopdf::Object::Integer(842),
        ]),
    );
    let page_id = doc.add_object(lopdf::Object::Dictionary(page));
    let mut pages = lopdf::Dictionary::new();
    pages.set("Type", lopdf::Object::Name(b"Pages".to_vec()));
    pages.set("Kids", lopdf::Object::Array(vec![lopdf::Object::Reference(page_id)]));
    pages.set("Count", lopdf::Object::Integer(1));
    doc.objects.insert(pages_id, lopdf::Object::Dictionary(pages));
    let mut catalog = lopdf::Dictionary::new();
    catalog.set("Type", lopdf::Object::Name(b"Catalog".to_vec()));
    catalog.set("Pages", lopdf::Object::Reference(pages_id));
    let catalog_id = doc.add_object(lopdf::Object::Dictionary(catalog));
    doc.trailer.set("Root", lopdf::Object::Reference(catalog_id));
    doc
}

#[test]
fn reading_a_document_with_one_page() {
    let doc = one_page_document();
    let d = read_pdf(&doc).unwrap();
    assert_eq!(d.pages.len(), 1);
    assert_eq!(d.pages[0].page_number, 1);
    assert_eq!(d.metadata.page_count, 1);
    assert_eq!(d.metadata.word_count, d.pages[0].text.split_whitespace().count());
    assert!(d.pages[0].text.contains("Hello PDF world"));
    assert_eq!(d.metadata.word_count, 3);
    let non_blank = d.pages[0].text.lines().filter(|l| !l.trim().is_empty()).count();
    assert_eq!(d.pages[0].text_with_layout.len(), non_blank);
}

#[test]
fn information_from_entry_bytes() {
    let m = metadata_from_info(3, Some(b"Title"), None, Some(b"\xffx"), Some(b""));
    assert_eq!(m.page_count, 3);
    assert_eq!(m.word_count, 0);
    assert_eq!(m.title, Some("Title".to_string()));
    assert_eq!(m.author, None);
    assert_eq!(m.subject, Some("\u{fffd}x".to_string()));
    assert_eq!(m.creator, Some(String::new()));
}

#[test]
fn pages_fail_only_when_words_overflow() {
    let d = pdf_from_pages(vec![(1, "a b".to_string()), (2, "c".to_string())], meta(Some("T"), None)).unwrap();
    assert_eq!(d.pages.len(), 2);
    assert_eq!(d.metadata.word_count, 3);
    assert_eq!(d.metadata.page_count, 2);
    let mut m = meta(None, None);
    m.word_count = usize::MAX - 1;
    assert!(pdf_from_pages(vec![(1, "one".to_string())], m.clone()).is_some());
    assert!(pdf_from_pages(vec![(1, "one two".to_string())], m).is_none());
}

#[test]
fn pdf_file_from_bytes() {
    let mut doc = one_page_document();
    let mut data: Vec<u8> = Vec::new();
    doc.save_to(&mut data).unwrap();
    let d = paper_format_checker::pdf_parser::parse_pdf_bytes(&data).unwrap().unwrap();
    assert_eq!(d.pages.len(), 1);
    assert_eq!(d.pages[0].page_number, 1);
    assert!(d.pages[0].text.contains("Hello PDF world"));
    assert_eq!(d.metadata.word_count, 3);
}

#[test]
fn pdf_file_errors() {
    assert!(paper_format_checker::pdf_parser::parse_pdf_bytes(b"not a pdf").is_err());
}
