use std::io::Write;
use paper_format_checker::docx_parser::{
    docx_parts_readable, document_readable, extract_for_llm, find_style, parse_document_xml,
    parse_docx_parts, parse_properties, parse_styles, properties_readable, styles_readable,
    summary_ready, DocumentProperties, MeasureTexts, ParagraphFormatting, WordDocument,
    WordParagraph, WordRun, WordStyle,
};

fn some(s: &str) -> Option<String> {
    Some(s.to_string())
}

const STYLES_XML: &str = "<w:styles><w:style w:type=\"paragraph\" w:styleId=\"XHeading1\">\
<w:name w:val=\"heading 1\"/></w:style>\
<w:style w:type=\"character\" w:styleId=\"XEmph\"></w:style>\
<w:style w:type=\"paragraph\"><w:name w:val=\"nameless\"/></w:style></w:styles>";

const PROPS_XML: &str = "<cp:coreProperties><dc:title>XMy Paper</dc:title>\
<dc:creator>Alice</dc:creator><dc:subject>XTopic</dc:subject>\
<cp:lastModifiedBy>Bob</cp:lastModifiedBy></cp:coreProperties>";

fn document_xml() -> String {
    let mut x = String::new();
    x.push_str("<w:body><w:p><w:r><w:t>Intro text</w:t></w:r></w:p>");
    x.push_str("w:pStyle w:val=\"Heading1\"/><w:r><w:t>Chapter</w:t></w:r></w:p>");
    x.push_str("<w:jc w:val=\"center\"/><w:r><w:t> </w:t></w:r></w:p>");
    x.push_str("<w:spacing w:line=\"X360\" w:before=\"X120\" w:after=\"X240\"/><w:r><w:t>Body one</w:t></w:r>");
    x.push_str("<w:rFonts w:ascii=\"XSimSun\"/><w:b w:val=\"1\"/><w:t xml:space=\"preserve\"> and two</w:t></w:r></w:p>");
    x.push_str("<w:sz w:val=\"X21\"/><w:i/><w:t>Small\u{c}</w:t></w:r></w:p>");
    x.push_str("<w:jc w:val=\"both\"/><w:ind w:firstLine=\"480\"/><w:r><w:t>Last</w:t></w:r></w:p></w:body>");
    x
}

#[test]
fn properties_are_read_at_their_offsets() {
    assert!(properties_readable(Some(PROPS_XML)));
    let p = parse_properties(Some(PROPS_XML));
    // the title and subject are read one byte past their tags
    assert_eq!(p.title, some("My Paper"));
    assert_eq!(p.author, some("Alice"));
    assert_eq!(p.subject, some("Topic"));
    assert_eq!(p.creator, some("Bob"));
    assert_eq!(p.page_count, None);
    assert_eq!(p.word_count, None);
}

#[test]
fn properties_missing() {
    let p = parse_properties(None);
    assert_eq!(p.title, None);
    assert_eq!(p.author, None);
    let q = parse_properties(Some("<dc:title>abc"));
    assert_eq!(q.title, None);
    let e = parse_properties(Some("<dc:title>X</dc:title>"));
    assert_eq!(e.title, some(""));
}

#[test]
fn properties_cut_inside_a_character() {
    // one byte past the tag falls inside the two-byte "é"
    assert!(!properties_readable(Some("<dc:title>éa</dc:title>")));
    assert!(properties_readable(Some("<dc:title>aé</dc:title>")));
    assert_eq!(parse_properties(Some("<dc:title>aé</dc:title>")).title, some("é"));
}

#[test]
fn styles_are_read_with_their_ids() {
    assert!(styles_readable(Some(STYLES_XML)));
    let s = parse_styles(Some(STYLES_XML));
    assert_eq!(s.len(), 2);
    // the id and type are read one byte past their opening quote
    assert_eq!(s[0].id, "Heading1");
    assert_eq!(s[0].name, some("heading 1"));
    assert_eq!(s[0].style_type, "aragraph");
    assert_eq!(s[1].id, "Emph");
    assert_eq!(s[1].name, None);
    assert_eq!(s[1].style_type, "haracter");
    assert!(s[0].paragraph_formatting.is_none());
    assert!(s[0].run_formatting.is_none());
    assert_eq!(find_style(&s, &"Emph".to_string()), Some(1));
    assert_eq!(find_style(&s, &"Heading1".to_string()), Some(0));
    assert_eq!(find_style(&s, &"Normal".to_string()), None);
    assert!(parse_styles(None).is_empty());
}

#[test]
fn styles_later_declaration_replaces() {
    let xml = "<w:style w:styleId=\"XA\"><w:name w:val=\"first\"/></w:style>\
<w:style w:styleId=\"XB\"></w:style>\
<w:style w:styleId=\"XA\"><w:name w:val=\"second\"/></w:style>";
    let s = parse_styles(Some(xml));
    assert_eq!(s.len(), 2);
    assert_eq!(s[0].id, "A");
    assert_eq!(s[0].name, some("second"));
    assert_eq!(s[1].id, "B");
    assert_eq!(s[0].style_type, "paragraph");
}

#[test]
fn style_ids_are_distinct() {
    let xml = "<w:style w:styleId=\"xa\"></w:style><w:style w:styleId=\"ya\"></w:style>\
<w:style w:styleId=\"zb\"></w:style><w:style w:styleId=\"qa\"></w:style>";
    let s = parse_styles(Some(xml));
    assert_eq!(s.len(), 2);
    for i in 0..s.len() {
        assert!(!s[i].id.is_empty());
        for j in 0..s.len() {
            if i != j {
                assert_ne!(s[i].id, s[j].id);
            }
        }
    }
}

#[test]
fn document_paragraphs_are_read() {
    let styles = parse_styles(Some(STYLES_XML));
    let xml = document_xml();
    assert!(document_readable(&xml, &styles));
    let ps = parse_document_xml(&xml, &styles);
    assert_eq!(ps.len(), 5);

    assert_eq!(ps[0].index, 0);
    assert_eq!(ps[0].text, "Intro text");
    assert_eq!(ps[0].style_id, None);
    assert_eq!(ps[0].runs.len(), 1);
    assert!(!ps[0].runs[0].is_bold);

    assert_eq!(ps[1].index, 1);
    assert_eq!(ps[1].text, "Chapter");
    assert_eq!(ps[1].style_id, some("Heading1"));
    assert_eq!(ps[1].style_name, some("heading 1"));

    // the blank paragraph is left out and the numbering goes on
    assert_eq!(ps[2].index, 2);
    assert_eq!(ps[2].text, "Body one and two");
    assert_eq!(ps[2].runs.len(), 2);
    assert_eq!(ps[2].runs[0].text, "Body one");
    assert_eq!(ps[2].runs[1].text, " and two");
    assert_eq!(ps[2].runs[1].font_name, some("SimSun"));
    assert!(ps[2].runs[1].is_bold);
    assert!(!ps[2].runs[1].is_italic);
    assert_eq!(ps[2].formatting.line_spacing, some("360"));
    assert_eq!(ps[2].formatting.space_before, some("120"));
    assert_eq!(ps[2].formatting.space_after, some("240"));
    assert_eq!(ps[2].formatting.alignment, None);

    assert_eq!(ps[3].text, "Small\u{c}");
    assert_eq!(ps[3].runs[0].font_size, some("21"));
    // "<w:i/>" is neither "<w:i " nor "<w:i>"
    assert!(!ps[3].runs[0].is_italic);

    // the alignment is at the start of its piece; the indent is read at a doubled offset
    assert_eq!(ps[4].text, "Last");
    assert_eq!(ps[4].formatting.alignment, some("both"));
    assert_eq!(ps[4].formatting.indentation_first_line, None);
    assert_eq!(ps[4].style_name, None);
}

#[test]
fn document_paragraph_texts_are_their_runs() {
    let styles = parse_styles(Some(STYLES_XML));
    let ps = parse_document_xml(&document_xml(), &styles);
    for (k, p) in ps.iter().enumerate() {
        assert_eq!(p.index, k);
        let joined: String = p.runs.iter().map(|r| r.text.as_str()).collect();
        assert_eq!(p.text, joined);
        assert!(!p.text.trim().is_empty());
    }
}

#[test]
fn document_indent_at_start() {
    let xml = "<w:ind w:firstLine=\"480\" w:left=\"0\"/><w:r><w:t>Indented</w:t></w:r></w:p>";
    let ps = parse_document_xml(xml, &Vec::new());
    assert_eq!(ps.len(), 1);
    assert_eq!(ps[0].formatting.indentation_first_line, some("480"));
    assert_eq!(ps[0].formatting.indentation_left, some("0"));
}

#[test]
fn document_unknown_style_has_no_name() {
    let xml = "w:pStyle w:val=\"Missing\"/><w:r><w:t>T</w:t></w:r></w:p>";
    let ps = parse_document_xml(xml, &Vec::new());
    assert_eq!(ps[0].style_id, some("Missing"));
    assert_eq!(ps[0].style_name, None);
}

#[test]
fn document_empty() {
    assert!(parse_document_xml("", &Vec::new()).is_empty());
    assert!(parse_document_xml("<w:p></w:p><w:p><w:r><w:t>  </w:t></w:r></w:p>", &Vec::new()).is_empty());
}

#[test]
fn docx_from_parts() {
    let xml = document_xml();
    assert!(docx_parts_readable(&xml, Some(STYLES_XML), Some(PROPS_XML)));
    let d = parse_docx_parts(&xml, Some(STYLES_XML), Some(PROPS_XML));
    assert_eq!(d.paragraphs.len(), 5);
    assert_eq!(d.styles.len(), 2);
    assert_eq!(d.properties.title, some("My Paper"));
    assert_eq!(d.properties.author, some("Alice"));
    // one paragraph holds a form feed
    assert_eq!(d.properties.page_count, Some(2));
    // 2 + 1 + 4 + 1 + 1
    assert_eq!(d.properties.word_count, Some(9));
}

#[test]
fn docx_without_optional_parts() {
    let d = parse_docx_parts("<w:p><w:r><w:t>One two three</w:t></w:r></w:p>", None, None);
    assert_eq!(d.paragraphs.len(), 1);
    assert!(d.styles.is_empty());
    assert_eq!(d.properties.title, None);
    assert_eq!(d.properties.page_count, Some(1));
    assert_eq!(d.properties.word_count, Some(3));
}

fn para(i: usize, text: &str) -> WordParagraph {
    WordParagraph {
        index: i,
        text: text.to_string(),
        style_id: None,
        style_name: None,
        runs: Vec::new(),
        formatting: ParagraphFormatting {
            alignment: None,
            indentation_left: None,
            indentation_first_line: None,
            line_spacing: None,
            space_before: None,
            space_after: None,
        },
    }
}

fn no_measures() -> MeasureTexts {
    MeasureTexts { indentation_first_line: None, line_spacing: None, font_size: None }
}

fn props(title: Option<&str>, pages: Option<usize>, words: Option<usize>) -> DocumentProperties {
    DocumentProperties {
        title: title.map(|s| s.to_string()),
        author: None,
        subject: None,
        creator: None,
        page_count: pages,
        word_count: words,
    }
}

fn style(id: &str, name: Option<&str>) -> WordStyle {
    WordStyle {
        id: id.to_string(),
        name: name.map(|s| s.to_string()),
        style_type: "paragraph".to_string(),
        based_on: None,
        paragraph_formatting: None,
        run_formatting: None,
    }
}

#[test]
fn summary_of_five_paragraphs() {
    let mut p0 = para(0, "P0");
    p0.style_name = some("heading 1");
    p0.formatting.alignment = some("center");
    p0.runs.push(WordRun {
        text: "P0".to_string(),
        font_name: some("SimHei"),
        font_size: some("32"),
        is_bold: true,
        is_italic: false,
        is_underline: false,
    });
    let doc = WordDocument {
        paragraphs: vec![p0, para(1, "P1"), para(2, "P2"), para(3, "P3"), para(4, "P4")],
        styles: vec![style("a", Some("Normal")), style("b", None)],
        properties: props(Some("T"), Some(2), Some(10)),
    };
    let mut measures = vec![no_measures(), no_measures(), no_measures(), no_measures(), no_measures()];
    measures[0] = MeasureTexts { indentation_first_line: some("2.0"), line_spacing: some("1.5"), font_size: some("16") };
    assert!(summary_ready(&doc, &measures));
    let expected = String::new()
        + "=== 论文格式分析 ===\n\n标题: T\n页数: Some(2)\n字数: Some(10)\n\n"
        + "=== 样式统计 ===\n- Normal\n\n"
        + "=== 段落格式详情 (前20段) ===\n"
        + "\n[段落 1]\n内容: P0\n样式: heading 1\n对齐: center\n首行缩进: 2.0 字符\n行距: 1.5 倍\n字体: SimHei\n字号: 16 pt\n加粗: 是\n"
        + "\n[段落 2]\n内容: P1\n\n[段落 3]\n内容: P2\n\n[段落 4]\n内容: P3\n\n[段落 5]\n内容: P4\n"
        + "\n=== 后5段 ===\n"
        + "\n[段落 1]\n内容: P4\n\n[段落 2]\n内容: P3\n\n[段落 3]\n内容: P2\n\n[段落 4]\n内容: P1\n\n[段落 5]\n内容: P0\n";
    assert_eq!(extract_for_llm(&doc, &measures), expected);
}

#[test]
fn summary_of_empty_document() {
    let doc = WordDocument { paragraphs: Vec::new(), styles: Vec::new(), properties: props(None, None, None) };
    assert!(summary_ready(&doc, &Vec::new()));
    assert_eq!(
        extract_for_llm(&doc, &Vec::new()),
        "=== 论文格式分析 ===\n\n页数: None\n字数: None\n\n=== 样式统计 ===\n\n=== 段落格式详情 (前20段) ===\n\n=== 后5段 ===\n"
    );
}

#[test]
fn summary_cuts_long_texts() {
    let long = "a".repeat(150);
    let doc = WordDocument {
        paragraphs: (0..25).map(|i| para(i, if i == 0 || i == 24 { long.as_str() } else { "x" })).collect(),
        styles: Vec::new(),
        properties: props(None, Some(1), Some(0)),
    };
    let measures: Vec<MeasureTexts> = (0..25).map(|_| no_measures()).collect();
    assert!(summary_ready(&doc, &measures));
    let s = extract_for_llm(&doc, &measures);
    let cut = format!("内容: {}\n", "a".repeat(100));
    assert!(s.contains(&format!("\n[段落 1]\n{}", cut)));
    assert!(s.contains("\n[段落 20]\n内容: x\n"));
    assert!(!s.contains("\n[段落 21]\n内容: x\n\n=== 后5段"));
    // the last paragraph is shown first in the tail, numbered 21
    assert!(s.ends_with(&format!("\n=== 后5段 ===\n\n[段落 21]\n{}\n[段落 22]\n内容: x\n\n[段落 23]\n内容: x\n\n[段落 24]\n内容: x\n\n[段落 25]\n内容: x\n", cut)));
}

#[test]
fn summary_refused() {
    // four paragraphs can be summarised (see summary_of_three_paragraphs)
    let four = WordDocument {
        paragraphs: vec![para(0, "a"), para(1, "b"), para(2, "c"), para(3, "d")],
        styles: Vec::new(),
        properties: props(None, None, None),
    };
    let m4: Vec<MeasureTexts> = (0..4).map(|_| no_measures()).collect();
    assert!(summary_ready(&four, &m4));
    let mut texts: Vec<WordParagraph> = (0..5).map(|i| para(i, "ok")).collect();
    // 99 ASCII bytes then a three-byte character: byte 100 falls inside it
    texts[2].text = format!("{}中", "a".repeat(99));
    let five = WordDocument { paragraphs: texts, styles: Vec::new(), properties: props(None, None, None) };
    let m5: Vec<MeasureTexts> = (0..5).map(|_| no_measures()).collect();
    assert!(!summary_ready(&five, &m5));
    let m3: Vec<MeasureTexts> = (0..3).map(|_| no_measures()).collect();
    let fine = WordDocument {
        paragraphs: (0..5).map(|i| para(i, "ok")).collect(),
        styles: Vec::new(),
        properties: props(None, None, None),
    };
    assert!(!summary_ready(&fine, &m3));
    assert!(summary_ready(&fine, &m5));
}

#[test]
fn style_with_empty_id_reads_past_it() {
    // one byte past the empty id's opening quote lies its closing quote, so
    // the id runs on to the next quote
    let s = parse_styles(Some("<w:style w:styleId=\"\"><w:name w:val=\"n\"/></w:style>"));
    assert_eq!(s.len(), 1);
    assert_eq!(s[0].id, "><w:name w:val=");
    assert_eq!(s[0].name, Some("n".to_string()));
}

#[test]
fn document_parts_read_alike_when_joined() {
    let styles = parse_styles(Some(STYLES_XML));
    let x1 = "<w:p><w:r><w:t>One</w:t></w:r></w:p>w:pStyle w:val=\"Heading1\"/><w:r><w:t>Two</w:t></w:r></w:p>";
    let x2 = "<w:p><w:r><w:t>Three</w:t></w:r></w:p><w:p><w:r><w:t>Four</w:t></w:r></w:p>";
    let a = parse_document_xml(x1, &styles);
    let b = parse_document_xml(x2, &styles);
    let joined = parse_document_xml(&format!("{}{}", x1, x2), &styles);
    assert_eq!(joined.len(), a.len() + b.len());
    for (k, p) in joined.iter().enumerate() {
        let q = if k < a.len() { &a[k] } else { &b[k - a.len()] };
        assert_eq!(p.index, k);
        assert_eq!(p.text, q.text);
        assert_eq!(p.style_id, q.style_id);
        assert_eq!(p.style_name, q.style_name);
        assert_eq!(p.runs.len(), q.runs.len());
    }
    assert_eq!(joined[1].style_name, Some("heading 1".to_string()));
}

#[test]
fn summary_of_three_paragraphs() {
    // the tail numbers are n - 5 + i + 1 in wrapping usize arithmetic
    let doc = WordDocument {
        paragraphs: vec![para(0, "a"), para(1, "b"), para(2, "c")],
        styles: Vec::new(),
        properties: props(None, Some(1), Some(3)),
    };
    let m: Vec<MeasureTexts> = (0..3).map(|_| no_measures()).collect();
    assert!(summary_ready(&doc, &m));
    let s = extract_for_llm(&doc, &m);
    let tail = format!(
        "\n=== 后5段 ===\n\n[段落 {}]\n内容: c\n\n[段落 0]\n内容: b\n\n[段落 1]\n内容: a\n",
        usize::MAX
    );
    assert!(s.ends_with(&tail));
    assert!(s.contains("\n[段落 3]\n内容: c\n"));
}

fn zip_of(entries: &[(&str, &str)]) -> Vec<u8> {
    let mut w = zip::ZipWriter::new(std::io::Cursor::new(Vec::new()));
    let opts = zip::write::SimpleFileOptions::default().compression_method(zip::CompressionMethod::Stored);
    for (name, text) in entries {
        w.start_file(*name, opts).unwrap();
        w.write_all(text.as_bytes()).unwrap();
    }
    w.finish().unwrap().into_inner()
}

#[test]
fn word_file_from_bytes() {
    let xml = document_xml();
    let data = zip_of(&[
        ("word/document.xml", xml.as_str()),
        ("word/styles.xml", STYLES_XML),
        ("docProps/core.xml", PROPS_XML),
    ]);
    let d = paper_format_checker::docx_parser::parse_docx_bytes(&data).unwrap().unwrap();
    let e = parse_docx_parts(&xml, Some(STYLES_XML), Some(PROPS_XML));
    assert_eq!(d.paragraphs.len(), e.paragraphs.len());
    assert_eq!(d.paragraphs[1].style_name, Some("heading 1".to_string()));
    assert_eq!(d.styles.len(), 2);
    assert_eq!(d.properties.title, Some("My Paper".to_string()));
    assert_eq!(d.properties.word_count, Some(9));
}

#[test]
fn word_file_without_optional_parts() {
    let data = zip_of(&[("word/document.xml", "<w:p><w:r><w:t>a b</w:t></w:r></w:p>")]);
    let d = paper_format_checker::docx_parser::parse_docx_bytes(&data).unwrap().unwrap();
    assert!(d.styles.is_empty());
    assert_eq!(d.properties.title, None);
    assert_eq!(d.properties.word_count, Some(2));
}

#[test]
fn word_file_errors() {
    let data = zip_of(&[("word/styles.xml", STYLES_XML)]);
    assert_eq!(
        paper_format_checker::docx_parser::parse_docx_bytes(&data).err(),
        Some("File word/document.xml not found in archive".to_string())
    );
    assert!(paper_format_checker::docx_parser::parse_docx_bytes(b"not a zip").is_err());
    // a title read one byte past its tag would cut the two-byte "é"
    let cut = zip_of(&[
        ("word/document.xml", "<w:p><w:r><w:t>x</w:t></w:r></w:p>"),
        ("docProps/core.xml", "<dc:title>éa</dc:title>"),
    ]);
    assert!(matches!(paper_format_checker::docx_parser::parse_docx_bytes(&cut), Ok(None)));
}
