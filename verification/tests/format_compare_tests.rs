use paper_format_checker::format_compare::{
    alignments_match, body_alignment_issue, body_font_issue, body_is_checked, body_size_issue,
    fonts_match, heading_bold_issue, heading_font_issue, heading_size_issue, indent_issue,
    line_spacing_issue, missing_headings_issue, parse_format_requirements,
    spacing_consistency_issue, style_heading_level, to_format_issues, trimmed_len,
    ComparisonResult, FormatRequirements, requirements_from_lowered, fonts_match_lowered,
    alignments_match_lowered, style_level_lowered, check_heading_format, check_body_format,
    check_overall_format, compare_measured, MeasureDeviations, MeasuredParagraph,
};

fn some(s: &str) -> Option<String> {
    Some(s.to_string())
}

#[test]
fn requirements_from_chinese_guideline() {
    let req = parse_format_requirements(
        "正文宋体小四号字，1.5倍行距，页边距2.5cm，首行缩进2字符，两端对齐，参考文献采用GB/T 7714",
    );
    assert_eq!(req.font_body, some("宋体"));
    assert_eq!(req.font_title, None);
    // "小四号" holds "四号"; "7714" holds "14"
    assert_eq!(req.font_size_body, Some(140));
    assert_eq!(req.font_size_heading1, Some(140));
    assert_eq!(req.font_size_heading2, Some(120));
    assert_eq!(req.font_size_heading3, None);
    assert_eq!(req.line_spacing, Some(15));
    assert_eq!(req.margin_top, Some(25));
    assert_eq!(req.margin_bottom, Some(25));
    assert_eq!(req.margin_left, Some(25));
    assert_eq!(req.margin_right, Some(25));
    assert_eq!(req.indent_body, Some(20));
    assert_eq!(req.indent_first_line, Some(20));
    assert_eq!(req.alignment_body, some("justify"));
    assert_eq!(req.citation_style, some("GB/T 7714"));
    assert_eq!(req.bibliography_style, some("GB/T 7714-2015"));
}

#[test]
fn requirements_are_read_without_case() {
    let req = parse_format_requirements("Times New Roman, 12pt, DOUBLE spaced 2.0, Left aligned, APA");
    assert_eq!(req.font_body, some("Times New Roman"));
    assert_eq!(req.font_size_body, None);
    assert_eq!(req.font_size_heading1, None);
    assert_eq!(req.font_size_heading2, Some(120));
    assert_eq!(req.line_spacing, Some(20));
    assert_eq!(req.margin_top, None);
    assert_eq!(req.alignment_body, some("left"));
    assert_eq!(req.citation_style, some("APA"));
    assert_eq!(req.bibliography_style, None);
}

#[test]
fn requirements_first_match_wins() {
    // 五号 comes before 小五 in the order of the checks
    let req = parse_format_requirements("正文五号，标题三号黑体，单倍行距，页边距3cm，首行缩进，MLA");
    assert_eq!(req.font_title, some("黑体"));
    assert_eq!(req.font_size_body, Some(105));
    assert_eq!(req.font_size_heading1, Some(150));
    assert_eq!(req.font_size_heading3, Some(105));
    assert_eq!(req.line_spacing, Some(10));
    assert_eq!(req.margin_left, Some(30));
    assert_eq!(req.indent_body, None);
    assert_eq!(req.indent_first_line, Some(20));
    assert_eq!(req.citation_style, some("MLA"));
}

#[test]
fn requirements_from_empty_text() {
    let req = parse_format_requirements("");
    assert_eq!(req.font_body, None);
    assert_eq!(req.font_size_body, None);
    assert_eq!(req.line_spacing, None);
    assert_eq!(req.alignment_body, None);
    assert_eq!(req.citation_style, None);
    let d = FormatRequirements::default();
    assert_eq!(d.margin_right, None);
}

#[test]
fn requirements_margins_agree() {
    for text in ["2.5cm", "3cm", "none", "边距3.0"] {
        let r = parse_format_requirements(text);
        assert_eq!(r.margin_top, r.margin_bottom);
        assert_eq!(r.margin_top, r.margin_left);
        assert_eq!(r.margin_top, r.margin_right);
    }
}

#[test]
fn fonts_match_aliases() {
    assert!(fonts_match("SimSun", "宋体"));
    assert!(fonts_match("宋体", "Songti SC"));
    assert!(fonts_match("黑体", "SimHei"));
    assert!(fonts_match("KaiTi", "楷体_GB2312"));
    assert!(fonts_match("TIMES", "Times New Roman"));
    assert!(fonts_match("Arial", "Arial Unicode MS"));
    assert!(fonts_match("Calibri", "calibri"));
    assert!(!fonts_match("Arial", "Times New Roman"));
    assert!(!fonts_match("宋体", "黑体"));
    assert!(!fonts_match("Calibri", "Cambria"));
}

#[test]
fn fonts_match_both_ways() {
    let names = ["SimSun", "宋体", "Arial", "Times", "Calibri", "heiti", ""];
    for a in names {
        assert!(fonts_match(a, a));
        for b in names {
            assert_eq!(fonts_match(a, b), fonts_match(b, a));
        }
    }
}

#[test]
fn alignments_match_word_names() {
    assert!(alignments_match("justify", "both"));
    assert!(alignments_match("两端对齐", "BOTH"));
    assert!(alignments_match("left", "start"));
    assert!(alignments_match("左对齐", "left"));
    assert!(alignments_match("居中", "center"));
    assert!(alignments_match("Right", "end"));
    assert!(alignments_match("Center", "center"));
    assert!(!alignments_match("center", "both"));
    assert!(!alignments_match("left", "right"));
    // the expected name decides: "both" is no name of a known alignment
    assert!(!alignments_match("both", "justify"));
    assert!(!alignments_match("distributed", "justify"));
}

#[test]
fn alignments_match_themselves() {
    for a in ["left", "both", "", "居中", "whatever"] {
        assert!(alignments_match(a, a));
    }
}

#[test]
fn heading_levels_from_style_names() {
    assert_eq!(style_heading_level(&some("Heading 1")), Some(1));
    assert_eq!(style_heading_level(&some("标题 2")), Some(2));
    assert_eq!(style_heading_level(&some("3")), Some(3));
    assert_eq!(style_heading_level(&some("heading4")), Some(4));
    assert_eq!(style_heading_level(&some("标题6 x")), Some(6));
    // "heading 15" holds "heading 1"
    assert_eq!(style_heading_level(&some("Heading 15")), Some(1));
    assert_eq!(style_heading_level(&some("Title heading 5")), Some(5));
    assert_eq!(style_heading_level(&some("heading")), None);
    assert_eq!(style_heading_level(&some("Normal")), None);
    assert_eq!(style_heading_level(&some("4")), None);
    assert_eq!(style_heading_level(&None), None);
}

fn req_with_fonts(title: Option<&str>, body: Option<&str>) -> FormatRequirements {
    let mut r = FormatRequirements::default();
    r.font_title = title.map(|s| s.to_string());
    r.font_body = body.map(|s| s.to_string());
    r
}

fn check(c: &ComparisonResult, index: usize, t: &str, d: &str, e: &str, a: &str, s: &str, g: &str) {
    assert_eq!(c.paragraph_index, index);
    assert_eq!(c.issue_type, t);
    assert_eq!(c.description, d);
    assert_eq!(c.expected, e);
    assert_eq!(c.actual, a);
    assert_eq!(c.severity, s);
    assert_eq!(c.suggestion, g);
}

#[test]
fn heading_font_issues() {
    let req = req_with_fonts(Some("黑体"), Some("宋体"));
    let c = heading_font_issue(&req, 3, 1, &some("宋体")).unwrap();
    check(&c, 3, "字体", "第1级标题字体不符合要求", "黑体", "宋体", "major", "将第1级标题字体设置为黑体");
    assert!(heading_font_issue(&req, 3, 2, &some("SimHei")).is_none());
    // level 3 is expected in the body font
    assert!(heading_font_issue(&req, 3, 3, &some("SimSun")).is_none());
    let c3 = heading_font_issue(&req, 4, 3, &some("Arial")).unwrap();
    assert_eq!(c3.expected, "宋体");
    assert!(heading_font_issue(&req, 3, 1, &None).is_none());
    // no title font: the body font is expected of level 1
    let body_only = req_with_fonts(None, Some("宋体"));
    let c1 = heading_font_issue(&body_only, 0, 1, &some("Arial")).unwrap();
    assert_eq!(c1.expected, "宋体");
    let none = req_with_fonts(None, None);
    assert!(heading_font_issue(&none, 0, 1, &some("Arial")).is_none());
}

#[test]
fn heading_size_and_bold_issues() {
    let c = heading_size_issue(7, 2, "16", "14");
    check(&c, 7, "字号", "第2级标题字号不符合要求", "16pt", "14pt", "major", "将第2级标题字号设置为16pt");
    let b = heading_bold_issue(1, 2, false).unwrap();
    check(&b, 1, "加粗", "第2级标题未加粗", "加粗", "未加粗", "minor", "将第2级标题设置为加粗");
    assert!(heading_bold_issue(1, 3, false).is_none());
    assert!(heading_bold_issue(1, 1, true).is_none());
    let ten = heading_bold_issue(0, 1, false).unwrap();
    assert_eq!(ten.description, "第1级标题未加粗");
}

#[test]
fn body_length_is_counted_in_bytes() {
    assert_eq!(trimmed_len("  abc \n"), 3);
    assert_eq!(trimmed_len("  中文 "), 6);
    assert!(!body_is_checked("  abc  "));
    assert!(body_is_checked("  中文  "));
    assert!(body_is_checked("hello"));
    assert!(!body_is_checked(""));
}

#[test]
fn body_issues() {
    let mut req = req_with_fonts(None, Some("Times New Roman"));
    req.alignment_body = some("justify");
    let f = body_font_issue(&req, 5, &some("宋体")).unwrap();
    check(&f, 5, "字体", "正文字体不符合要求", "Times New Roman", "宋体", "major", "将正文字体设置为Times New Roman");
    assert!(body_font_issue(&req, 5, &some("times")).is_none());
    assert!(body_font_issue(&req, 5, &None).is_none());
    let s = body_size_issue(2, "10.5", "12");
    check(&s, 2, "字号", "正文字号不符合要求", "10.5pt", "12pt", "major", "将正文字号设置为10.5pt");
    let l = line_spacing_issue(2, "1.5", "1");
    check(&l, 2, "行距", "行距不符合要求", "1.5倍", "1倍", "major", "将行距设置为1.5倍");
    let i = indent_issue(2, "2", "0");
    check(&i, 2, "缩进", "首行缩进不符合要求", "2字符", "0字符", "major", "设置首行缩进2字符");
    let a = body_alignment_issue(&req, 9, &some("center")).unwrap();
    check(&a, 9, "对齐", "段落对齐方式不符合要求", "justify", "center", "minor", "设置对齐方式为justify");
    assert!(body_alignment_issue(&req, 9, &some("both")).is_none());
    assert!(body_alignment_issue(&FormatRequirements::default(), 9, &some("center")).is_none());
}

#[test]
fn document_wide_issues() {
    let m = missing_headings_issue(0, 11).unwrap();
    check(
        &m,
        0,
        "标题层次",
        "文档中未检测到标题样式",
        "应有标题层次结构",
        "无标题",
        "major",
        "请使用规范的标题样式（标题1、标题2、标题3）",
    );
    assert!(missing_headings_issue(0, 10).is_none());
    assert!(missing_headings_issue(1, 50).is_none());
    let s = spacing_consistency_issue("1.5", "1.2");
    check(&s, 0, "行距", "行距设置不一致", "1.5倍", "平均1.2倍", "minor", "确保全文行距一致");
}

#[test]
fn comparison_results_become_issues() {
    let results = vec![heading_size_issue(4, 1, "15", "12"), missing_headings_issue(0, 20).unwrap()];
    let issues = to_format_issues(results);
    assert_eq!(issues.len(), 2);
    assert_eq!(issues[0].issue_type, "字号");
    assert_eq!(issues[0].description, "第1级标题字号不符合要求");
    assert_eq!(issues[0].location.page, None);
    assert_eq!(issues[0].location.paragraph, Some(4));
    assert_eq!(issues[0].location.section, None);
    assert_eq!(issues[0].severity, "major");
    assert_eq!(issues[0].suggestion, "将第1级标题字号设置为15pt");
    assert_eq!(issues[1].issue_type, "标题层次");
    assert_eq!(issues[1].location.paragraph, Some(0));
    assert!(to_format_issues(Vec::new()).is_empty());
}

#[test]
fn lowered_forms() {
    let r = requirements_from_lowered("times new roman 12");
    assert_eq!(r.font_body, some("Times New Roman"));
    assert_eq!(r.font_size_heading2, Some(120));
    // already-lowercased text only: "TIMES" names no font here
    assert_eq!(requirements_from_lowered("TIMES").font_body, None);
    assert!(fonts_match_lowered("simsun", "宋体"));
    assert!(!fonts_match_lowered("SIMSUN", "宋体"));
    assert!(alignments_match_lowered("justify", "both"));
    assert!(!alignments_match_lowered("JUSTIFY", "both"));
    assert_eq!(style_level_lowered("heading 2"), Some(2));
    assert_eq!(style_level_lowered("Heading 2"), None);
}

#[test]
fn fonts_match_ignores_case() {
    for (a, b) in [("SimSun", "宋体"), ("ARIAL", "arial narrow"), ("Calibri", "CALIBRI"), ("x", "y")] {
        assert_eq!(fonts_match(a, b), fonts_match(&a.to_lowercase(), &b.to_lowercase()));
        assert_eq!(fonts_match(a, b), fonts_match(&a.to_uppercase(), b));
    }
}

#[test]
fn requirements_ignore_case() {
    for t in ["Times New Roman, APA, Justify", "GB/T 7714，两端对齐", "LEFT 2.0"] {
        let a = parse_format_requirements(t);
        let b = parse_format_requirements(&t.to_lowercase());
        let c = parse_format_requirements(&t.to_uppercase());
        assert_eq!(a.font_body, b.font_body);
        assert_eq!(a.alignment_body, b.alignment_body);
        assert_eq!(a.citation_style, c.citation_style);
        assert_eq!(a.line_spacing, c.line_spacing);
    }
}

fn pair(e: &str, a: &str) -> Option<(String, String)> {
    Some((e.to_string(), a.to_string()))
}

fn no_deviations() -> MeasureDeviations {
    MeasureDeviations { font_size: None, line_spacing: None, indent_first_line: None }
}

#[test]
fn heading_check_appends_in_order() {
    let req = req_with_fonts(Some("黑体"), Some("宋体"));
    let mut results = vec![heading_size_issue(0, 1, "1", "2")];
    check_heading_format(&req, 4, 2, &some("Arial"), false, &pair("16", "14"), &mut results);
    assert_eq!(results.len(), 4);
    check(&results[1], 4, "字体", "第2级标题字体不符合要求", "黑体", "Arial", "major", "将第2级标题字体设置为黑体");
    check(&results[2], 4, "字号", "第2级标题字号不符合要求", "16pt", "14pt", "major", "将第2级标题字号设置为16pt");
    check(&results[3], 4, "加粗", "第2级标题未加粗", "加粗", "未加粗", "minor", "将第2级标题设置为加粗");
    let mut clean = Vec::new();
    check_heading_format(&req, 4, 1, &some("SimHei"), true, &None, &mut clean);
    assert!(clean.is_empty());
}

#[test]
fn body_check_appends_in_order() {
    let mut req = req_with_fonts(None, Some("宋体"));
    req.alignment_body = some("justify");
    let deviations = MeasureDeviations {
        font_size: pair("12", "10.5"),
        line_spacing: pair("1.5", "1"),
        indent_first_line: pair("2", "0"),
    };
    let mut results = Vec::new();
    check_body_format(&req, 6, "一段足够长的正文", &some("Arial"), &some("left"), &deviations, &mut results);
    assert_eq!(results.len(), 5);
    check(&results[0], 6, "字体", "正文字体不符合要求", "宋体", "Arial", "major", "将正文字体设置为宋体");
    check(&results[1], 6, "字号", "正文字号不符合要求", "12pt", "10.5pt", "major", "将正文字号设置为12pt");
    check(&results[2], 6, "行距", "行距不符合要求", "1.5倍", "1倍", "major", "将行距设置为1.5倍");
    check(&results[3], 6, "缩进", "首行缩进不符合要求", "2字符", "0字符", "major", "设置首行缩进2字符");
    check(&results[4], 6, "对齐", "段落对齐方式不符合要求", "justify", "left", "minor", "设置对齐方式为justify");
    // a paragraph under five bytes is not checked
    let mut short = Vec::new();
    check_body_format(&req, 6, " abc ", &some("Arial"), &some("left"), &deviations, &mut short);
    assert!(short.is_empty());
}

#[test]
fn overall_check_appends_in_order() {
    let mut results = Vec::new();
    check_overall_format(0, 11, &pair("1.5", "1.2"), &mut results);
    assert_eq!(results.len(), 2);
    assert_eq!(results[0].issue_type, "标题层次");
    check(&results[1], 0, "行距", "行距设置不一致", "1.5倍", "平均1.2倍", "minor", "确保全文行距一致");
    let mut none = Vec::new();
    check_overall_format(1, 11, &None, &mut none);
    assert!(none.is_empty());
}

fn body_paragraph(index: usize, text: &str) -> MeasuredParagraph {
    MeasuredParagraph {
        index,
        text: text.to_string(),
        font_name: some("宋体"),
        is_bold: false,
        alignment: None,
        heading_level: None,
        deviations: no_deviations(),
    }
}

#[test]
fn comparison_of_paragraphs() {
    let req = req_with_fonts(Some("黑体"), Some("宋体"));
    let mut heading = body_paragraph(0, "绪论");
    heading.heading_level = Some(1);
    heading.font_name = some("宋体");
    heading.deviations.font_size = pair("16", "12");
    let mut body = body_paragraph(1, "这是一段正文内容");
    body.font_name = some("Arial");
    let results = compare_measured(&req, &vec![heading, body], &None);
    assert_eq!(results.len(), 4);
    check(&results[0], 0, "字体", "第1级标题字体不符合要求", "黑体", "宋体", "major", "将第1级标题字体设置为黑体");
    check(&results[1], 0, "字号", "第1级标题字号不符合要求", "16pt", "12pt", "major", "将第1级标题字号设置为16pt");
    assert_eq!(results[2].issue_type, "加粗");
    check(&results[3], 1, "字体", "正文字体不符合要求", "宋体", "Arial", "major", "将正文字体设置为宋体");
}

#[test]
fn comparison_without_headings() {
    let req = FormatRequirements::default();
    // eleven body paragraphs of ten bytes or more, and one shorter
    let mut paragraphs: Vec<MeasuredParagraph> =
        (0..11).map(|i| body_paragraph(i, "ten bytes!")).collect();
    paragraphs.push(body_paragraph(11, "short"));
    let results = compare_measured(&req, &paragraphs, &pair("1.5", "1"));
    assert_eq!(results.len(), 2);
    assert_eq!(results[0].issue_type, "标题层次");
    check(&results[1], 0, "行距", "行距设置不一致", "1.5倍", "平均1倍", "minor", "确保全文行距一致");
    // ten long body paragraphs are not enough
    paragraphs.truncate(10);
    assert!(compare_measured(&req, &paragraphs, &None).is_empty());
    // one heading among them silences the issue
    let mut with_heading = paragraphs.clone();
    for _ in 0..5 {
        with_heading.push(body_paragraph(20, "ten bytes!"));
    }
    let mut h = body_paragraph(30, "标题");
    h.heading_level = Some(3);
    with_heading.push(h);
    assert!(compare_measured(&req, &with_heading, &None).is_empty());
}
