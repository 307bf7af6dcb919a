use paper_format_checker::llm::{
    authorization, build_format_check_prompt, build_guideline_parsing_prompt, extract_json,
    format_check_endpoint, format_requirements_to_text, guideline_endpoint,
    guideline_json_readable, llm_reply_json, reply_json_readable, AbstractRequirement,
    CitationRequirement, DocumentAnalysisMetadata, FontRequirement, FormatCheckRequest,
    GuidelineFormatRequirements, GuidelineParseRequest, LlmConfig, MarginRequirement,
    ReferencesRequirement, SpacingRequirement, StyleInfo,
};

fn some(s: &str) -> Option<String> {
    Some(s.to_string())
}

#[test]
fn default_config_is_minimax() {
    let c = LlmConfig::default();
    assert_eq!(c.provider, "minimax");
    assert_eq!(c.api_key, "");
    assert_eq!(c.model, "MiniMax-Text-01");
    assert_eq!(c.base_url, "https://api.minimax.chat/v1");
    assert_eq!(
        format_check_endpoint(&c),
        Ok("https://api.minimax.chat/v1/text/chatcompletion_v2".to_string())
    );
    assert_eq!(
        guideline_endpoint(&c),
        Ok("https://api.minimax.chat/v1/text/chatcompletion_v2".to_string())
    );
}

#[test]
fn configure_known_provider_sets_base_url() {
    let mut c = LlmConfig::default();
    c.configure("openai".to_string(), "sk-1".to_string(), "gpt-4o-mini".to_string());
    assert_eq!(c.provider, "openai");
    assert_eq!(c.api_key, "sk-1");
    assert_eq!(c.model, "gpt-4o-mini");
    assert_eq!(c.base_url, "https://api.openai.com/v1");
    assert_eq!(format_check_endpoint(&c), Ok("https://api.openai.com/v1/chat/completions".to_string()));
    assert_eq!(guideline_endpoint(&c), Ok("https://api.openai.com/v1/chat/completions".to_string()));
    c.configure("minimax".to_string(), "k2".to_string(), "abab6.5s-chat".to_string());
    assert_eq!(c.base_url, "https://api.minimax.chat/v1");
    assert_eq!(authorization(&c), "Bearer k2");
}

#[test]
fn configure_unknown_provider_keeps_base_url() {
    let mut c = LlmConfig::default();
    c.base_url = "http://localhost:8080/v1".to_string();
    c.configure("local".to_string(), "k".to_string(), "m".to_string());
    assert_eq!(c.provider, "local");
    assert_eq!(c.base_url, "http://localhost:8080/v1");
    assert_eq!(format_check_endpoint(&c), Err("Unknown provider: local".to_string()));
    assert_eq!(guideline_endpoint(&c), Err("Unknown provider: local".to_string()));
}

#[test]
fn configure_twice_same_as_once() {
    let mut a = LlmConfig::default();
    a.configure("openai".to_string(), "k".to_string(), "m".to_string());
    let mut b = a.clone();
    b.configure("openai".to_string(), "k".to_string(), "m".to_string());
    assert_eq!(a.provider, b.provider);
    assert_eq!(a.base_url, b.base_url);
}

#[test]
fn reply_json_from_json_fence() {
    let c = "Here you go:\n```json\n{\"issues\": []}\n```\nDone";
    assert!(reply_json_readable(c));
    assert_eq!(llm_reply_json(c), "{\"issues\": []}");
}

#[test]
fn reply_json_from_plain_fence() {
    let c = "```\n  {\"a\": 1}  \n```";
    assert_eq!(llm_reply_json(c), "{\"a\": 1}");
}

#[test]
fn reply_json_from_braces() {
    let c = "The result is {\"a\": {\"b\": 2}} as asked.";
    assert_eq!(llm_reply_json(c), "{\"a\": {\"b\": 2}}");
    assert_eq!(llm_reply_json("  no json here  "), "no json here");
    assert_eq!(llm_reply_json("{ open only"), "{ open only");
}

#[test]
fn reply_json_plain_object_kept() {
    let c = "\n  {\"summary\": {\"total_issues\": 0}}\n";
    assert_eq!(llm_reply_json(c), "{\"summary\": {\"total_issues\": 0}}");
    assert_eq!(extract_json(c), "{\"summary\": {\"total_issues\": 0}}");
}

#[test]
fn reply_json_braces_in_wrong_order() {
    let c = "} then {";
    assert!(!reply_json_readable(c));
    assert!(!guideline_json_readable(c));
    assert!(reply_json_readable("{}"));
    assert!(reply_json_readable("x}{"));
    assert_eq!(llm_reply_json("x}{"), "");
}

#[test]
fn guideline_json_fences() {
    let c = "  ```json\n{\"font\": null}\n```  ";
    assert!(guideline_json_readable(c));
    assert_eq!(extract_json(c), "{\"font\": null}");
    assert_eq!(extract_json("```\n{\"x\":1}\n"), "{\"x\":1}");
    assert_eq!(extract_json("text {\"x\":1} more"), "{\"x\":1}");
    assert_eq!(extract_json("  nothing  "), "nothing");
}

fn style(name: &str) -> StyleInfo {
    StyleInfo {
        name: name.to_string(),
        font_name: None,
        font_size: None,
        is_bold: false,
        alignment: None,
        line_spacing: None,
    }
}

const CHECK_TAIL: &str = r#"
## 检测要求
请仔细对比"论文格式要求"和"论文格式信息"，检查以下方面：
1. 字体：要求使用什么字体，论文实际使用了什么字体
2. 字号：各级标题、正文的字号是否正确
3. 行距：行距设置是否符合要求
4. 页边距：检查页面设置
5. 对齐方式：段落对齐是否正确
6. 缩进：段落缩进是否正确
7. 标题层次：标题层级是否规范
8. 页眉页脚：是否有且格式正确
9. 参考文献：格式是否符合要求

## 输出要求
请以JSON格式返回检查结果，必须包含所有发现的问题：
{
  "issues": [
    {
      "issue_type": "字体/字号/行距/页边距/对齐/缩进/标题层次/页眉页脚/参考文献/其他",
      "description": "具体问题描述，明确指出哪里不符合要求",
      "location": {"page": null, "paragraph": null, "section": "具体位置"},
      "severity": "critical/major/minor",
      "suggestion": "具体修复建议"
    }
  ],
  "summary": {
    "total_issues": 5,
    "critical": 1,
    "major": 3,
    "minor": 1,
    "overall_assessment": "整体评估"
  }
}

请直接返回JSON，不要有其他文字。确保返回所有发现的问题，不要遗漏。"#;

#[test]
fn format_check_prompt_full() {
    let mut normal = style("Normal");
    normal.font_name = some("SimSun");
    normal.font_size = some("10.5");
    normal.line_spacing = some("1.5");
    let mut heading = style("Heading 1");
    heading.is_bold = true;
    heading.alignment = some("center");
    let mut meta = DocumentAnalysisMetadata::default();
    meta.file_type = "docx".to_string();
    meta.page_count = 3;
    meta.word_count = 1200;
    meta.paragraph_count = 40;
    meta.fonts_detected = vec!["SimSun".to_string(), "Arial".to_string()];
    meta.styles_used = vec![normal, heading, style("Title")];
    meta.average_line_spacing = some("1.5");
    meta.has_bibliography = true;
    let request = FormatCheckRequest {
        format_requirements: "正文宋体".to_string(),
        document_content: String::new(),
        document_metadata: meta,
    };
    let expected = String::new()
        + "你是论文格式检查专家。请根据用户提供的格式要求和论文格式信息，检查所有格式是否符合要求。\n\n"
        + "## 论文格式要求（请严格遵守）\n正文宋体\n\n"
        + "## 论文格式信息\n- 总页数: 3\n- 总字数: 1200\n- 总段落数: 40\n"
        + "\n### 使用的字体\n- SimSun\n- Arial\n"
        + "\n### 样式统计（共 3 种样式）\n"
        + "- Normal: 字体: SimSun, 字号: 10.5pt, 行距: 1.5倍\n"
        + "- Heading 1: 加粗, 对齐: center\n"
        + "- Title: (默认样式)\n"
        + "\n### 行距\n- 平均行距: 1.5 倍\n"
        + "\n### 章节结构\n- 无目录\n- 有参考文献\n"
        + CHECK_TAIL;
    assert_eq!(build_format_check_prompt(&request), expected);
}

#[test]
fn format_check_prompt_empty_metadata() {
    let request = FormatCheckRequest {
        format_requirements: String::new(),
        document_content: String::new(),
        document_metadata: DocumentAnalysisMetadata::default(),
    };
    let expected = String::new()
        + "你是论文格式检查专家。请根据用户提供的格式要求和论文格式信息，检查所有格式是否符合要求。\n\n"
        + "## 论文格式要求（请严格遵守）\n\n\n"
        + "## 论文格式信息\n- 总页数: 0\n- 总字数: 0\n- 总段落数: 0\n"
        + "\n### 章节结构\n- 无目录\n- 无参考文献\n"
        + CHECK_TAIL;
    assert_eq!(build_format_check_prompt(&request), expected);
}

#[test]
fn guideline_prompt_parts() {
    let r = GuidelineParseRequest {
        guideline_text: "正文小四号宋体".to_string(),
        guideline_source: some("学校官网"),
        expected_style: some("GB/T 7714"),
    };
    let p = build_guideline_parsing_prompt(&r);
    let head = "你是论文格式规范解析专家。请从以下论文撰写规范中提取所有格式要求，返回结构化的JSON数据。\n\n\
                ## 规范来源\n学校官网\n\n## 预期格式标准\nGB/T 7714\n\n## 论文撰写规范原文\n```\n正文小四号宋体\n```\n\n## 提取要求\n";
    assert!(p.starts_with(head));
    assert!(p.contains("\"font_size_body\": 正文字号（数字，单位pt）,"));
    assert!(p.ends_with("请直接返回JSON："));

    let bare = GuidelineParseRequest { guideline_text: "x".to_string(), guideline_source: None, expected_style: None };
    let q = build_guideline_parsing_prompt(&bare);
    assert!(q.starts_with(
        "你是论文格式规范解析专家。请从以下论文撰写规范中提取所有格式要求，返回结构化的JSON数据。\n\n## 论文撰写规范原文\n```\nx\n```\n\n"
    ));
    assert!(q.contains("## 提取要求\n"));
}

#[test]
fn requirements_text_empty() {
    assert_eq!(format_requirements_to_text(&GuidelineFormatRequirements::default()), "## 论文格式要求");
}

fn font_req() -> FontRequirement {
    FontRequirement {
        font_family: some("宋体"),
        font_family_alternative: None,
        font_size_body: some("12"),
        font_size_title: None,
        font_size_heading1: some("16"),
        font_size_heading2: None,
        font_size_heading3: None,
        font_style_body: None,
        bold_required: false,
        confidence: "high".to_string(),
        source_snippet: None,
    }
}

fn margins(top: Option<&str>, unit: Option<&str>) -> MarginRequirement {
    MarginRequirement {
        top: top.map(|s| s.to_string()),
        bottom: some("2.5"),
        left: some("3"),
        right: some("2"),
        unit: unit.map(|s| s.to_string()),
        header_position: None,
        footer_position: None,
        confidence: "medium".to_string(),
        source_snippet: None,
    }
}

#[test]
fn requirements_text_sections() {
    let mut r = GuidelineFormatRequirements::default();
    r.font = Some(font_req());
    r.spacing = Some(SpacingRequirement {
        line_spacing: some("1.5"),
        line_spacing_unit: some("倍"),
        paragraph_spacing_before: None,
        paragraph_spacing_after: None,
        paragraph_indent: some("2"),
        paragraph_indent_unit: None,
        confidence: "high".to_string(),
        source_snippet: None,
    });
    r.margins = Some(margins(some("2.5").as_deref(), None));
    r.citations = Some(CitationRequirement {
        citation_style: some("GB/T 7714"),
        in_text_format: some("[1]"),
        reference_format: None,
        reference_numbering: None,
        confidence: "high".to_string(),
        source_snippet: None,
    });
    r.abstract_spec = Some(AbstractRequirement {
        abstract_keyword: None,
        abstract_length: some("300字"),
        abstract_font_size: None,
        abstract_alignment: None,
        abstract_keywords_required: true,
        abstract_keywords_label: None,
        confidence: "low".to_string(),
        source_snippet: None,
    });
    r.references = Some(ReferencesRequirement {
        references_title: some("参考文献"),
        references_placement: None,
        references_ordering: some("引用顺序"),
        references_format: None,
        references_indentation: None,
        confidence: "high".to_string(),
        source_snippet: None,
    });
    let expected = "## 论文格式要求\n\n\
### 字体要求\n- 正文字体：宋体\n- 正文字号：12pt\n- 一级标题字号：16pt\n\n\
### 间距要求\n- 行距：1.5 倍\n- 段落缩进：2字符\n\n\
### 页边距要求\n- 上：2.5cm\n- 下：2.5cm\n- 左：3cm\n- 右：2cm\n\n\
### 引用格式\n- 引用风格：GB/T 7714\n- 文中引用：[1]\n\n\
### 摘要要求\n- 摘要长度：300字\n- 需要关键词\n\n\
### 参考文献要求\n- 参考文献标题：参考文献\n- 排序方式：引用顺序";
    assert_eq!(format_requirements_to_text(&r), expected);
}

#[test]
fn requirements_text_partial_margins() {
    let mut r = GuidelineFormatRequirements::default();
    r.margins = Some(margins(None, Some("inch")));
    assert_eq!(format_requirements_to_text(&r), "## 论文格式要求\n\n### 页边距要求");
    r.margins = Some(margins(Some("1"), Some("inch")));
    assert_eq!(
        format_requirements_to_text(&r),
        "## 论文格式要求\n\n### 页边距要求\n- 上：1inch\n- 下：2.5inch\n- 左：3inch\n- 右：2inch"
    );
}

#[test]
fn requirements_text_is_trimmed() {
    let mut r = GuidelineFormatRequirements::default();
    let mut f = font_req();
    f.font_family = None;
    f.font_size_body = None;
    f.font_size_heading1 = None;
    r.font = Some(f);
    let t = format_requirements_to_text(&r);
    assert_eq!(t, "## 论文格式要求\n\n### 字体要求");
    assert_eq!(t.trim(), t);
}
