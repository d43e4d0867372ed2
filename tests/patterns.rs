use md2tex::{
    code_float_captures, equation_label, footnote_captures, footnote_ref_mark, heading_captures,
    local_link_captures, process_line_text, simple_string_process, table_column, State,
};

fn check_header_simple(prefix: &str) {
    let expected_head = "The Chapter/Section/Sub... Header";
    let test_str = format!("{} {}", prefix, expected_head);

    let o_cap = heading_captures(&test_str, prefix);
    assert!(o_cap.is_some());
    let cap = o_cap.unwrap();
    assert_eq!(cap.head, expected_head);
    assert!(cap.label.is_none());
}

fn check_header_with_label(prefix: &str) {
    let expected_head = "The Chapter/Section/Sub... Header";
    let expected_label = "lbl:rust:test";
    let test_str = format!("{} []{{#{}}}{}", prefix, expected_label, expected_head);

    let o_cap = heading_captures(&test_str, prefix);
    assert!(o_cap.is_some());
    let cap = o_cap.unwrap();
    assert_eq!(cap.head, expected_head);
    let o_label = cap.label;
    assert!(o_label.is_some());
    assert_eq!(o_label.unwrap(), expected_label);
}

#[test]
fn test_all() {
    for prefix in ["##", "###", "####", "#####"] {
        check_header_simple(prefix);
        check_header_with_label(prefix);
    }
}

#[test]
fn test_table_header_simple() {
    let expected_label = "Centered Column Header";
    let expected_desc = "c";
    let test_str = format!("<!-- {} --> {}", expected_desc, expected_label);

    let cap = table_column(&test_str);
    let head = cap.label.trim();
    assert_eq!(head, expected_label);
    let o_desc = cap.desc;
    assert!(o_desc.is_some());
    let desc = o_desc.unwrap();
    assert_eq!(desc.trim(), expected_desc);
}

#[test]
fn test_table_header_complex() {
    let expected_label = "Centered Column Header";
    let expected_desc = ">{\\raggedright\\arraybackslash}m{4cm}";
    let test_str = format!("  <!-- {}--> {}  ", expected_desc, expected_label);

    let cap = table_column(test_str.trim());
    let label = cap.label.trim();
    assert_eq!(label, expected_label);
    let o_desc = cap.desc;
    assert!(o_desc.is_some());
    let desc = o_desc.unwrap();
    assert_eq!(desc.trim(), expected_desc);
}

#[test]
fn test_footnote_mark() {
    let footnote_mark = "asdf";
    let expected_text = format!(
        "This is a test\\footnotemark[{}] of the system.",
        footnote_mark
    );
    let test_str = format!("This is a test[^{}] of the system.", footnote_mark);

    let o_mark = footnote_ref_mark(&test_str);
    assert!(o_mark.is_some());
    assert!(o_mark.unwrap() == footnote_mark);

    let processed = simple_string_process(&test_str);
    assert!(processed == expected_text);
}

#[test]
fn test_footnote_text() {
    let footnote_mark = "asdf";
    let footnote_body = "This is a test of the system.";
    let expected_text = format!("\\footnotetext[{}]{{\n{}\n", footnote_mark, footnote_body);
    let test_str = format!("[^{}]{}", footnote_mark, footnote_body);

    let o_cap = footnote_captures(&test_str);
    assert!(o_cap.is_some());
    let cap = o_cap.unwrap();
    assert!(cap.mark == footnote_mark);
    assert!(cap.body == footnote_body);

    let r_processed = process_line_text(&test_str);
    assert!(r_processed.is_ok());
    let processed = r_processed.ok().unwrap();
    assert!(matches!(processed.0, State::FootnoteBody));
    assert!(processed.1 == expected_text);
}

#[test]
fn test_comments() {
    for test_str in [
        "<!-- This is a comment and is expected to be removed. -->\n",
        "   <!-- This is a comment and is expected to be removed. -->\n",
        "<!-- This is a comment and is expected to be removed. -->   \n",
        "   <!-- This is a comment and is expected to be removed. -->   \n",
        "\t<!-- This is a comment and is expected to be removed. -->\t\n",
        "  \t<!-- This is a comment and is expected to be removed. -->\t  \n",
        "\t  <!-- This is a comment and is expected to be removed. -->  \t\n",
        "  \t  <!-- This is a comment and is expected to be removed. -->  \t\n",
        "  \t  <!-- This is a comment and is expected to be removed. -->  \t  \n",
    ] {
        let processed = simple_string_process(test_str);
        assert!(processed.trim().is_empty());
    }

    let comment_text = "<!-- This is a comment and is expected to be removed. -->";
    for (prefix, postfix) in [
        ("a", "b\n"),
        ("a   ", "b\n"),
        ("a", "   b\n"),
        ("a   ", "   b\n"),
        ("a\t", "\tb\n"),
        ("a  \t", "\t  b\n"),
        ("a\t  ", "  \tb\n"),
        ("a  \t  ", "  \tb\n"),
        ("a  \t  ", "  \t  b\n"),
    ] {
        let test_str = prefix.to_owned() + comment_text + postfix;
        let expected_str = prefix.to_owned() + postfix;
        let processed = simple_string_process(&test_str);
        assert!(processed == expected_str);
    }
}

#[test]
fn test_page_inclusions() {
    let page_label = "This should be ignored";
    let raw_page_path = "a_linked/page";
    let md_page_path = format!("{}.md", raw_page_path);
    let page_link = format!("[{}](./{})", page_label, md_page_path);
    let expected_text = format!("\\input{{{}}}\n", raw_page_path);

    let o_cap = local_link_captures(&page_link);
    assert!(o_cap.is_some());
    let cap = o_cap.unwrap();
    assert!(cap.label == page_label);
    assert!(cap.path == raw_page_path);

    let processed = process_line_text(&page_link);
    assert!(processed.is_ok());
    let (state, import) = processed.ok().unwrap();
    assert!(matches!(state, State::Text));
    assert!(import == expected_text);
}

#[test]
fn test_equations() {
    let eqn_line = r#"$$<!--eq:test-->"#;
    let o_label = equation_label(eqn_line);
    assert!(o_label.is_some());
    let label_text = o_label.unwrap();
    assert!(label_text.as_str() == "eq:test");
}

#[test]
fn test_code_regex() {
    let code_line = r#"```python<!--lst:test--><!--Hello World, this is a caption!-->"#;
    let o_cap = code_float_captures(code_line);
    assert!(o_cap.is_some());
    let cap = o_cap.unwrap();
    assert!(cap.lang.as_str() == "python");
    assert!(cap.label.as_str() == "lst:test");
    assert!(cap.caption.as_str() == "Hello World, this is a caption!");
}
