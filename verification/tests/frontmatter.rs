use arto::markdown::frontmatter::{
    extract_and_render_frontmatter, frontmatter, frontmatter_source, render_frontmatter_table, render_yaml_value,
    yaml_to_string, Yaml,
};

fn extract(markdown: &str) -> (String, String, usize) {
    frontmatter(markdown)
}

#[test]
fn frontmatter_test_extract_and_render_frontmatter_basic() {
    let markdown = "---\ntitle: Test Document\nauthor: John Doe\n---\n\n# Hello World\n";

    let (html, content, _frontmatter_lines) = extract(markdown);

    assert!(html.contains(r#"<details class="frontmatter">"#));
    assert!(html.contains(r#"<table class="frontmatter-table""#));
    assert!(html.contains("<th>title</th>"));
    assert!(html.contains("<td>Test Document</td>"));
    assert!(html.contains("<th>author</th>"));
    assert!(html.contains("<td>John Doe</td>"));
    assert!(content.starts_with("# Hello World"));
}

#[test]
fn frontmatter_test_extract_and_render_frontmatter_with_types() {
    let markdown = "---\nenabled: true\ncount: 42\nempty:\n---\n\nContent\n";

    let (html, _content, _frontmatter_lines) = extract(markdown);

    assert!(html.contains(r#"<span class="yaml-bool">true</span>"#));
    assert!(html.contains(r#"<span class="yaml-number">42</span>"#));
    assert!(html.contains(r#"<span class="yaml-null">null</span>"#));
}

#[test]
fn frontmatter_test_extract_and_render_frontmatter_with_list() {
    let markdown = "---\ntags:\n  - rust\n  - markdown\n---\n\nContent\n";

    let (html, _content, _frontmatter_lines) = extract(markdown);

    assert!(html.contains(r#"<ul class="yaml-list">"#));
    assert!(html.contains("<li>rust</li>"));
    assert!(html.contains("<li>markdown</li>"));
}

#[test]
fn frontmatter_test_extract_and_render_frontmatter_no_frontmatter() {
    let markdown = "# Just a heading\n\nSome content";

    let (html, content, _frontmatter_lines) = extract(markdown);

    assert!(html.is_empty());
    assert_eq!(content, markdown);
}

#[test]
fn test_frontmatter_line_count() {
    let markdown = "---\ntitle: Test\n---\n\n# Content\n";
    let (_html, content, frontmatter_lines) = extract(markdown);
    assert_eq!(frontmatter_lines, 4);
    assert!(content.starts_with("# Content"));
}

#[test]
fn test_frontmatter_line_count_no_frontmatter() {
    let markdown = "# Just content";
    let (_html, _content, frontmatter_lines) = extract(markdown);
    assert_eq!(frontmatter_lines, 0);
}

#[test]
fn test_extract_and_render_frontmatter_invalid_yaml() {
    let markdown = "---\ninvalid: [unclosed\n---\n\nContent\n";

    let (html, content, frontmatter_lines) = extract(markdown);

    assert!(html.is_empty(), "Invalid YAML should produce no HTML");
    assert_eq!(content, markdown, "Should return original markdown");
    assert_eq!(frontmatter_lines, 0, "Should report 0 frontmatter lines");
}

#[test]
fn test_extract_and_render_frontmatter_only_no_body() {
    let markdown = "---\ntitle: Test\n---\n";

    let (html, content, frontmatter_lines) = extract(markdown);

    assert!(html.contains("<th>title</th>"), "Should render frontmatter table");
    assert!(content.is_empty(), "Content should be empty when no body: '{content}'");
    assert!(frontmatter_lines > 0, "Should count frontmatter lines");
}

#[test]
fn test_extract_and_render_frontmatter_unclosed_delimiter() {
    let markdown = "---\ntitle: Test\nContent without closing";

    let (html, content, frontmatter_lines) = extract(markdown);

    assert!(html.is_empty(), "Should produce no HTML");
    assert_eq!(content, markdown, "Should return original markdown");
    assert_eq!(frontmatter_lines, 0);
}

#[test]
fn markdown_test_extract_and_render_frontmatter_basic() {
    let markdown = "---\ntitle: Test Document\nauthor: John Doe\n---\n\n# Hello World\n";

    let (html, content, _) = extract(markdown);

    assert!(html.contains(r#"<details class="frontmatter">"#));
    assert!(html.contains(r#"<table class="frontmatter-table""#));
    assert!(html.contains("<th>title</th>"));
    assert!(html.contains("<td>Test Document</td>"));
    assert!(html.contains("<th>author</th>"));
    assert!(html.contains("<td>John Doe</td>"));
    assert!(content.starts_with("# Hello World"));
}

#[test]
fn markdown_test_extract_and_render_frontmatter_with_types() {
    let markdown = "---\nenabled: true\ncount: 42\nempty:\n---\n\nContent\n";

    let (html, _content, _) = extract(markdown);

    assert!(html.contains(r#"<span class="yaml-bool">true</span>"#));
    assert!(html.contains(r#"<span class="yaml-number">42</span>"#));
    assert!(html.contains(r#"<span class="yaml-null">null</span>"#));
}

#[test]
fn markdown_test_extract_and_render_frontmatter_with_list() {
    let markdown = "---\ntags:\n  - rust\n  - markdown\n---\n\nContent\n";

    let (html, _content, _) = extract(markdown);

    assert!(html.contains(r#"<ul class="yaml-list">"#));
    assert!(html.contains("<li>rust</li>"));
    assert!(html.contains("<li>markdown</li>"));
}

#[test]
fn markdown_test_extract_and_render_frontmatter_no_frontmatter() {
    let markdown = "# Just a heading\n\nSome content";

    let (html, content, _) = extract(markdown);

    assert!(html.is_empty());
    assert_eq!(content, markdown);
}

#[test]
fn test_frontmatter_source_is_trimmed_yaml() {
    assert_eq!(
        frontmatter_source("---\n  a: 1 \n---\nbody"),
        Some("a: 1".to_string())
    );
    assert_eq!(frontmatter_source("no frontmatter"), None);
    assert_eq!(frontmatter_source("---\nunclosed"), None);
}

#[test]
fn test_render_frontmatter_table_exact() {
    let yaml = Yaml::Mapping(vec![(Yaml::Str("a<b".to_string()), Yaml::Number("1".to_string()))]);
    assert_eq!(
        render_frontmatter_table(&yaml),
        "<details class=\"frontmatter\">\n<summary class=\"frontmatter-summary\">Frontmatter</summary>\n<table class=\"frontmatter-table\">\n<tbody>\n<tr><th>a&lt;b</th><td><span class=\"yaml-number\">1</span></td></tr>\n\n</tbody>\n</table>\n</details>"
    );
    assert_eq!(render_frontmatter_table(&Yaml::Mapping(vec![])), "");
    assert_eq!(render_frontmatter_table(&Yaml::Str("x".to_string())), "");
}

#[test]
fn test_render_yaml_value_nested_and_empty() {
    assert_eq!(render_yaml_value(&Yaml::Sequence(vec![])), "<span class=\"yaml-empty\">[]</span>");
    assert_eq!(render_yaml_value(&Yaml::Mapping(vec![])), "<span class=\"yaml-empty\">{{}}</span>");
    assert_eq!(
        render_yaml_value(&Yaml::Mapping(vec![(Yaml::Str("k".to_string()), Yaml::Bool(false))])),
        "<table class=\"yaml-nested-table\"><tbody><tr><th>k</th><td><span class=\"yaml-bool\">false</span></td></tr></tbody></table>"
    );
    assert_eq!(render_yaml_value(&Yaml::Str("<x>".to_string())), "&lt;x&gt;");
}

#[test]
fn test_yaml_to_string_forms() {
    let list = Yaml::Sequence(vec![Yaml::Number("1".to_string()), Yaml::Null, Yaml::Bool(true)]);
    assert_eq!(yaml_to_string(&list), "1, null, true");
    assert_eq!(yaml_to_string(&Yaml::Mapping(vec![])), "[object]");
}

#[test]
fn test_extract_with_given_value() {
    let yaml = Yaml::Mapping(vec![(Yaml::Str("k".to_string()), Yaml::Str("v".to_string()))]);
    let (html, content, lines) = extract_and_render_frontmatter("---\nk: v\n---\nbody", Some(&yaml));
    assert!(html.contains("<th>k</th><td>v</td>"));
    assert_eq!(content, "body");
    assert_eq!(lines, 3);
    let (html, content, lines) = extract_and_render_frontmatter("---\nk: v\n---\nbody", None);
    assert_eq!((html.as_str(), content.as_str(), lines), ("", "---\nk: v\n---\nbody", 0));
}

#[test]
fn test_frontmatter_parses_nested_and_tagged_values() {
    let (html, _, _) = frontmatter("---\nmeta:\n  a: 1\nlist: []\ntagged: !custom hello\n---\n");
    assert!(html.contains("<table class=\"yaml-nested-table\"><tbody><tr><th>a</th><td><span class=\"yaml-number\">1</span></td></tr></tbody></table>"));
    assert!(html.contains("<span class=\"yaml-empty\">[]</span>"));
    assert!(html.contains("<th>tagged</th><td>hello</td>"));
}
