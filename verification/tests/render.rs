use arto::markdown::{render_body, render_html};

#[test]
fn test_render_to_html_basic() {
    let result = render_html("# Hello\n\nThis is a test.");
    assert!(result.contains("<h1>"));
    assert!(result.contains("Hello"));
    assert!(result.contains("<p>"));
    assert!(result.contains("This is a test."));
}

#[test]
fn test_code_block_language_classes() {
    let markdown = "# Code Blocks Test\n\n```rust\nfn main() {\n    println!(\"Hello\");\n}\n```\n\n```python\ndef hello():\n    print(\"world\")\n```\n\n```\nno language specified\n```\n";
    let result = render_html(markdown);
    let has_rust = result.contains("language-rust") || result.contains("class=\"rust\"");
    let has_python = result.contains("language-python") || result.contains("class=\"python\"");
    println!("Has rust class: {}", has_rust);
    println!("Has python class: {}", has_python);
}

#[test]
fn test_render_to_html_with_alert() {
    let result = render_html("# Title\n\n> [!NOTE]\n> This is important\n");
    assert!(result.contains("markdown-alert-note"));
    assert!(result.contains("This is important"));
}

#[test]
fn test_render_to_html_with_mermaid() {
    let result = render_html("```mermaid\ngraph LR\n    A-->B\n```\n");
    assert!(result.contains(r#"<pre class="preprocessed-mermaid""#));
    assert!(result.contains("graph LR"));
}

#[test]
fn test_render_to_html_with_math() {
    let markdown = "# Math Test\n\nInline math: $E = mc^2$\n\nDisplay math:\n$$\n\\int_0^\\infty e^{-x^2} dx = \\frac{\\sqrt{\\pi}}{2}\n$$\n";
    let result = render_html(markdown);
    assert!(result.contains(r#"class="preprocessed-math-inline""#), "Should render inline math");
    assert!(result.contains(r#"class="preprocessed-math-display""#), "Should render display math");
    assert!(result.contains("data-original-content"), "Should include data attributes");
}

#[test]
fn test_render_to_html_with_frontmatter() {
    let markdown = "---\ntitle: My Document\ndraft: false\n---\n\n# Content Here\n";
    let result = render_html(markdown);
    assert!(result.contains(r#"<details class="frontmatter""#));
    assert!(result.contains("<th>title</th>"));
    assert!(result.contains("<td>My Document</td>"));
    assert!(result.contains(r#"<span class="yaml-bool">false</span>"#));
    assert!(result.contains("<h1>Content Here</h1>"));
    let frontmatter_pos = result.find("frontmatter-table").unwrap();
    let heading_pos = result.find("<h1>").unwrap();
    assert!(frontmatter_pos < heading_pos, "Frontmatter should appear before content");
}

#[test]
fn test_render_to_html_with_toc() {
    let markdown = "# Title\n\nSome content\n\n## Section 1\n\nMore content\n";
    let (html, headings) = render_body(markdown);
    assert_eq!(headings.len(), 2);
    assert_eq!(headings[0].text, "Title");
    assert_eq!(headings[1].text, "Section 1");
    assert!(html.contains(r#"<h1 id="title">"#), "H1 should have id attribute");
    assert!(html.contains(r#"<h2 id="section-1">"#), "H2 should have id attribute");
}

#[test]
fn test_render_links_become_spans() {
    let html = render_html("[Link to other doc](other.md) [web](https://example.com/a.md) [img](pic.png)\n");
    assert!(html.contains(r#"class="md-link""#));
    assert!(html.contains(r#"class="md-link md-link-invalid""#));
    assert!(html.contains(r#"<a href="https://example.com/a.md">"#));
    assert!(!html.contains(r#"href="other.md""#));
}

#[test]
fn test_render_keeps_local_images_for_inlining() {
    let html = render_html("![Test Image](image.png)\n");
    assert!(html.contains(r#"src="image.png""#));
}

#[test]
fn test_render_invalid_frontmatter_is_kept_as_text() {
    let html = render_html("---\ninvalid: [unclosed\n---\n\nContent\n");
    assert!(!html.contains("frontmatter-table"));
    assert!(html.contains("Content"));
}
