use arto::markdown::events::{
    extend_table_ranges, markdown_events, prepend_frontmatter, process_code_blocks,
    process_math_expressions, render_markdown_body, MdEvent, SpannedEvent,
};

fn html_of(events: &[SpannedEvent]) -> Vec<String> {
    events
        .iter()
        .filter_map(|e| match &e.event {
            MdEvent::Html(h) => Some(h.clone()),
            _ => None,
        })
        .collect()
}

#[test]
fn event_processors_test_process_mermaid_blocks() {
    let markdown = "```mermaid\ngraph TD\n    A-->B\n```\n";
    let events = process_code_blocks(markdown_events(markdown), "mermaid");
    let html_events = html_of(&events);

    assert!(!html_events.is_empty(), "Should contain HTML event");
    let html = &html_events[0];
    assert!(html.contains(r#"<pre class="preprocessed-mermaid""#));
    assert!(html.contains(r#"data-original-content="#));
    assert!(html.contains("</pre>"));
}

#[test]
fn markdown_test_process_mermaid_blocks() {
    let markdown = "```mermaid\ngraph TD\n    A-->B\n```\n";
    let events = process_code_blocks(markdown_events(markdown), "mermaid");
    let html_events = html_of(&events);

    assert!(!html_events.is_empty(), "Should contain HTML event");
    let html = &html_events[0];
    assert!(html.contains(r#"<pre class="preprocessed-mermaid""#));
    assert!(html.contains(r#"data-original-content="#));
    assert!(html.contains("</pre>"));
}

#[test]
fn event_processors_test_process_math_expressions_inline() {
    let markdown = "This is inline math: $x = y + z$";
    let html_events = html_of(&process_math_expressions(markdown_events(markdown)));

    assert!(
        html_events.iter().any(|h| h.contains(r#"<span class="preprocessed-math-inline""#)),
        "Should contain inline-math span"
    );
    assert!(
        html_events.iter().any(|h| h.contains("data-original-content")),
        "Should contain data attribute"
    );
    assert!(
        html_events.iter().any(|h| h.contains("x = y + z")),
        "Should contain the math content"
    );
}

#[test]
fn markdown_test_process_math_expressions_inline() {
    let markdown = "This is inline math: $x = y + z$";
    let html_events = html_of(&process_math_expressions(markdown_events(markdown)));

    assert!(html_events.iter().any(|h| h.contains(r#"<span class="preprocessed-math-inline""#)));
    assert!(html_events.iter().any(|h| h.contains("data-original-content")));
    assert!(html_events.iter().any(|h| h.contains("x = y + z")));
}

#[test]
fn event_processors_test_process_math_expressions_display() {
    let markdown = "Display math:\n\n$$\nx = \\frac{-b \\pm \\sqrt{b^2-4ac}}{2a}\n$$\n";
    let html_events = html_of(&process_math_expressions(markdown_events(markdown)));

    assert!(
        html_events.iter().any(|h| h.contains(r#"<div class="preprocessed-math-display""#)),
        "Should contain display-math div"
    );
    assert!(
        html_events.iter().any(|h| h.contains("data-original-content")),
        "Should contain data attribute"
    );
    assert!(
        html_events.iter().any(|h| h.contains("frac")),
        "Should contain the math content"
    );
}

#[test]
fn markdown_test_process_math_expressions_display() {
    let markdown = "Display math:\n\n$$\nx = \\frac{-b \\pm \\sqrt{b^2-4ac}}{2a}\n$$\n";
    let html_events = html_of(&process_math_expressions(markdown_events(markdown)));

    assert!(html_events.iter().any(|h| h.contains(r#"<div class="preprocessed-math-display""#)));
    assert!(html_events.iter().any(|h| h.contains("data-original-content")));
    assert!(html_events.iter().any(|h| h.contains("frac")));
}

#[test]
fn event_processors_test_process_math_expressions_mixed() {
    let markdown = "Inline $a + b$ and display $$c = d$$";
    let html_events = html_of(&process_math_expressions(markdown_events(markdown)));

    assert!(
        html_events.iter().any(|h| h.contains(r#"class="preprocessed-math-inline""#)),
        "Should contain inline math"
    );
    assert!(
        html_events.iter().any(|h| h.contains(r#"class="preprocessed-math-display""#)),
        "Should contain display math"
    );
}

#[test]
fn markdown_test_process_math_expressions_mixed() {
    let markdown = "Inline $a + b$ and display $$c = d$$";
    let html_events = html_of(&process_math_expressions(markdown_events(markdown)));

    assert!(html_events.iter().any(|h| h.contains(r#"class="preprocessed-math-inline""#)));
    assert!(html_events.iter().any(|h| h.contains(r#"class="preprocessed-math-display""#)));
}

#[test]
fn test_extend_table_ranges_no_table() {
    let markdown = "Just a paragraph\n\nAnother one";
    let original = markdown_events(markdown);
    let extended = extend_table_ranges(markdown_events(markdown));

    assert_eq!(original.len(), extended.len());
    for (orig, ext) in original.iter().zip(extended.iter()) {
        assert_eq!((orig.start, orig.end), (ext.start, ext.end), "Ranges should be identical without tables");
    }
}

#[test]
fn test_extend_table_ranges_single_table() {
    let markdown = "| A | B |\n|---|---|\n| 1 | 2 |";
    let events = extend_table_ranges(markdown_events(markdown));

    let table_start = events.iter().find(|e| matches!(e.event, MdEvent::StartTable));
    let table_end = events.iter().find(|e| matches!(e.event, MdEvent::EndTable));

    assert!(table_start.is_some(), "Should have table start");
    assert!(table_end.is_some(), "Should have table end");

    assert_eq!(
        table_start.unwrap().end,
        table_end.unwrap().end,
        "Start(Table) range end should match End(Table) range end"
    );
}

#[test]
fn test_extend_table_ranges_multiple_tables() {
    let markdown = "| A |\n|---|\n| 1 |\n\n| X |\n|---|\n| Y |";
    let events = extend_table_ranges(markdown_events(markdown));

    let table_starts: Vec<_> = events.iter().filter(|e| matches!(e.event, MdEvent::StartTable)).collect();

    assert_eq!(table_starts.len(), 2, "Should have two tables");
    assert_ne!(
        (table_starts[0].start, table_starts[0].end),
        (table_starts[1].start, table_starts[1].end),
        "Tables should have different ranges"
    );
}

#[test]
fn test_extend_table_ranges_header_only_table() {
    let markdown = "| A | B |\n|---|---|";
    let events = extend_table_ranges(markdown_events(markdown));

    let table_start = events.iter().find(|e| matches!(e.event, MdEvent::StartTable));
    assert!(table_start.is_some(), "Should have table start even with header only");
}

#[test]
fn test_process_code_blocks_empty() {
    let markdown = "```mermaid\n```";
    let html_events = html_of(&process_code_blocks(markdown_events(markdown), "mermaid"));

    assert!(!html_events.is_empty(), "Should produce HTML for empty block");
    assert!(
        html_events[0].contains(r#"class="preprocessed-mermaid""#),
        "Should still have mermaid class"
    );
}

#[test]
fn test_process_code_blocks_non_matching_lang() {
    let markdown = "```python\nprint('hello')\n```";
    let events = process_code_blocks(markdown_events(markdown), "mermaid");

    let has_preprocessed = events.iter().any(|e| match &e.event {
        MdEvent::Html(h) => h.contains("preprocessed-mermaid"),
        _ => false,
    });
    assert!(!has_preprocessed, "Non-matching language should pass through");

    let has_code_block = events.iter().any(|e| matches!(e.event, MdEvent::StartFencedCode(_)));
    assert!(has_code_block, "Code block events should remain");
}

#[test]
fn test_process_code_blocks_range_covers_fences() {
    let markdown = "```mermaid\ngraph TD\n```";
    let events = process_code_blocks(markdown_events(markdown), "mermaid");

    let html_event = events.iter().find(|e| matches!(e.event, MdEvent::Html(_)));

    assert!(html_event.is_some(), "Should have HTML event");
    let e = html_event.unwrap();
    assert_eq!(e.start, 0, "Range should start at beginning of fence");
    assert!(e.end >= markdown.len() - 1, "Range should cover to end of closing fence");
}

#[test]
fn test_process_math_empty_display() {
    let markdown = "$$$$";
    let html_events = html_of(&process_math_expressions(markdown_events(markdown)));
    if !html_events.is_empty() {
        assert!(
            html_events[0].contains("preprocessed-math-display"),
            "Empty display math should still be processed"
        );
    }
}

#[test]
fn test_code_block_html_exact() {
    let events = process_code_blocks(markdown_events("```mermaid\na<b \"c\"\n```\n"), "mermaid");
    assert_eq!(
        html_of(&events),
        vec!["<pre class=\"preprocessed-mermaid\" data-original-content=\"a&lt;b &quot;c&quot;\n\">a&lt;b \"c\"\n</pre>".to_string()]
    );
}

#[test]
fn test_math_html_exact() {
    let events = process_math_expressions(markdown_events("$a<b$"));
    assert_eq!(
        html_of(&events),
        vec!["<span class=\"preprocessed-math-inline\" data-original-content=\"a&lt;b\">a&lt;b</span>".to_string()]
    );
}

#[test]
fn test_render_markdown_body() {
    assert_eq!(render_markdown_body("# Hi\n"), "<h1>Hi</h1>\n");
    let html = render_markdown_body("Text $x$\n\n```mermaid\nA\n```\n");
    assert!(html.contains("<span class=\"preprocessed-math-inline\" data-original-content=\"x\">x</span>"));
    assert!(html.contains("<pre class=\"preprocessed-mermaid\" data-original-content=\"A\n\">A\n</pre>"));
}

#[test]
fn test_prepend_frontmatter() {
    assert_eq!(prepend_frontmatter("", "<p>x</p>"), "<p>x</p>");
    assert_eq!(prepend_frontmatter("<details></details>", "<p>x</p>"), "<details></details>\n<p>x</p>");
}

#[test]
fn test_table_pass_keeps_event_kinds() {
    let markdown = "| A | B |\n|---|---|\n| 1 | 2 |\n\ntext\n";
    let kinds = |v: &[SpannedEvent]| v.iter().map(|e| format!("{:?}", e.event)).collect::<Vec<_>>();
    let original = markdown_events(markdown);
    let extended = extend_table_ranges(markdown_events(markdown));
    assert_eq!(kinds(&original), kinds(&extended));
}

#[test]
fn test_body_of_alert_document() {
    let processed = arto::markdown::process_github_alerts("# Title\n\n> [!NOTE]\n> This is important\n");
    let html = render_markdown_body(&processed);
    assert!(html.contains("markdown-alert-note"));
    assert!(html.contains("This is important"));
    assert!(html.contains("<h1>Title</h1>"));
}
