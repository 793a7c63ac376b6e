use arto::markdown;
use arto::markdown::alerts;

#[test]
fn markdown_test_get_mime_type() {
    assert_eq!(markdown::get_mime_type("test.png"), "image/png");
    assert_eq!(markdown::get_mime_type("test.jpg"), "image/jpeg");
    assert_eq!(markdown::get_mime_type("test.jpeg"), "image/jpeg");
    assert_eq!(markdown::get_mime_type("test.gif"), "image/gif");
    assert_eq!(markdown::get_mime_type("test.svg"), "image/svg+xml");
    assert_eq!(markdown::get_mime_type("test.webp"), "image/webp");
    assert_eq!(markdown::get_mime_type("test.bmp"), "image/bmp");
    assert_eq!(markdown::get_mime_type("test.ico"), "image/x-icon");
    assert_eq!(markdown::get_mime_type("test.unknown"), "image/png");
}

#[test]
fn test_get_mime_type_hidden_and_missing_extension() {
    assert_eq!(markdown::get_mime_type("/images/.png"), "image/png");
    assert_eq!(markdown::get_mime_type("/images/photo"), "image/png");
    assert_eq!(markdown::get_mime_type("/images/photo.tar.gif"), "image/gif");
}

#[test]
fn markdown_test_get_alert_icon_placeholder() {
    let result = markdown::get_alert_icon_placeholder("note");
    assert_eq!(
        result,
        r#"<span class="alert-icon" data-alert-type="note"></span>"#
    );

    let result = markdown::get_alert_icon_placeholder("warning");
    assert_eq!(
        result,
        r#"<span class="alert-icon" data-alert-type="warning"></span>"#
    );
}

#[test]
fn markdown_test_process_github_alerts_all_types() {
    let alert_types = vec![
        ("NOTE", "note"),
        ("TIP", "tip"),
        ("IMPORTANT", "important"),
        ("WARNING", "warning"),
        ("CAUTION", "caution"),
    ];

    for (alert_name, alert_class) in alert_types {
        let input = format!("> [!{}]\n> Test content", alert_name);
        let result = markdown::process_github_alerts(&input);

        assert!(
            result.contains(&format!(r#"markdown-alert-{}"#, alert_class)),
            "Should contain alert class for {}",
            alert_name
        );
        assert!(
            result.contains(alert_name),
            "Should contain alert name {}",
            alert_name
        );
    }
}

#[test]
fn markdown_test_process_github_alerts_no_match() {
    let input = "Regular paragraph\n> Regular quote";
    let result = markdown::process_github_alerts(input);

    assert_eq!(result, input);
    assert!(!result.contains("markdown-alert"));
}

#[test]
fn markdown_test_process_github_alerts_note() {
    let input = "> [!NOTE]\n> This is a note\n";
    let result = markdown::process_github_alerts(input);

    assert!(result.contains(r#"<div class="markdown-alert markdown-alert-note""#));
    assert!(result.contains(r#"<p class="markdown-alert-title""#));
    assert!(result.contains("NOTE"));
    assert!(result.contains("This is a note"));
    assert!(result.contains("</div>"));
}

#[test]
fn test_process_github_alerts_exact_block() {
    let result = markdown::process_github_alerts("> [!TIP] Use it\n> well\nafter");
    assert_eq!(
        result,
        [
            r#"<div class="markdown-alert markdown-alert-tip" dir="auto">"#,
            "\n",
            r#"<p class="markdown-alert-title" dir="auto"><span class="alert-icon" data-alert-type="tip"></span>TIP</p>"#,
            "\n<p>Use it\nwell</p>\n\n</div>\nafter",
        ]
        .join("")
    );
}

#[test]
fn alerts_test_get_alert_icon_placeholder() {
    let result = alerts::get_alert_icon_placeholder("note");
    assert_eq!(
        result,
        r#"<span class="alert-icon" data-alert-type="note"></span>"#
    );

    let result = alerts::get_alert_icon_placeholder("warning");
    assert_eq!(
        result,
        r#"<span class="alert-icon" data-alert-type="warning"></span>"#
    );
}

#[test]
fn alerts_test_process_github_alerts_all_types() {
    let alert_types = vec![
        ("NOTE", "note"),
        ("TIP", "tip"),
        ("IMPORTANT", "important"),
        ("WARNING", "warning"),
        ("CAUTION", "caution"),
    ];

    for (alert_name, alert_class) in alert_types {
        let input = format!("> [!{}]\n> Test content", alert_name);
        let (result, _) = alerts::process_github_alerts(&input, 0);

        assert!(
            result.contains(&format!(r#"markdown-alert-{}"#, alert_class)),
            "Should contain alert class for {}",
            alert_name
        );
        assert!(
            result.contains(alert_name),
            "Should contain alert name {}",
            alert_name
        );
    }
}

#[test]
fn alerts_test_process_github_alerts_no_match() {
    let input = "Regular paragraph\n> Regular quote";
    let (result, line_origins) = alerts::process_github_alerts(input, 0);

    assert_eq!(result, input);
    assert!(!result.contains("markdown-alert"));
    assert_eq!(line_origins, vec![0, 1]);
}

#[test]
fn test_process_github_alerts_line_origins() {
    let input = "# Title\n\n> [!NOTE]\n> Content\n\nAfter alert\n";
    let (result, line_origins) = alerts::process_github_alerts(input, 0);

    assert_eq!(line_origins[0], 0);
    assert_eq!(line_origins[1], 1);
    for &origin in &line_origins[2..line_origins.len() - 2] {
        assert_eq!(origin, 2, "Alert HTML lines should map to line 2");
    }
    let last = line_origins.len();
    assert_eq!(line_origins[last - 2], 4);
    assert_eq!(line_origins[last - 1], 5);
    assert_eq!(line_origins.len(), result.matches('\n').count() + 1);
}

#[test]
fn test_process_github_alerts_source_line() {
    let (result, _) = alerts::process_github_alerts("intro\n> [!WARNING]\n> Careful", 3);
    assert!(result.contains(r#"<div class="markdown-alert markdown-alert-warning" data-source-line="5" dir="auto">"#));
}

#[test]
fn test_parse_alert_start() {
    assert_eq!(
        markdown::parse_alert_start("> [!IMPORTANT] rest"),
        Some(("IMPORTANT", "important", " rest"))
    );
    assert_eq!(markdown::parse_alert_start("> [!note]"), None);
    assert_eq!(markdown::parse_alert_start(">[!NOTE]"), None);
}

#[test]
fn markdown_test_process_github_alerts_warning() {
    let input = "> [!WARNING]\n> Be careful!\n";
    let result = markdown::process_github_alerts(input);

    assert!(result.contains(r#"markdown-alert-warning"#));
    assert!(result.contains("WARNING"));
    assert!(result.contains("Be careful!"));
}

#[test]
fn markdown_test_process_github_alerts_with_multiline() {
    let input = "> [!IMPORTANT]\n> First line\n> Second line\n> Third line\n";
    let result = markdown::process_github_alerts(input);

    assert!(result.contains(r#"markdown-alert-important"#));
    assert!(result.contains("First line"));
    assert!(result.contains("Second line"));
    assert!(result.contains("Third line"));
}

#[test]
fn alerts_test_process_github_alerts_warning() {
    let input = "> [!WARNING]\n> Be careful!\n";
    let (result, _) = alerts::process_github_alerts(input, 0);

    assert!(result.contains(r#"markdown-alert-warning"#));
    assert!(result.contains("WARNING"));
    assert!(result.contains("Be careful!"));
}

#[test]
fn alerts_test_process_github_alerts_with_multiline() {
    let input = "> [!IMPORTANT]\n> First line\n> Second line\n> Third line\n";
    let (result, _) = alerts::process_github_alerts(input, 0);

    assert!(result.contains(r#"markdown-alert-important"#));
    assert!(result.contains("First line"));
    assert!(result.contains("Second line"));
    assert!(result.contains("Third line"));
}

#[test]
fn alerts_test_process_github_alerts_note() {
    let input = "> [!NOTE]\n> This is a note\n";
    let (result, _) = alerts::process_github_alerts(input, 0);

    assert!(result.contains(r#"<div class="markdown-alert markdown-alert-note""#));
    assert!(result.contains(r#"<p class="markdown-alert-title""#));
    assert!(result.contains("NOTE"));
    assert!(result.contains("This is a note"));
    assert!(result.contains("</div>"));
}

#[test]
fn test_process_alert_block_past_the_end() {
    let lines: Vec<Vec<char>> = vec!["> [!NOTE]".chars().collect()];
    let first: Vec<char> = Vec::new();
    let (html, next) = alerts::process_alert_block(&lines, 1, "NOTE", "note", &first, None);
    assert_eq!(next, 2);
    assert!(html[0].starts_with("<div class=\"markdown-alert markdown-alert-note\""));
}
