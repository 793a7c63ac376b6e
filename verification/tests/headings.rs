use arto::markdown::slug::slug_from_lowercase;
use arto::markdown::{extract_headings, generate_slug};
use arto::markdown::headings::HeadingInfo;

#[test]
fn test_generate_slug() {
    assert_eq!(generate_slug("Hello World"), "hello-world");
    assert_eq!(generate_slug("My Heading"), "my-heading");
    assert_eq!(
        generate_slug("Heading with  Multiple   Spaces"),
        "heading-with-multiple-spaces"
    );
    assert_eq!(
        generate_slug("Special: Characters! Here?"),
        "special-characters-here"
    );
    assert_eq!(generate_slug("日本語"), "");
    assert_eq!(generate_slug("Code `example`"), "code-example");
    assert_eq!(generate_slug("under_score"), "under-score");
}

#[test]
fn test_generate_slug_edges() {
    assert_eq!(generate_slug(""), "");
    assert_eq!(generate_slug("--a--b--"), "a-b");
    assert_eq!(generate_slug("v1.2.3"), "v1-2-3");
}

#[test]
fn test_extract_headings_basic() {
    let markdown = "# Title\n\nSome content\n\n## Section 1\n\nMore content\n\n### Subsection 1.1\n\nEven more content\n\n## Section 2\n";

    let headings = extract_headings(markdown);

    assert_eq!(headings.len(), 4);
    assert_eq!(
        headings[0],
        HeadingInfo {
            level: 1,
            text: "Title".to_string(),
            id: "title".to_string()
        }
    );
    assert_eq!(
        headings[1],
        HeadingInfo {
            level: 2,
            text: "Section 1".to_string(),
            id: "section-1".to_string()
        }
    );
    assert_eq!(
        headings[2],
        HeadingInfo {
            level: 3,
            text: "Subsection 1.1".to_string(),
            id: "subsection-1-1".to_string()
        }
    );
    assert_eq!(
        headings[3],
        HeadingInfo {
            level: 2,
            text: "Section 2".to_string(),
            id: "section-2".to_string()
        }
    );
}

#[test]
fn test_extract_headings_with_duplicate_slugs() {
    let markdown = "# Introduction\n\n## Overview\n\nContent\n\n## Overview\n\nMore content\n\n## Overview\n";

    let headings = extract_headings(markdown);

    assert_eq!(headings.len(), 4);
    assert_eq!(headings[0].id, "introduction");
    assert_eq!(headings[1].id, "overview");
    assert_eq!(headings[2].id, "overview-1");
    assert_eq!(headings[3].id, "overview-2");
}

#[test]
fn test_extract_headings_with_frontmatter() {
    let markdown = "---\ntitle: Test\n---\n\n# Heading After Frontmatter\n\nContent\n";

    let headings = extract_headings(markdown);

    assert_eq!(headings.len(), 1);
    assert_eq!(headings[0].text, "Heading After Frontmatter");
}

#[test]
fn test_extract_headings_code_and_breaks() {
    let headings = extract_headings("## Use `cargo` now\n");
    assert_eq!(headings.len(), 1);
    assert_eq!(headings[0].level, 2);
    assert_eq!(headings[0].text, "Use cargo now");
    assert_eq!(headings[0].id, "use-cargo-now");
}

#[test]
fn test_slug_from_lowercase() {
    assert_eq!(slug_from_lowercase("hello world"), "hello-world");
    assert_eq!(slug_from_lowercase("  --a__b..c  "), "a-b-c");
    assert_eq!(slug_from_lowercase("日本語 text"), "text");
    assert_eq!(slug_from_lowercase(""), "");
}

#[test]
fn test_slug_shape_and_idempotence() {
    for t in ["Hello, World!", "  Mixed_Case.and-Dashes  ", "Café résumé 2024", "---", "A  B"] {
        let r = generate_slug(t);
        assert!(r.chars().all(|c| c.is_ascii_lowercase() || c.is_ascii_digit() || c == '-'));
        assert!(!r.starts_with('-') && !r.ends_with('-') && !r.contains("--"));
        assert_eq!(generate_slug(&r), r);
    }
}
