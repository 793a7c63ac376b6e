use arto::markdown::headings::HeadingInfo;
use arto::markdown::post_process::{post_process_html_with_headings, ElementNumbering};
use arto::utils::image::{extract_base64_from_data_url, extract_mime_type_from_data_url};
use arto::markdown::post_process::{get_mime_type, image_data_url, is_local_image_src, markdown_link};

#[test]
fn post_process_test_get_mime_type() {
    assert_eq!(get_mime_type("test.png"), "image/png");
    assert_eq!(get_mime_type("test.jpg"), "image/jpeg");
    assert_eq!(get_mime_type("test.jpeg"), "image/jpeg");
    assert_eq!(get_mime_type("test.gif"), "image/gif");
    assert_eq!(get_mime_type("test.svg"), "image/svg+xml");
    assert_eq!(get_mime_type("test.webp"), "image/webp");
    assert_eq!(get_mime_type("test.bmp"), "image/bmp");
    assert_eq!(get_mime_type("test.ico"), "image/x-icon");
    assert_eq!(get_mime_type("test.unknown"), "image/png");
}

#[test]
fn test_is_local_image_src() {
    assert!(is_local_image_src("test.png"));
    assert!(is_local_image_src("images/a b.png"));
    assert!(!is_local_image_src("http://example.com/a.png"));
    assert!(!is_local_image_src("https://example.com/a.png"));
    assert!(!is_local_image_src("data:image/png;base64,AAAA"));
}

#[test]
fn test_image_data_url_encodes_bytes() {
    assert_eq!(
        image_data_url("image/png", &[0x89, 0x50, 0x4E, 0x47]),
        "data:image/png;base64,iVBORw=="
    );
    assert_eq!(image_data_url("image/gif", b"hello world~"), "data:image/gif;base64,aGVsbG8gd29ybGR+");
    assert_eq!(image_data_url("image/png", &[]), "data:image/png;base64,");
}

#[test]
fn test_markdown_link_markdown_file() {
    let link = markdown_link("other.md").unwrap();
    assert_eq!(link.class, "md-link");
    assert_eq!(
        link.onmousedown,
        "if (event.button === 0 || event.button === 1) {\n    event.preventDefault();\n    window.handleMarkdownLinkClick('other.md', event.button);\n}"
    );
    assert_eq!(markdown_link("doc.markdown").unwrap().class, "md-link");
}

#[test]
fn test_markdown_link_other_file_is_invalid() {
    let link = markdown_link("image.png").unwrap();
    assert_eq!(link.class, "md-link md-link-invalid");
}

#[test]
fn test_markdown_link_web_and_extensionless_stay_links() {
    assert!(markdown_link("http://example.com/a.md").is_none());
    assert!(markdown_link("https://example.com/a.md").is_none());
    assert!(markdown_link("README").is_none());
    assert!(markdown_link("#section").is_none());
}

#[test]
fn test_markdown_link_escapes_single_quotes() {
    let link = markdown_link("it's.md").unwrap();
    assert!(link.onmousedown.contains("handleMarkdownLinkClick('it\\'s.md', event.button)"));
}

#[test]
fn test_data_url_reads_back() {
    let url = image_data_url("image/webp", &[1, 2, 3, 4, 5]);
    assert_eq!(extract_mime_type_from_data_url(&url), Some("image/webp"));
    assert_eq!(extract_base64_from_data_url(&url), Ok("AQIDBAU="));
}

#[test]
fn test_post_process_html_with_headings_injects_ids() {
    let html = r#"<h1 data-source-line="1">Title</h1><h2 data-source-line="3">Section</h2>"#;
    let headings = vec![
        HeadingInfo { level: 1, text: "Title".to_string(), id: "title".to_string() },
        HeadingInfo { level: 2, text: "Section".to_string(), id: "section".to_string() },
    ];
    let result = post_process_html_with_headings(html, &headings);
    assert!(result.contains(r#"id="title""#), "H1 should get id from headings: {result}");
    assert!(result.contains(r#"id="section""#), "H2 should get id from headings: {result}");
}

#[test]
fn test_post_process_html_with_headings_more_html_headings_than_info() {
    let html = r#"<h1>A</h1><h2>B</h2><h3>C</h3>"#;
    let headings = vec![HeadingInfo { level: 1, text: "A".to_string(), id: "a".to_string() }];
    let result = post_process_html_with_headings(html, &headings);
    assert!(result.contains(r#"id="a""#), "First heading should get id: {result}");
    assert!(
        result.contains("<h2>B</h2>") || result.contains("<h2 >B</h2>"),
        "Extra headings should render without id: {result}"
    );
}

#[test]
fn test_post_process_html_with_headings_empty_headings() {
    let html = r#"<h1>Title</h1>"#;
    let headings: Vec<HeadingInfo> = vec![];
    let result = post_process_html_with_headings(html, &headings);
    assert!(result.contains("Title"), "Should still render heading text: {result}");
}

#[test]
fn test_post_process_links_become_spans() {
    let result = post_process_html_with_headings(r#"<p><a href="other.md">x</a><a href="https://e.com/a.md">y</a></p>"#, &vec![]);
    assert!(result.contains(r#"<span class="md-link""#));
    assert!(result.contains(r#"<a href="https://e.com/a.md">y</a>"#));
}

#[test]
fn test_element_numbering() {
    let items = vec![10, 20];
    let mut n = ElementNumbering::new();
    assert_eq!(n.next_of(&items), Some(&10));
    assert_eq!(n.next_of(&items), Some(&20));
    assert_eq!(n.next_of(&items), None);
}
