use arto::bookmarks::Bookmarks;
use arto::paths::app_file_path;
use arto::window::index::{build_custom_index, build_image_window_index, build_mermaid_window_index};

#[test]
fn test_build_image_window_index_basic() {
    let data_url = "data:image/png;base64,abc123";
    let result = build_image_window_index("dark", data_url);

    assert!(result.contains("_imageDataUrl"));
    assert!(result.contains(r#""data:image/png;base64,abc123""#));
    assert!(result.contains("image-window-body"));
    assert!(result.contains(r#"data-theme="dark""#));
    assert!(result.contains("<title>Image Viewer - Arto</title>"));
}

#[test]
fn test_build_image_window_index_escaping() {
    let data_url_with_quotes = r#"data:image/png;base64,abc"def'ghi"#;
    let result = build_image_window_index("light", data_url_with_quotes);

    assert!(result.contains("_imageDataUrl"));
    assert!(!result.contains(r#"window._imageDataUrl = "data:image/png;base64,abc"def"#));
    let escaped = serde_json::to_string(data_url_with_quotes).unwrap();
    assert!(result.contains(&escaped));
    assert!(result.contains(r#"data-theme="light""#));
}

#[test]
fn test_build_custom_index_exact() {
    assert_eq!(
        build_custom_index("dark"),
        "<!DOCTYPE html>\n<html>\n    <head>\n        <title>Arto</title>\n        <meta name=\"viewport\" content=\"width=device-width, initial-scale=1.0, maximum-scale=1.0, user-scalable=no\">\n        <!-- CUSTOM HEAD -->\n    </head>\n    <body data-theme=\"dark\">\n        <div id=\"main\"></div>\n        <!-- MODULE LOADER -->\n    </body>\n</html>\n"
    );
}

#[test]
fn test_build_mermaid_window_index() {
    let page = build_mermaid_window_index("light");
    assert!(page.contains("<title>Mermaid Viewer - Arto</title>"));
    assert!(page.contains("<body data-theme=\"light\" class=\"mermaid-window-body\">"));
}

#[test]
fn test_app_file_paths() {
    assert_eq!(Bookmarks::path(Some("/data"), Some("/home/u")), "/data/arto/bookmarks.json");
    assert_eq!(Bookmarks::path(None, Some("/home/u")), "/home/u/.arto/bookmarks.json");
    assert_eq!(Bookmarks::path(None, None), "bookmarks.json");
    assert_eq!(app_file_path(Some("/data/"), None, "state.json"), "/data/arto/state.json");
}

#[test]
fn test_build_image_window_index_control_characters() {
    let page = build_image_window_index("dark", "a\u{1}\n\\b");
    assert!(page.contains("window._imageDataUrl = \"a\\u0001\\n\\\\b\";"));
}
