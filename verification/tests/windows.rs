use arto::windows::{compute_image_dedup_key, extract_image_title, generate_diagram_id, generate_math_id};

#[test]
fn test_compute_image_dedup_key_with_path() {
    let key = compute_image_dedup_key("data:image/png;base64,abc", Some("/path/to/image.png"));
    assert_eq!(key, "image:/path/to/image.png");
}

#[test]
fn test_compute_image_dedup_key_with_http() {
    let key = compute_image_dedup_key("https://example.com/photo.jpg", None);
    assert_eq!(key, "image:https://example.com/photo.jpg");
}

#[test]
fn test_compute_image_dedup_key_fallback() {
    let key = compute_image_dedup_key("data:image/png;base64,abc123", None);
    assert!(key.starts_with("image:"));
    assert_eq!(key.len(), 6 + 16);
}

#[test]
fn test_extract_image_title_from_path() {
    let title = extract_image_title("data:image/png;base64,abc", Some("/path/to/photo.png"));
    assert_eq!(title, "photo.png - Image Viewer");
}

#[test]
fn test_extract_image_title_from_url() {
    let title = extract_image_title("https://example.com/images/photo.jpg", None);
    assert_eq!(title, "photo.jpg - Image Viewer");
}

#[test]
fn test_extract_image_title_from_url_with_query() {
    let title = extract_image_title("https://example.com/photo.jpg?w=100", None);
    assert_eq!(title, "photo.jpg - Image Viewer");
}

#[test]
fn test_extract_image_title_fallback() {
    let title = extract_image_title("data:image/png;base64,abc", None);
    assert_eq!(title, "Image Viewer - Arto");
}

#[test]
fn test_compute_image_dedup_key_empty_original_src() {
    let key = compute_image_dedup_key("data:image/png;base64,abc123", Some(""));
    assert!(key.starts_with("image:"));
    assert_eq!(key.len(), 6 + 16);
}

#[test]
fn test_compute_image_dedup_key_long_data_url() {
    let long_base64 = "A".repeat(2000);
    let src = format!("data:image/png;base64,{}", long_base64);
    assert!(src.len() > 1024);

    let key = compute_image_dedup_key(&src, None);
    assert!(key.starts_with("image:"));
    let hex_part = &key["image:".len()..];
    assert_eq!(hex_part.len(), 16);
    assert!(hex_part.chars().all(|c| c.is_ascii_hexdigit()));
}

#[test]
fn test_compute_image_dedup_key_unicode_in_path() {
    let key = compute_image_dedup_key("data:image/png;base64,abc", Some("/path/to/画像.png"));
    assert_eq!(key, "image:/path/to/画像.png");
}

#[test]
fn test_extract_image_title_empty_original_src() {
    let title = extract_image_title("data:image/png;base64,abc", Some(""));
    assert_eq!(title, "Image Viewer - Arto");
}

#[test]
fn test_extract_image_title_url_with_encoded_chars() {
    let title = extract_image_title("https://example.com/my%20photo.jpg", None);
    assert_eq!(title, "my%20photo.jpg - Image Viewer");
}

#[test]
fn test_compute_image_dedup_key_deterministic() {
    let src = "data:image/png;base64,iVBORw0KGgoAAAANSUhEUg";
    let key1 = compute_image_dedup_key(src, None);
    let key2 = compute_image_dedup_key(src, None);
    assert_eq!(key1, key2, "Same input should produce identical dedup keys");
}

#[test]
fn test_compute_image_dedup_key_different_inputs() {
    let key1 = compute_image_dedup_key("data:image/png;base64,abc", None);
    let key2 = compute_image_dedup_key("data:image/png;base64,xyz", None);
    assert_ne!(key1, key2, "Different inputs should produce different dedup keys");
}

#[test]
fn test_extract_image_title_http_url() {
    let title = extract_image_title("http://example.com/photo.png", None);
    assert_eq!(title, "photo.png - Image Viewer");
}

#[test]
fn test_generate_math_id_consistent() {
    let source = r"E = mc^2";
    let id1 = generate_math_id(source);
    let id2 = generate_math_id(source);
    assert_eq!(id1, id2);
}

#[test]
fn test_generate_math_id_different_sources() {
    let id1 = generate_math_id(r"E = mc^2");
    let id2 = generate_math_id(r"\int_0^\infty e^{-x} dx");
    assert_ne!(id1, id2);
}

#[test]
fn test_generate_math_id_has_prefix() {
    let id = generate_math_id(r"E = mc^2");
    assert!(id.starts_with("math:"));
}

#[test]
fn test_generate_math_id_idempotent() {
    let source = r"\frac{a}{b} + \sqrt{c}";
    let results: Vec<String> = (0..10).map(|_| generate_math_id(source)).collect();
    assert!(results.windows(2).all(|w| w[0] == w[1]));
}

#[test]
fn test_ids_are_sha256_prefixes() {
    assert_eq!(generate_diagram_id("abc"), "ba7816bf8f01cfea");
    assert_eq!(generate_math_id("abc"), "math:ba7816bf8f01cfea");
    assert_eq!(compute_image_dedup_key("abc", None), "image:ba7816bf8f01cfea");
}

#[test]
fn test_dedup_key_hashes_only_first_1024_bytes() {
    let a = format!("{}{}", "x".repeat(1024), "tail one");
    let b = format!("{}{}", "x".repeat(1024), "another tail");
    assert_eq!(compute_image_dedup_key(&a, None), compute_image_dedup_key(&b, None));
}
