use arto::utils::image::{
    extract_base64_from_data_url, extract_extension_from_url, extract_filename_from_url,
    extract_mime_type_from_data_url, get_file_info_from_mime_type,
};

#[test]
fn test_extract_base64_from_data_url() {
    let data_url = "data:image/png;base64,iVBORw0KGgo=";
    let base64 = extract_base64_from_data_url(data_url).unwrap();
    assert_eq!(base64, "iVBORw0KGgo=");
}

#[test]
fn test_extract_base64_from_data_url_invalid() {
    let data_url = "not a data url";
    assert!(extract_base64_from_data_url(data_url).is_err());

    let data_url = "data:image/png,notbase64";
    assert!(extract_base64_from_data_url(data_url).is_err());
}

#[test]
fn test_extract_base64_error_messages() {
    assert_eq!(
        extract_base64_from_data_url("not a data url"),
        Err("Invalid data URL: missing comma separator")
    );
    assert_eq!(
        extract_base64_from_data_url("data:image/png,notbase64"),
        Err("Invalid data URL: not base64 encoded")
    );
    assert_eq!(extract_base64_from_data_url("x;base64,"), Ok(""));
}

#[test]
fn test_extract_mime_type_from_data_url() {
    assert_eq!(
        extract_mime_type_from_data_url("data:image/png;base64,abc"),
        Some("image/png")
    );
    assert_eq!(
        extract_mime_type_from_data_url("data:image/jpeg;base64,abc"),
        Some("image/jpeg")
    );
    assert_eq!(
        extract_mime_type_from_data_url("data:image/svg+xml;base64,abc"),
        Some("image/svg+xml")
    );
}

#[test]
fn test_extract_mime_type_from_data_url_invalid() {
    assert_eq!(extract_mime_type_from_data_url("not a data url"), None);
    assert_eq!(extract_mime_type_from_data_url("data:image/png"), None);
}

#[test]
fn test_extract_mime_type_empty_and_unicode() {
    assert_eq!(extract_mime_type_from_data_url("data:;base64,x"), Some(""));
    assert_eq!(extract_mime_type_from_data_url("data:画像/png;x"), Some("画像/png"));
}

#[test]
fn test_extract_filename_from_url() {
    assert_eq!(
        extract_filename_from_url("https://example.com/images/photo.png"),
        Some("photo.png".to_string())
    );
    assert_eq!(
        extract_filename_from_url("https://example.com/image.jpg?size=large"),
        Some("image.jpg".to_string())
    );
    assert_eq!(extract_filename_from_url("https://example.com/path/"), None);
    assert_eq!(
        extract_filename_from_url("https://example.com/noextension"),
        None
    );
}

#[test]
fn test_extract_extension_from_url() {
    assert_eq!(
        extract_extension_from_url("https://example.com/image.png"),
        Some("png")
    );
    assert_eq!(
        extract_extension_from_url("https://example.com/photo.jpeg?q=80"),
        Some("jpeg")
    );
    assert_eq!(
        extract_extension_from_url("https://example.com/noext"),
        None
    );
}

#[test]
fn test_extract_extension_trailing_dot_and_query_slash() {
    assert_eq!(extract_extension_from_url("https://example.com/file."), Some(""));
    assert_eq!(extract_extension_from_url("https://example.com/a.b/c?x=1.2/3"), None);
    assert_eq!(extract_extension_from_url("https://example.com/a.tar.gz"), Some("gz"));
}

#[test]
fn test_get_file_info_from_mime_type() {
    assert_eq!(
        get_file_info_from_mime_type(Some("image/png")),
        ("PNG Image", vec!["png"], "png")
    );
    assert_eq!(
        get_file_info_from_mime_type(Some("image/jpeg")),
        ("JPEG Image", vec!["jpg", "jpeg"], "jpg")
    );
    assert_eq!(
        get_file_info_from_mime_type(Some("image/svg+xml")),
        ("SVG Image", vec!["svg"], "svg")
    );
    assert_eq!(
        get_file_info_from_mime_type(None),
        ("Image", vec!["png", "jpg", "gif", "webp"], "png")
    );
    assert_eq!(
        get_file_info_from_mime_type(Some("text/plain")),
        ("Image", vec!["png", "jpg", "gif", "webp"], "png")
    );
}
