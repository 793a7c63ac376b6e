use arto::utils::clipboard::{accept_downloaded_image, plan_copy_image, CopyPlan};
use arto::utils::image::{content_type_essence, downloaded_save_info, plan_save_image, ImageActionError, SavePlan};

#[test]
fn test_plan_save_data_url() {
    let plan = plan_save_image("data:image/jpeg;base64,aGVsbG8=").unwrap();
    assert_eq!(
        plan,
        SavePlan::Write {
            bytes: b"hello".to_vec(),
            filter_name: "JPEG Image",
            extensions: vec!["jpg", "jpeg"],
            file_name: "image.jpg".to_string(),
        }
    );
}

#[test]
fn test_plan_save_errors() {
    assert_eq!(
        plan_save_image("data:image/png;base64"),
        Err(ImageActionError::NoBase64("Invalid data URL: missing comma separator".to_string()))
    );
    assert_eq!(plan_save_image("data:image/png;base64,@@@"), Err(ImageActionError::BadBase64));
    assert_eq!(plan_save_image("/local/file.png"), Err(ImageActionError::Unsupported));
    assert_eq!(plan_save_image("https://example.com/a.png"), Ok(SavePlan::Download));
}

#[test]
fn test_downloaded_save_info() {
    let (filter, exts, name) = downloaded_save_info("https://example.com/pic.webp?x=1", Some("image/png"));
    assert_eq!(filter, "PNG Image");
    assert_eq!(exts, vec!["png"]);
    assert_eq!(name, "pic.webp");

    let (filter, exts, name) = downloaded_save_info("https://example.com/pic.jpeg", None);
    assert_eq!(filter, "JPEG Image");
    assert_eq!(exts, vec!["jpg", "jpeg"]);
    assert_eq!(name, "pic.jpeg");

    let (filter, _, name) = downloaded_save_info("https://example.com/download", None);
    assert_eq!(filter, "Image");
    assert_eq!(name, "image.png");

    let (filter, _, _) = downloaded_save_info("https://example.com/a.tiff", None);
    assert_eq!(filter, "Image");
}

#[test]
fn test_content_type_essence() {
    assert_eq!(content_type_essence("image/png; charset=binary"), "image/png");
    assert_eq!(content_type_essence("  image/gif  "), "image/gif");
    assert_eq!(content_type_essence(""), "");
}

#[test]
fn test_plan_copy_image() {
    assert_eq!(plan_copy_image("data:image/png;base64,aGk="), Ok(CopyPlan::Bytes(b"hi".to_vec())));
    assert_eq!(plan_copy_image("data:image/svg+xml;base64,aGk="), Err(ImageActionError::Svg));
    assert_eq!(plan_copy_image("data:image/png;base64,!!"), Err(ImageActionError::BadBase64));
    assert_eq!(plan_copy_image("https://example.com/a.svg?v=2"), Err(ImageActionError::Svg));
    assert_eq!(plan_copy_image("https://example.com/a.png"), Ok(CopyPlan::Download));
    assert_eq!(plan_copy_image("file.png"), Err(ImageActionError::Unsupported));
}

#[test]
fn test_accept_downloaded_image() {
    assert_eq!(accept_downloaded_image(Some("image/svg+xml")), Err(ImageActionError::Svg));
    assert_eq!(accept_downloaded_image(Some("image/png")), Ok(()));
    assert_eq!(accept_downloaded_image(None), Ok(()));
}
