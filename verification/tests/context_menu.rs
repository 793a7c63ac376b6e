use arto::context_menu::{content_menu_entries, resolve_effective_src, ContentContext, EffectiveSource, MenuAction, MenuEntry};

fn labels(entries: &[MenuEntry]) -> Vec<String> {
    entries
        .iter()
        .map(|e| match e {
            MenuEntry::Item { label, .. } => label.clone(),
            MenuEntry::Separator => "---".to_string(),
        })
        .collect()
}

#[test]
fn test_general_menu_without_selection() {
    let entries = content_menu_entries(&ContentContext::General, false, "", None, None, None);
    assert_eq!(labels(&entries), vec!["---", "Select All", "Find in Page"]);
    assert_eq!(
        entries[2],
        MenuEntry::Item { label: "Find in Page".to_string(), shortcut: Some("⌘F"), action: MenuAction::FindInPage(None) }
    );
}

#[test]
fn test_selection_and_code_block() {
    let ctx = ContentContext::CodeBlock { content: "fn main() {}".to_string(), language: Some("rust".to_string()) };
    let entries = content_menu_entries(&ctx, true, "main", None, None, None);
    assert_eq!(labels(&entries), vec!["Copy", "Copy Code", "---", "Select All", "Find in Page"]);
    assert_eq!(
        entries[0],
        MenuEntry::Item { label: "Copy".to_string(), shortcut: Some("⌘C"), action: MenuAction::CopyText("main".to_string()) }
    );
    assert_eq!(
        entries[1],
        MenuEntry::Item { label: "Copy Code".to_string(), shortcut: None, action: MenuAction::CopyText("fn main() {}".to_string()) }
    );
    assert_eq!(
        entries[4],
        MenuEntry::Item {
            label: "Find in Page".to_string(),
            shortcut: Some("⌘F"),
            action: MenuAction::FindInPage(Some("main".to_string()))
        }
    );
}

#[test]
fn test_copy_path_items_with_lines() {
    let entries = content_menu_entries(&ContentContext::General, false, "", Some("/doc.md"), Some(3), Some(7));
    assert_eq!(
        labels(&entries)[..3].to_vec(),
        vec!["Copy File Path", "Copy File Path with Line (3)", "Copy File Path with Range (3-7)"]
    );
    assert_eq!(
        entries[2],
        MenuEntry::Item {
            label: "Copy File Path with Range (3-7)".to_string(),
            shortcut: None,
            action: MenuAction::CopyText("/doc.md:3-7".to_string())
        }
    );
    let same = content_menu_entries(&ContentContext::General, false, "", Some("/doc.md"), Some(3), Some(3));
    assert_eq!(labels(&same)[..2].to_vec(), vec!["Copy File Path", "Copy File Path with Line (3)"]);
    assert_eq!(labels(&same)[2], "---");
}

#[test]
fn test_link_and_image_items() {
    let link = content_menu_entries(&ContentContext::Link { href: "a.md".to_string() }, false, "", None, None, None);
    assert_eq!(
        labels(&link),
        vec!["---", "Select All", "Find in Page", "---", "Open Link", "Open Link in New Tab", "Copy Link Path"]
    );
    let img = ContentContext::Image { src: "data:x".to_string(), alt: None, original_src: Some("/p.png".to_string()) };
    let entries = content_menu_entries(&img, false, "", None, None, None);
    assert_eq!(
        labels(&entries)[3..].to_vec(),
        vec!["---", "Open in Image Viewer", "Copy Image", "Save Image As...", "Copy Image Path"]
    );
    assert_eq!(
        entries[7],
        MenuEntry::Item { label: "Copy Image Path".to_string(), shortcut: None, action: MenuAction::CopyText("/p.png".to_string()) }
    );
}

#[test]
fn test_resolve_effective_src() {
    assert_eq!(resolve_effective_src("data:x", Some("/p.png")), EffectiveSource::Src("data:x".to_string()));
    assert_eq!(resolve_effective_src("", Some("/p.png")), EffectiveSource::File("/p.png".to_string()));
    assert_eq!(resolve_effective_src("", None), EffectiveSource::Empty);
}
