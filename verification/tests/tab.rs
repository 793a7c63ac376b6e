use arto::state::tab::{Tab, TabContent};

#[test]
fn test_tab_empty() {
    let tab = Tab::default();
    assert_eq!(tab.content, TabContent::Empty);
    assert!(tab.is_no_file());
}

#[test]
fn test_tab_new_with_file() {
    let path = String::from("/test/file.md");
    let tab = Tab::new(path.clone());

    assert_eq!(tab.content, TabContent::File(path.clone()));
    assert_eq!(tab.file(), Some(path.as_str()));
    assert!(!tab.is_no_file());
}

#[test]
fn test_tab_with_inline_content() {
    let content = "# Welcome".to_string();
    let tab = Tab::with_inline_content(content.clone());

    assert_eq!(tab.content, TabContent::Inline(content));
    assert!(tab.is_no_file());
    assert_eq!(tab.file(), None);
}

#[test]
fn test_tab_is_no_file() {
    assert!(Tab::default().is_no_file());
    assert!(Tab::with_inline_content("test".to_string()).is_no_file());

    let tab = Tab {
        content: TabContent::FileError("/test".to_string(), "error".to_string()),
        ..Default::default()
    };
    assert!(tab.is_no_file());

    let tab = Tab {
        content: TabContent::File("/test".to_string()),
        ..Default::default()
    };
    assert!(!tab.is_no_file());

    let tab = Tab {
        content: TabContent::Preferences,
        ..Default::default()
    };
    assert!(!tab.is_no_file());
}

#[test]
fn test_tab_navigate_to() {
    let mut tab = Tab::default();
    let path = String::from("/test/file.md");

    tab.navigate_to(path.clone());

    assert_eq!(tab.content, TabContent::File(path.clone()));
    assert_eq!(tab.file(), Some(path.as_str()));
}

#[test]
fn test_tab_file() {
    let path = String::from("/test/file.md");

    let mut tab = Tab::new(path.clone());
    assert_eq!(tab.file(), Some(path.as_str()));

    tab.content = TabContent::FileError(path.clone(), "error".to_string());
    assert_eq!(tab.file(), Some(path.as_str()));

    tab.content = TabContent::Empty;
    assert_eq!(tab.file(), None);

    tab.content = TabContent::Inline("test".to_string());
    assert_eq!(tab.file(), None);

    tab.content = TabContent::Preferences;
    assert_eq!(tab.file(), None);
}

#[test]
fn test_display_name_none() {
    let tab = Tab::default();
    assert_eq!(tab.display_name(), "New Tab");
}

#[test]
fn test_display_name_file() {
    let tab = Tab::new("/path/to/document.md".to_string());
    assert_eq!(tab.display_name(), "document.md");
}

#[test]
fn test_display_name_file_error() {
    let tab = Tab {
        content: TabContent::FileError("/path/to/binary.exe".to_string(), "Binary file".to_string()),
        ..Default::default()
    };
    assert_eq!(tab.display_name(), "binary.exe");
}

#[test]
fn test_display_name_inline() {
    let tab = Tab::with_inline_content("# Welcome to Arto".to_string());
    assert_eq!(tab.display_name(), "Welcome");
}

#[test]
fn test_display_name_preferences() {
    let tab = Tab {
        content: TabContent::Preferences,
        ..Default::default()
    };
    assert_eq!(tab.display_name(), "Preferences");
}

#[test]
fn test_display_name_file_no_extension() {
    let tab = Tab::new("/path/to/README".to_string());
    assert_eq!(tab.display_name(), "README");
}

#[test]
fn test_display_name_root_path() {
    let tab = Tab {
        content: TabContent::File("/".to_string()),
        ..Default::default()
    };
    assert_eq!(tab.display_name(), "Unnamed");
}

#[test]
fn test_display_name_unicode_filename() {
    let tab = Tab::new("/path/to/日本語ファイル.md".to_string());
    assert_eq!(tab.display_name(), "日本語ファイル.md");
}

#[test]
fn test_display_name_emoji_filename() {
    let tab = Tab::new("/path/to/notes_📝.md".to_string());
    assert_eq!(tab.display_name(), "notes_📝.md");
}

#[test]
fn test_display_name_hidden_file() {
    let tab = Tab::new("/path/to/.hidden.md".to_string());
    assert_eq!(tab.display_name(), ".hidden.md");
}

#[test]
fn test_tab_default_not_pinned() {
    let tab = Tab::default();
    assert!(!tab.pinned);
}

#[test]
fn test_tab_new_not_pinned() {
    let tab = Tab::new("/test.md".to_string());
    assert!(!tab.pinned);
}

#[test]
fn test_tab_pinned_affects_equality() {
    let tab1 = Tab::new("/test.md".to_string());
    let mut tab2 = Tab::new("/test.md".to_string());
    tab2.pinned = true;
    assert_ne!(tab1, tab2);
}

#[test]
fn test_tab_duplicate_is_equal() {
    let mut tab = Tab::new("/a.md".to_string());
    tab.navigate_to("/b.md".to_string());
    tab.pinned = true;
    let copy = tab.duplicate();
    assert_eq!(copy, tab);
}
