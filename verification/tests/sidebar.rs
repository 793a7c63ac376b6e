use arto::state::sidebar::Sidebar;

fn has(sidebar: &Sidebar, path: &str) -> bool {
    sidebar.expanded_dirs.iter().any(|p| p == path)
}

#[test]
fn test_sidebar_default() {
    let sidebar = Sidebar::default();

    assert!(!sidebar.open);
    assert_eq!(f64::from_bits(sidebar.width), 280.0);
    assert!(!sidebar.show_all_files);
    assert!(sidebar.expanded_dirs.is_empty());
}

#[test]
fn test_sidebar_toggle_expansion() {
    let mut sidebar = Sidebar::default();
    let path = String::from("/test/dir");

    assert!(!has(&sidebar, &path));

    sidebar.toggle_expansion(path.clone());
    assert!(has(&sidebar, &path));

    sidebar.toggle_expansion(path.clone());
    assert!(!has(&sidebar, &path));
}

#[test]
fn test_sidebar_toggle_multiple_paths() {
    let mut sidebar = Sidebar::default();
    let path1 = String::from("/test/dir1");
    let path2 = String::from("/test/dir2");

    sidebar.toggle_expansion(path1.clone());
    sidebar.toggle_expansion(path2.clone());

    assert!(has(&sidebar, &path1));
    assert!(has(&sidebar, &path2));

    sidebar.toggle_expansion(path1.clone());

    assert!(!has(&sidebar, &path1));
    assert!(has(&sidebar, &path2));
}

#[test]
fn test_sidebar_history_initial_state() {
    let sidebar = Sidebar::default();

    assert!(!sidebar.can_go_back());
    assert!(!sidebar.can_go_forward());
}

#[test]
fn test_sidebar_history_push_and_back() {
    let mut sidebar = Sidebar::default();
    let path1 = String::from("/test/dir1");
    let path2 = String::from("/test/dir2");

    sidebar.push_to_history(path1.clone());
    sidebar.push_to_history(path2.clone());

    assert!(sidebar.can_go_back());
    assert!(!sidebar.can_go_forward());

    let back = sidebar.go_back();
    assert_eq!(back, Some(path1.clone()));

    assert!(!sidebar.can_go_back());
    assert!(sidebar.can_go_forward());
}

#[test]
fn test_sidebar_history_forward() {
    let mut sidebar = Sidebar::default();
    let path1 = String::from("/test/dir1");
    let path2 = String::from("/test/dir2");

    sidebar.push_to_history(path1.clone());
    sidebar.push_to_history(path2.clone());

    let _ = sidebar.go_back();

    let forward = sidebar.go_forward();
    assert_eq!(forward, Some(path2));

    assert!(!sidebar.can_go_forward());
    assert!(sidebar.can_go_back());
}

#[test]
fn test_sidebar_history_push_clears_forward() {
    let mut sidebar = Sidebar::default();
    let path1 = String::from("/test/dir1");
    let path2 = String::from("/test/dir2");
    let path3 = String::from("/test/dir3");

    sidebar.push_to_history(path1.clone());
    sidebar.push_to_history(path2.clone());

    let _ = sidebar.go_back();
    assert!(sidebar.can_go_forward());

    sidebar.push_to_history(path3.clone());
    assert!(!sidebar.can_go_forward());
    assert!(sidebar.can_go_back());
}

#[test]
fn test_sidebar_is_expanded_matches_list() {
    let mut sidebar = Sidebar::default();
    sidebar.toggle_expansion("/a".to_string());
    assert!(sidebar.is_expanded("/a"));
    assert!(!sidebar.is_expanded("/b"));
}
