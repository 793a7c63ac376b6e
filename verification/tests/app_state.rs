use arto::state::app_state::AppState;
use arto::state::tab::{Tab, TabContent};

#[test]
fn test_new_app_state() {
    let state = AppState::new(true);
    assert_eq!(state.tabs.len(), 1);
    assert_eq!(state.active_tab, 0);
    assert!(state.toc_open);
    assert!(!state.search_open);
    assert!(state.is_current_tab_no_file());
}

#[test]
fn test_open_file_reuses_empty_tab_then_adds() {
    let mut state = AppState::new(false);
    state.open_file("/a.md".to_string());
    assert_eq!(state.tabs.len(), 1);
    assert_eq!(state.current_tab().unwrap().file(), Some("/a.md"));

    state.open_file("/b.md".to_string());
    assert_eq!(state.tabs.len(), 2);
    assert_eq!(state.active_tab, 1);

    state.open_file("/a.md".to_string());
    assert_eq!(state.tabs.len(), 2);
    assert_eq!(state.active_tab, 0);
    assert_eq!(state.find_tab_with_file("/b.md"), Some(1));
    assert_eq!(state.find_tab_with_file("/c.md"), None);
}

#[test]
fn test_navigate_to_file_stays_in_tab() {
    let mut state = AppState::new(false);
    state.open_file("/a.md".to_string());
    state.navigate_to_file("/b.md".to_string());
    assert_eq!(state.tabs.len(), 1);
    let tab = state.current_tab().unwrap();
    assert_eq!(tab.file(), Some("/b.md"));
    assert!(tab.history.can_go_back());
}

#[test]
fn test_take_then_insert_restores_tabs() {
    let mut state = AppState::new(false);
    state.add_file_tab("/a.md".to_string(), true);
    state.add_file_tab("/b.md".to_string(), false);
    let before: Vec<Option<String>> = state.tabs.iter().map(|t| t.file().map(str::to_owned)).collect();
    let tab = state.take_tab(1).unwrap();
    assert_eq!(state.tabs.len(), 2);
    state.insert_tab(tab, 1);
    let after: Vec<Option<String>> = state.tabs.iter().map(|t| t.file().map(str::to_owned)).collect();
    assert_eq!(before, after);
    assert!(state.take_tab(9).is_none());
}

#[test]
fn test_close_tab_and_empty_tab() {
    let mut state = AppState::new(false);
    let i = state.add_empty_tab(true);
    assert_eq!(i, 1);
    assert_eq!(state.active_tab, 1);
    assert!(state.close_tab(1));
    assert_eq!(state.tabs.len(), 1);
    assert_eq!(state.active_tab, 0);
    assert!(!state.close_tab(5));
}

#[test]
fn test_toggle_preferences() {
    let mut state = AppState::new(false);
    state.open_file("/a.md".to_string());
    state.toggle_preferences();
    assert_eq!(state.tabs.len(), 2);
    assert_eq!(state.current_tab().unwrap().content, TabContent::Preferences);
    state.toggle_preferences();
    assert_eq!(state.tabs.len(), 1);
    assert_eq!(state.current_tab().unwrap().file(), Some("/a.md"));
    let mut fresh = AppState::new(false);
    fresh.open_preferences();
    assert_eq!(fresh.tabs.len(), 1);
    assert_eq!(fresh.current_tab().unwrap().content, TabContent::Preferences);
}

#[test]
fn test_reload_current_tab_keeps_file() {
    let mut state = AppState::new(false);
    state.add_tab(Tab::new("/a.md".to_string()), true);
    state.reload_current_tab();
    assert_eq!(state.current_tab().unwrap().file(), Some("/a.md"));
}

#[test]
fn test_directory_navigation() {
    let mut state = AppState::new(false);
    state.set_root_directory("/x/y".to_string());
    state.set_root_directory("/z".to_string());
    assert_eq!(state.sidebar.root_directory.as_deref(), Some("/z"));
    state.go_back_directory();
    assert_eq!(state.sidebar.root_directory.as_deref(), Some("/x/y"));
    state.go_forward_directory();
    assert_eq!(state.sidebar.root_directory.as_deref(), Some("/z"));
    state.set_root_directory("/x/y".to_string());
    state.go_to_parent_directory();
    assert_eq!(state.sidebar.root_directory.as_deref(), Some("/x"));
}

#[test]
fn test_toggles_and_search() {
    let mut state = AppState::new(false);
    state.toggle_toc();
    assert!(state.toc_open);
    state.toggle_sidebar();
    assert!(state.sidebar.open);
    state.toggle_search();
    assert!(state.search_open);
    state.update_search_results(5, 2);
    assert_eq!((state.search_match_count, state.search_current_index), (5, 2));
    state.toggle_search();
    assert!(!state.search_open);
    assert_eq!((state.search_match_count, state.search_current_index), (0, 0));
    state.open_search_with_text(Some("needle".to_string()));
    assert!(state.search_open);
    assert_eq!(state.search_initial_text.as_deref(), Some("needle"));
    state.toggle_directory_expansion("/d".to_string());
    assert!(state.sidebar.is_expanded("/d"));
    state.switch_to_tab(0);
    assert_eq!(state.active_tab, 0);
}

#[test]
fn test_handle_link_click_buttons() {
    let mut state = AppState::new(false);
    state.open_file("/a.md".to_string());
    state.handle_link_click("/b.md".to_string(), 0);
    assert_eq!(state.tabs.len(), 1);
    assert_eq!(state.current_tab().unwrap().file(), Some("/b.md"));
    state.handle_link_click("/c.md".to_string(), 1);
    assert_eq!(state.tabs.len(), 2);
    assert_eq!(state.active_tab, 1);
    assert_eq!(state.current_tab().unwrap().file(), Some("/c.md"));
    state.handle_link_click("/d.md".to_string(), 2);
    assert_eq!(state.tabs.len(), 2);
    assert_eq!(state.current_tab().unwrap().file(), Some("/c.md"));
}

#[test]
fn test_update_current_tab() {
    let mut state = AppState::new(false);
    state.add_file_tab("/a.md".to_string(), true);
    state.update_current_tab(|mut t| {
        t.pinned = true;
        t
    });
    assert!(state.tabs[1].pinned);
    assert!(!state.tabs[0].pinned);
}

#[test]
fn test_reload_current_tab_keeps_history() {
    let mut state = AppState::new(false);
    state.add_tab(Tab::new("/a.md".to_string()), true);
    state.reload_current_tab();
    let tab = state.current_tab().unwrap();
    assert!(!tab.history.can_go_back());
    assert!(!tab.history.can_go_forward());
    assert_eq!(tab.history.current().unwrap().path, "/a.md");
}

#[test]
fn test_go_forward_directory_at_end_keeps_root() {
    let mut state = AppState::new(false);
    state.set_root_directory("/x".to_string());
    state.go_forward_directory();
    assert_eq!(state.sidebar.root_directory.as_deref(), Some("/x"));
    state.set_root_directory("/y".to_string());
    state.go_back_directory();
    state.go_forward_directory();
    assert_eq!(state.sidebar.root_directory.as_deref(), Some("/y"));
    assert!(state.sidebar.expanded_dirs.is_empty());
}
