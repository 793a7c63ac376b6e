use arto::history::HistoryManager;

#[test]
fn test_new_history_manager() {
    let manager = HistoryManager::new();
    assert!(manager.is_empty());
    assert_eq!(manager.current_path(), None);
    assert!(!manager.can_go_back());
    assert!(!manager.can_go_forward());
}

#[test]
fn test_push_first_item() {
    let mut manager = HistoryManager::new();
    let path = "/test/file1.md";
    manager.push(path.to_string());

    assert_eq!(manager.len(), 1);
    assert_eq!(manager.current_path(), Some(path));
    assert!(!manager.can_go_back());
    assert!(!manager.can_go_forward());
}

#[test]
fn test_push_multiple_items() {
    let mut manager = HistoryManager::new();
    let path1 = "/test/file1.md";
    let path2 = "/test/file2.md";
    let path3 = "/test/file3.md";

    manager.push(path1.to_string());
    manager.push(path2.to_string());
    manager.push(path3.to_string());

    assert_eq!(manager.len(), 3);
    assert_eq!(manager.current_path(), Some(path3));
    assert!(manager.can_go_back());
    assert!(!manager.can_go_forward());
}

#[test]
fn test_go_back() {
    let mut manager = HistoryManager::new();
    let path1 = "/test/file1.md";
    let path2 = "/test/file2.md";

    manager.push(path1.to_string());
    manager.push(path2.to_string());

    let back = manager.go_back();
    assert_eq!(back.map(|e| e.path), Some(path1.to_string()));
    assert_eq!(manager.current_path(), Some(path1));
    assert!(!manager.can_go_back());
    assert!(manager.can_go_forward());
}

#[test]
fn test_go_forward() {
    let mut manager = HistoryManager::new();
    let path1 = "/test/file1.md";
    let path2 = "/test/file2.md";

    manager.push(path1.to_string());
    manager.push(path2.to_string());
    manager.go_back();

    let forward = manager.go_forward();
    assert_eq!(forward.map(|e| e.path), Some(path2.to_string()));
    assert_eq!(manager.current_path(), Some(path2));
    assert!(manager.can_go_back());
    assert!(!manager.can_go_forward());
}

#[test]
fn test_push_clears_forward_history() {
    let mut manager = HistoryManager::new();
    let path1 = "/test/file1.md";
    let path2 = "/test/file2.md";
    let path3 = "/test/file3.md";

    manager.push(path1.to_string());
    manager.push(path2.to_string());
    manager.go_back();

    manager.push(path3.to_string());

    assert_eq!(manager.len(), 2);
    assert_eq!(manager.current_path(), Some(path3));
    assert!(manager.can_go_back());
    assert!(!manager.can_go_forward());
}

#[test]
fn test_push_duplicate_does_nothing() {
    let mut manager = HistoryManager::new();
    let path = String::from("/test/file1.md");

    manager.push(path.clone());
    manager.push(path.clone());

    assert_eq!(manager.len(), 1);
}

#[test]
fn test_scroll_position_saved() {
    let mut manager = HistoryManager::new();
    manager.push("/test/file1.md".to_string());
    manager.save_scroll_position(500.0f64.to_bits());

    assert_eq!(f64::from_bits(manager.current().unwrap().scroll_position), 500.0);
}

#[test]
fn test_scroll_position_preserved_on_back() {
    let mut manager = HistoryManager::new();
    manager.push("/test/file1.md".to_string());
    manager.save_scroll_position(100.0f64.to_bits());
    manager.push("/test/file2.md".to_string());
    manager.save_scroll_position(200.0f64.to_bits());

    let back = manager.go_back().unwrap();
    assert_eq!(f64::from_bits(back.scroll_position), 100.0);
}

#[test]
fn test_back_then_forward_returns_to_same_entry() {
    let mut manager = HistoryManager::new();
    manager.push("/a.md".to_string());
    manager.push("/b.md".to_string());
    manager.push("/c.md".to_string());
    manager.go_back();
    manager.go_forward();
    assert_eq!(manager.current_path(), Some("/c.md"));
    assert_eq!(manager.len(), 3);
}

#[test]
fn test_go_back_at_start_and_forward_at_end() {
    let mut manager = HistoryManager::new();
    assert!(manager.go_back().is_none());
    assert!(manager.go_forward().is_none());
    manager.push("/a.md".to_string());
    assert!(manager.go_back().is_none());
    assert!(manager.go_forward().is_none());
    assert_eq!(manager.current_path(), Some("/a.md"));
}

#[test]
fn test_push_back_then_same_path_keeps_history() {
    let mut manager = HistoryManager::new();
    manager.push("/a.md".to_string());
    manager.push("/b.md".to_string());
    manager.go_back();
    manager.push("/a.md".to_string());
    assert_eq!(manager.len(), 2);
    assert_eq!(manager.current_path(), Some("/a.md"));
    assert!(manager.can_go_forward());
}

#[test]
fn test_push_equivalent_spelling_is_same_path() {
    let mut manager = HistoryManager::new();
    manager.push("/a/b.md".to_string());
    manager.push("/a//b.md".to_string());
    assert_eq!(manager.len(), 1);
}
