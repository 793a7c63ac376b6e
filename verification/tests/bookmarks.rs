use arto::bookmarks::{reorder_bookmark, toggle_bookmark, Bookmark, Bookmarks};

fn paths(b: &Bookmarks) -> Vec<&str> {
    b.items.iter().map(|b| b.path.as_str()).collect()
}

#[test]
fn test_bookmark_display_name() {
    let bookmark = Bookmark::new("/path/to/file.md".to_string());
    assert_eq!(bookmark.display_name(), "file.md");

    let bookmark_with_name = Bookmark {
        path: "/path/to/file.md".to_string(),
        name: Some("My Notes".to_string()),
    };
    assert_eq!(bookmark_with_name.display_name(), "My Notes");
}

#[test]
fn test_bookmark_display_name_unknown() {
    assert_eq!(Bookmark::new("/path/..".to_string()).display_name(), "Unknown");
    assert_eq!(Bookmark::new("/".to_string()).display_name(), "Unknown");
}

#[test]
fn test_bookmarks_add_remove() {
    let mut bookmarks = Bookmarks::new();

    bookmarks.add("/path/to/file1.md".to_string());
    assert_eq!(bookmarks.len(), 1);
    assert!(bookmarks.contains("/path/to/file1.md"));

    bookmarks.add("/path/to/file1.md".to_string());
    assert_eq!(bookmarks.len(), 1);

    bookmarks.add("/path/to/file2.md".to_string());
    assert_eq!(bookmarks.len(), 2);

    bookmarks.remove("/path/to/file1.md");
    assert_eq!(bookmarks.len(), 1);
    assert!(!bookmarks.contains("/path/to/file1.md"));
}

#[test]
fn test_bookmarks_paths_compare_by_component() {
    let mut bookmarks = Bookmarks::new();
    bookmarks.add("/path/to/dir".to_string());
    assert!(bookmarks.contains("/path/to/dir/"));
    assert!(bookmarks.contains("/path//to/dir"));
    assert!(!bookmarks.contains("/path/to/dir2"));
}

#[test]
fn test_bookmarks_toggle() {
    let mut bookmarks = Bookmarks::new();

    let result = bookmarks.toggle("/path/to/file.md".to_string());
    assert!(result);
    assert!(bookmarks.contains("/path/to/file.md"));

    let result = bookmarks.toggle("/path/to/file.md".to_string());
    assert!(!result);
    assert!(!bookmarks.contains("/path/to/file.md"));
}

#[test]
fn test_toggle_twice_restores_list() {
    let mut bookmarks = Bookmarks::new();
    bookmarks.add("/a".to_string());
    bookmarks.add("/b".to_string());
    assert!(toggle_bookmark(&mut bookmarks, "/c".to_string()));
    assert!(!toggle_bookmark(&mut bookmarks, "/c".to_string()));
    assert_eq!(paths(&bookmarks), vec!["/a", "/b"]);
}

fn abcd() -> Bookmarks {
    let mut bookmarks = Bookmarks::new();
    bookmarks.add("/a".to_string());
    bookmarks.add("/b".to_string());
    bookmarks.add("/c".to_string());
    bookmarks.add("/d".to_string());
    bookmarks
}

#[test]
fn test_bookmarks_reorder_forward() {
    let mut bookmarks = abcd();
    assert!(bookmarks.reorder(0, 2));
    assert_eq!(paths(&bookmarks), vec!["/b", "/a", "/c", "/d"]);
}

#[test]
fn test_bookmarks_reorder_backward() {
    let mut bookmarks = abcd();
    assert!(bookmarks.reorder(3, 1));
    assert_eq!(paths(&bookmarks), vec!["/a", "/d", "/b", "/c"]);
}

#[test]
fn test_bookmarks_reorder_same_index() {
    let mut bookmarks = Bookmarks::new();
    bookmarks.add("/a".to_string());
    bookmarks.add("/b".to_string());
    assert!(bookmarks.reorder(1, 1));
    assert_eq!(paths(&bookmarks), vec!["/a", "/b"]);
}

#[test]
fn test_bookmarks_reorder_invalid_index() {
    let mut bookmarks = Bookmarks::new();
    bookmarks.add("/a".to_string());
    assert!(!bookmarks.reorder(0, 5));
    assert!(!bookmarks.reorder(5, 0));
}

#[test]
fn test_reorder_bookmark_keeps_every_item() {
    let mut bookmarks = abcd();
    assert!(reorder_bookmark(&mut bookmarks, 1, 3));
    let mut sorted = paths(&bookmarks);
    assert_eq!(sorted, vec!["/a", "/c", "/b", "/d"]);
    sorted.sort();
    assert_eq!(sorted, vec!["/a", "/b", "/c", "/d"]);
    assert!(!reorder_bookmark(&mut bookmarks, 4, 0));
}

#[test]
fn test_contains_plain_paths() {
    let mut b = arto::bookmarks::Bookmarks::new();
    b.add("/docs/a.md".to_string());
    assert!(b.contains("/docs/a.md"));
    assert!(!b.contains("/docs/b.md"));
    assert!(b.contains("/docs//a.md"));
}
