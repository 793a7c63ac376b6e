use arto::open_event::{handle_open_event, OpenAction, OpenEvent};
use arto::cache::{build_id_path, clear_stale_webview_cache_if_needed, collect_webview_cache_dirs, stored_build_id};
use arto::drag::{
    end_active_drag, end_drag, get_dragged_tab, is_active_drag, is_point_in_window, is_tab_dragging,
    start_tab_drag, DragSlot,
};
use arto::events::ActiveDragUpdate;
use arto::state::tab::Tab;
use arto::window::preview::{
    close_preview_window, commit_preview_window, discard_preview_window, has_preview_window,
    hide_preview_window, show_preview_window, PreviewState, WindowCommand,
};

#[test]
fn test_tab_drag_start_and_end() {
    let mut state = DragSlot::new();
    assert!(!is_tab_dragging(&state));
    start_tab_drag(&mut state, Tab::new("/a.md".to_string()), 7u32, 2);
    assert!(is_tab_dragging(&state));
    let dragged = get_dragged_tab(&state).unwrap();
    assert_eq!(dragged.source_window_id, 7);
    assert_eq!(dragged.source_index, 2);
    assert_eq!(dragged.tab.file(), Some("/a.md"));
    end_drag(&mut state);
    assert!(!is_tab_dragging(&state));
    assert!(get_dragged_tab(&state).is_none());
}

#[test]
fn test_active_drag_end_returns_state() {
    let mut state: DragSlot<usize> = DragSlot::new();
    assert!(!is_active_drag(&state));
    state.start(3);
    assert!(is_active_drag(&state));
    assert_eq!(end_active_drag(&mut state), Some(3));
    assert!(!is_active_drag(&state));
    assert_eq!(end_active_drag(&mut state), None);
}

#[test]
fn test_is_point_in_window_edges() {
    assert!(is_point_in_window(10, 20, 10, 20, 100, 50));
    assert!(is_point_in_window(109, 69, 10, 20, 100, 50));
    assert!(!is_point_in_window(110, 30, 10, 20, 100, 50));
    assert!(!is_point_in_window(50, 70, 10, 20, 100, 50));
    assert!(!is_point_in_window(9, 30, 10, 20, 100, 50));
    assert!(is_point_in_window(i32::MAX - 1, 0, i32::MAX - 10, 0, 100, 1));
}

#[test]
fn test_active_drag_update_is_copy() {
    let u = ActiveDragUpdate;
    let v = u;
    let _w = u;
    let _ = v;
}

#[test]
fn test_close_preview_promoted_restores_window() {
    let mut state = Some(PreviewState { window: "w1", is_promoted: true });
    assert!(has_preview_window(&state));
    let (w, cmds) = close_preview_window(&mut state).unwrap();
    assert_eq!(w, "w1");
    assert_eq!(cmds, vec![WindowCommand::SetAlwaysOnTop(false), WindowCommand::SetVisible(true)]);
    assert!(!has_preview_window(&state));
    assert!(close_preview_window(&mut state).is_none());
}

#[test]
fn test_close_preview_new_window_closes_it() {
    let mut state = Some(PreviewState { window: 5u8, is_promoted: false });
    let (w, cmds) = close_preview_window(&mut state).unwrap();
    assert_eq!(w, 5);
    assert_eq!(cmds, vec![WindowCommand::Close]);
}

#[test]
fn test_discard_preview() {
    let mut promoted = Some(PreviewState { window: 1u8, is_promoted: true });
    assert_eq!(discard_preview_window(&mut promoted).unwrap().1, vec![WindowCommand::SetAlwaysOnTop(false)]);
    assert!(promoted.is_none());
    let mut made = Some(PreviewState { window: 2u8, is_promoted: false });
    assert_eq!(discard_preview_window(&mut made).unwrap().1, vec![WindowCommand::Close]);
}

#[test]
fn test_commit_hide_show_preview() {
    let mut state = Some(PreviewState { window: 9u8, is_promoted: false });
    assert_eq!(hide_preview_window(&state), vec![WindowCommand::SetVisible(false)]);
    assert_eq!(show_preview_window(&state), vec![WindowCommand::SetVisible(true)]);
    assert!(has_preview_window(&state));
    let (w, cmds) = commit_preview_window(&mut state).unwrap();
    assert_eq!(w, 9);
    assert_eq!(cmds, vec![WindowCommand::SetAlwaysOnTop(false)]);
    assert!(hide_preview_window(&state).is_empty());
    assert!(show_preview_window(&state).is_empty());
}

#[test]
fn test_cache_staleness() {
    assert!(clear_stale_webview_cache_if_needed(None, "2026-01-31T12:34:56Z"));
    assert!(!clear_stale_webview_cache_if_needed(Some("2026-01-31T12:34:56Z\n"), "2026-01-31T12:34:56Z"));
    assert!(clear_stale_webview_cache_if_needed(Some("2025-01-01T00:00:00Z"), "2026-01-31T12:34:56Z"));
    assert_eq!(stored_build_id("  id \n"), "id");
}

#[test]
fn test_collect_webview_cache_dirs_returns_expected_paths() {
    let dirs = collect_webview_cache_dirs(Some("/home/u/.cache"));
    assert!(dirs.iter().any(|d| d.ends_with("com.lambdalisue.Arto")));
    assert_eq!(dirs, vec!["/home/u/.cache/com.lambdalisue.Arto".to_string(), "/home/u/.cache/arto".to_string()]);
    assert!(collect_webview_cache_dirs(None).is_empty());
}

#[test]
fn test_build_id_path_choices() {
    assert_eq!(build_id_path(Some("/cfg"), Some("/home/u")), "/cfg/arto/.build-id");
    assert_eq!(build_id_path(None, Some("/home/u")), "/home/u/.arto/.build-id");
    assert_eq!(build_id_path(None, None), ".build-id");
}

#[test]
fn test_handle_open_event() {
    assert_eq!(
        handle_open_event(OpenEvent::File("/a.md".to_string()), true),
        OpenAction::BroadcastFile("/a.md".to_string())
    );
    assert_eq!(
        handle_open_event(OpenEvent::File("/a.md".to_string()), false),
        OpenAction::NewWindowWithFile("/a.md".to_string())
    );
    assert_eq!(
        handle_open_event(OpenEvent::Directory("/d".to_string()), true),
        OpenAction::BroadcastDirectory("/d".to_string())
    );
    assert_eq!(
        handle_open_event(OpenEvent::Directory("/d".to_string()), false),
        OpenAction::NewWindowWithDirectory("/d".to_string())
    );
    assert_eq!(handle_open_event(OpenEvent::Reopen, true), OpenAction::FocusLastOrNewWindow);
}

#[test]
fn test_update_active_drag() {
    let mut state: DragSlot<usize> = DragSlot::new();
    arto::drag::update_active_drag(&mut state, |d| d + 1);
    assert!(!is_active_drag(&state));
    state.start(4);
    arto::drag::update_active_drag(&mut state, |d| d * 10);
    assert_eq!(end_active_drag(&mut state), Some(40));
}
