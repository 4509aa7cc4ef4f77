use editor_core::window::CacheWindow;

#[test]
fn test_first_event_establishes_window() {
    let mut win = CacheWindow::new();
    let invalidated = win.on_scroll(0, 800, 600);
    assert!(invalidated);
    // 600 px at 20 px per line: 30 lines, plus 2 spare; margin twice
    // that, clamped at the document start.
    assert_eq!(win.window_start(), 0);
    assert_eq!(win.window_end(), 0 + 32 + 64);
}

#[test]
fn test_small_scroll_keeps_window() {
    let mut win = CacheWindow::new();
    assert!(win.on_scroll(4000, 800, 600));
    let start = win.window_start();
    let end = win.window_end();

    // 4000 px is line 200; a margin is 64 lines, so 300 px (15 lines)
    // stays well within half of it.
    let invalidated = win.on_scroll(4300, 800, 600);
    assert!(!invalidated);
    assert_eq!(win.window_start(), start);
    assert_eq!(win.window_end(), end);
}

#[test]
fn test_scroll_past_margin_replaces_window() {
    let mut win = CacheWindow::new();
    assert!(win.on_scroll(4000, 800, 600));
    let start = win.window_start();

    // 66 lines down is past the 64-line margin.
    let invalidated = win.on_scroll(4000 + 66 * 20, 800, 600);
    assert!(invalidated);
    assert_ne!(win.window_start(), start);
}

#[test]
fn test_resize_always_replaces_window() {
    let mut win = CacheWindow::new();
    assert!(win.on_scroll(4000, 800, 600));
    let invalidated = win.on_scroll(4000, 800, 700);
    assert!(invalidated);
    // Same event again: nothing changed, the window stands.
    assert!(!win.on_scroll(4000, 800, 700));
}

#[test]
fn test_window_formula_exact() {
    let mut win = CacheWindow::new();
    // 4000 px at 20 px per line: first visible line 200; viewport of
    // 600 px shows ceil(600/20)+2 = 32 lines; margin 64 on each side.
    assert!(win.on_scroll(4000, 800, 600));
    assert_eq!(win.window_start(), 200 - 64);
    assert_eq!(win.window_end(), 200 + 32 + 64);
}
