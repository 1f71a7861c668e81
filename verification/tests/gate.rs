use live_markdown_native::plugin::autocmd::AutocmdGate;

#[test]
fn cursor_gate_rejects_duplicate_lines() {
    let mut gate = AutocmdGate::new(100, 20);

    assert!(gate.allow_cursor_emit(1, 10, 0));
    assert!(!gate.allow_cursor_emit(1, 10, 0));
}

#[test]
fn duplicate_line_is_held_back_at_any_time() {
    let mut gate = AutocmdGate::new(100, 20);
    assert!(gate.allow_cursor_emit(1, 10, 5));
    assert!(!gate.allow_cursor_emit(1, 10, 1_000_000));
    assert!(gate.allow_cursor_emit(1, 11, 1_000_000));
    assert!(gate.allow_cursor_emit(1, 10, 1_000_020));
}

#[test]
fn cursor_moves_are_throttled_by_the_window() {
    let mut gate = AutocmdGate::new(100, 20);
    assert!(gate.allow_cursor_emit(1, 1, 100));
    assert!(!gate.allow_cursor_emit(1, 2, 119));
    assert!(gate.allow_cursor_emit(1, 2, 120));
    assert!(!gate.allow_cursor_emit(1, 3, 90));
}

#[test]
fn content_is_let_through_once_per_window() {
    let mut gate = AutocmdGate::new(100, 20);
    assert!(gate.allow_content_emit(7, 1_000));
    assert!(!gate.allow_content_emit(7, 1_000));
    assert!(!gate.allow_content_emit(7, 1_099));
    assert!(gate.allow_content_emit(7, 1_100));
    assert!(!gate.allow_content_emit(7, 1_150));
    assert!(gate.allow_content_emit(7, 1_200));
}

#[test]
fn documents_have_their_own_windows() {
    let mut gate = AutocmdGate::new(100, 20);
    assert!(gate.allow_content_emit(1, 0));
    assert!(gate.allow_content_emit(2, 1));
    assert!(!gate.allow_content_emit(1, 2));
    assert!(gate.allow_cursor_emit(1, 4, 2));
    assert!(gate.allow_cursor_emit(2, 4, 2));
    assert!(!gate.allow_cursor_emit(1, 4, 3));
}

#[test]
fn clearing_forgets_a_document_and_can_be_repeated() {
    let mut gate = AutocmdGate::new(100, 20);
    assert!(gate.allow_content_emit(1, 0));
    assert!(gate.allow_cursor_emit(1, 3, 0));
    assert!(gate.allow_content_emit(2, 0));
    gate.clear_buffer(1);
    gate.clear_buffer(1);
    assert!(gate.allow_content_emit(1, 1));
    assert!(gate.allow_cursor_emit(1, 3, 1));
    assert!(!gate.allow_content_emit(2, 1));
}

#[test]
fn zero_windows_let_everything_but_duplicates_through() {
    let mut gate = AutocmdGate::new(0, 0);
    assert!(gate.allow_content_emit(1, 5));
    assert!(gate.allow_content_emit(1, 5));
    assert!(gate.allow_cursor_emit(1, 1, 5));
    assert!(gate.allow_cursor_emit(1, 2, 5));
    assert!(!gate.allow_cursor_emit(1, 2, 9));
}
