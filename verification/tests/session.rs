use live_markdown_native::protocol::{ServerEvent, SessionEndReason};
use live_markdown_native::render::MarkdownRenderer;
use live_markdown_native::session::{
    content_hash, snapshot_source_path, BufferSnapshot, LifecycleState, SessionManager,
};

fn snapshot_of(bufnr: i64, changedtick: u64, markdown: &str, cursor_line: usize) -> BufferSnapshot {
    BufferSnapshot {
        bufnr,
        changedtick,
        markdown: String::from(markdown),
        cursor_line,
        cursor_col: 0,
        source_path: None,
    }
}

#[test]
fn session_start_update_and_stop_lifecycle() {
    let mut sessions = SessionManager::default();
    let renderer = MarkdownRenderer::default();

    sessions.start_session(snapshot_of(1, 1, "# hello", 1), &renderer);

    assert_eq!(sessions.session_count(), 1);
    assert_eq!(sessions.active_bufnr(), Some(1));

    let updated = sessions.update_content(snapshot_of(1, 2, "# hello\n\nmore", 2), &renderer);
    assert!(updated);

    let stopped = sessions.stop_session(1, SessionEndReason::Stopped);
    assert!(stopped);
    assert_eq!(sessions.session_count(), 0);
    assert_eq!(sessions.active_bufnr(), None);
}

#[test]
fn cursor_updates_ignore_duplicates() {
    let mut sessions = SessionManager::default();
    let renderer = MarkdownRenderer::default();

    sessions.start_session(snapshot_of(2, 1, "line", 1), &renderer);

    assert!(!sessions.update_cursor(2, 1, 0));
    assert!(sessions.update_cursor(2, 2, 3));
    assert!(!sessions.update_cursor(2, 2, 3));
}

#[test]
fn subscription_requires_active_session() {
    let mut sessions = SessionManager::default();
    let renderer = MarkdownRenderer::default();

    sessions.start_session(snapshot_of(3, 1, "line", 1), &renderer);

    let mut rx = sessions.subscribe(3, 99).expect("valid subscription");

    assert!(sessions.subscribe(99, 100).is_none());
    assert!(sessions.update_cursor(3, 4, 0));

    let event = rx.try_recv().expect("event");
    match event {
        ServerEvent::CursorMove { bufnr, line, .. } => {
            assert_eq!(bufnr, 3);
            assert_eq!(line, 4);
        }
        _ => panic!("unexpected event"),
    }

    sessions.pause_session(3);
    assert!(sessions.has_session(3));

    sessions.resume_session(3);
    assert_eq!(sessions.active_bufnr(), Some(3));

    sessions.stop_all(SessionEndReason::Stopped);
    assert_eq!(sessions.session_count(), 0);
    assert!(!sessions.has_session(3));
}

#[test]
fn rerender_content_forces_emit_without_text_changes() {
    let mut sessions = SessionManager::default();
    let renderer = MarkdownRenderer::default();

    sessions.start_session(snapshot_of(4, 10, "# title", 1), &renderer);

    let mut rx = sessions.subscribe(4, 777).expect("valid subscription");

    assert!(sessions.rerender_content(snapshot_of(4, 10, "# title", 1), &renderer));

    let event = rx.try_recv().expect("render event");
    match event {
        ServerEvent::RenderFull {
            bufnr, cursor_line, ..
        } => {
            assert_eq!(bufnr, 4);
            assert_eq!(cursor_line, 1);
        }
        other => panic!("unexpected event: {other:?}"),
    }
}

#[test]
fn lifecycle_states_exist_for_transitions() {
    assert_eq!(LifecycleState::Idle as u8, 0);
    assert_eq!(LifecycleState::Running as u8, 1);
    assert_eq!(LifecycleState::Paused as u8, 2);
    assert_eq!(LifecycleState::Stopped as u8, 3);
}

#[test]
fn repeated_snapshot_is_refused_and_not_published() {
    let mut sessions = SessionManager::default();
    let renderer = MarkdownRenderer::default();
    sessions.start_session(snapshot_of(5, 3, "# a", 1), &renderer);
    let mut rx = sessions.subscribe(5, 1).expect("valid subscription");

    assert!(!sessions.update_content(snapshot_of(5, 3, "# a", 9), &renderer));
    assert!(rx.try_recv().is_err());
    assert_eq!(sessions.snapshot(5).expect("snapshot").cursor_line, 1);

    assert!(sessions.update_content(snapshot_of(5, 3, "# b", 2), &renderer));
    assert!(sessions.update_content(snapshot_of(5, 4, "# b", 2), &renderer));
    assert!(!sessions.update_content(snapshot_of(5, 4, "# b", 2), &renderer));
    let mut seen = 0;
    while let Ok(event) = rx.try_recv() {
        assert_eq!(event.event_name(), "render_full");
        seen += 1;
    }
    assert_eq!(seen, 2);
}

#[test]
fn update_without_session_is_refused() {
    let mut sessions = SessionManager::default();
    let renderer = MarkdownRenderer::default();
    assert!(!sessions.update_content(snapshot_of(1, 1, "x", 1), &renderer));
    assert!(!sessions.rerender_content(snapshot_of(1, 1, "x", 1), &renderer));
    assert!(!sessions.update_cursor(1, 2, 2));
    assert!(!sessions.stop_session(1, SessionEndReason::Error));
    assert!(sessions.snapshot(1).is_none());
    assert!(!sessions.has_session(1));
    assert_eq!(sessions.session_count(), 0);
    assert_eq!(sessions.active_bufnr(), None);
    sessions.pause_session(1);
    sessions.unsubscribe(1, 1);
    assert_eq!(sessions.session_count(), 0);
}

#[test]
fn stop_delivers_one_terminal_event() {
    let mut sessions = SessionManager::default();
    let renderer = MarkdownRenderer::default();
    sessions.start_session(snapshot_of(6, 1, "x", 1), &renderer);
    let mut rx = sessions.subscribe(6, 1).expect("valid subscription");

    assert!(sessions.stop_session(6, SessionEndReason::BufferClosed));
    assert!(!sessions.has_session(6));
    assert!(sessions.snapshot(6).is_none());
    assert!(sessions.subscribe(6, 2).is_none());

    match rx.try_recv().expect("terminal event") {
        ServerEvent::SessionEnd { bufnr, reason } => {
            assert_eq!(bufnr, 6);
            assert_eq!(reason, SessionEndReason::BufferClosed);
        }
        other => panic!("unexpected event: {other:?}"),
    }
    assert!(rx.try_recv().is_err());
    assert!(!sessions.stop_session(6, SessionEndReason::BufferClosed));
}

#[test]
fn stop_all_ends_every_session_once() {
    let mut sessions = SessionManager::default();
    let renderer = MarkdownRenderer::default();
    let mut streams = Vec::new();
    for bufnr in [10, 20, 30] {
        sessions.start_session(snapshot_of(bufnr, 1, "x", 1), &renderer);
        streams.push((bufnr, sessions.subscribe(bufnr, 1).expect("valid subscription")));
    }
    assert_eq!(sessions.session_count(), 3);
    sessions.stop_all(SessionEndReason::Stopped);
    assert_eq!(sessions.session_count(), 0);
    assert_eq!(sessions.active_bufnr(), None);
    for (bufnr, mut rx) in streams {
        match rx.try_recv().expect("terminal event") {
            ServerEvent::SessionEnd { bufnr: ended, reason } => {
                assert_eq!(ended, bufnr);
                assert_eq!(reason, SessionEndReason::Stopped);
            }
            other => panic!("unexpected event: {other:?}"),
        }
        assert!(rx.try_recv().is_err());
    }
}

#[test]
fn snapshot_shows_the_current_state() {
    let mut sessions = SessionManager::default();
    let renderer = MarkdownRenderer::default();
    let mut snapshot = snapshot_of(7, 1, "hi", 3);
    snapshot.cursor_col = 4;
    snapshot.source_path = Some(String::from("  /tmp/notes/note.md  "));
    sessions.start_session(snapshot, &renderer);

    let shown = sessions.snapshot(7).expect("snapshot");
    assert_eq!(shown.bufnr, 7);
    assert_eq!(shown.html, renderer.render("hi"));
    assert_eq!(shown.cursor_line, 3);
    assert_eq!(shown.cursor_col, 4);
    assert_eq!(shown.filename, "note.md");
    assert_eq!(sessions.source_path(7), Some(String::from("/tmp/notes/note.md")));

    sessions.start_session(snapshot_of(8, 1, "x", 1), &renderer);
    assert_eq!(sessions.snapshot(8).expect("snapshot").filename, "buffer");
    assert_eq!(sessions.source_path(8), None);
    assert_eq!(sessions.source_path(9), None);
}

#[test]
fn restart_keeps_subscribers_and_publishes_again() {
    let mut sessions = SessionManager::default();
    let renderer = MarkdownRenderer::default();
    sessions.start_session(snapshot_of(1, 1, "a", 1), &renderer);
    let mut rx = sessions.subscribe(1, 5).expect("valid subscription");
    sessions.start_session(snapshot_of(1, 1, "a", 1), &renderer);
    assert_eq!(sessions.session_count(), 1);
    match rx.try_recv().expect("render event") {
        ServerEvent::RenderFull { bufnr, html, cursor_line } => {
            assert_eq!(bufnr, 1);
            assert_eq!(html, renderer.render("a"));
            assert_eq!(cursor_line, 1);
        }
        other => panic!("unexpected event: {other:?}"),
    }
}

#[test]
fn pause_and_resume_move_the_foreground() {
    let mut sessions = SessionManager::default();
    let renderer = MarkdownRenderer::default();
    sessions.start_session(snapshot_of(1, 1, "a", 1), &renderer);
    sessions.start_session(snapshot_of(2, 1, "b", 1), &renderer);
    assert_eq!(sessions.active_bufnr(), Some(2));
    sessions.pause_session(2);
    assert_eq!(sessions.active_bufnr(), Some(2));
    assert!(sessions.update_content(snapshot_of(2, 2, "c", 1), &renderer));
    sessions.resume_session(1);
    assert_eq!(sessions.active_bufnr(), Some(1));
    assert!(sessions.stop_session(2, SessionEndReason::Stopped));
    assert_eq!(sessions.active_bufnr(), Some(1));
    assert!(sessions.stop_session(1, SessionEndReason::Stopped));
    assert_eq!(sessions.active_bufnr(), None);
}

#[test]
fn events_reach_a_subscriber_in_the_order_published() {
    let mut sessions = SessionManager::default();
    let renderer = MarkdownRenderer::default();
    sessions.start_session(snapshot_of(1, 1, "a", 1), &renderer);
    let mut rx = sessions.subscribe(1, 5).expect("valid subscription");
    assert!(sessions.update_cursor(1, 2, 0));
    assert!(sessions.apply_content(snapshot_of(1, 2, "b", 2), String::from("<p>b</p>")));
    assert!(sessions.apply_rerender(snapshot_of(1, 2, "b", 2), String::from("<p>b</p>")));
    assert!(sessions.update_cursor(1, 3, 1));
    let mut names = Vec::new();
    while let Ok(event) = rx.try_recv() {
        assert_eq!(event.bufnr(), 1);
        names.push(event.event_name());
    }
    assert_eq!(names, vec!["cursor_move", "render_full", "render_full", "cursor_move"]);
}

#[test]
fn fingerprint_tells_texts_apart() {
    assert_eq!(content_hash("abc"), content_hash("abc"));
    assert_ne!(content_hash("abc"), content_hash("abd"));
    assert_ne!(content_hash(""), content_hash("\0"));
    assert_eq!(snapshot_source_path(Some(" a.md ")), Some(String::from("a.md")));
    assert_eq!(snapshot_source_path(Some("  ")), None);
    assert_eq!(snapshot_source_path(None), None);
}

#[test]
fn event_names_and_documents() {
    let events = [
        (ServerEvent::RenderFull { bufnr: 1, html: String::new(), cursor_line: 1 }, "render_full", 1),
        (ServerEvent::CursorMove { bufnr: 2, line: 1, col: 0 }, "cursor_move", 2),
        (ServerEvent::SessionEnd { bufnr: 3, reason: SessionEndReason::Error }, "session_end", 3),
        (ServerEvent::Heartbeat { bufnr: -4 }, "heartbeat", -4),
    ];
    for (event, name, bufnr) in events {
        assert_eq!(event.event_name(), name);
        assert_eq!(event.bufnr(), bufnr);
    }
}
