use live_markdown_native::plugin::commands::{
    markdown_render_open, markdown_render_start, markdown_render_stop, markdown_render_toggle,
};
use live_markdown_native::plugin::{describe_io_error, MarkdownRenderPlugin, PluginError};
use live_markdown_native::protocol::{ServerEvent, SessionEndReason};
use live_markdown_native::session::BufferSnapshot;

fn buffer(bufnr: i64, changedtick: u64, markdown: &str) -> BufferSnapshot {
    BufferSnapshot {
        bufnr,
        changedtick,
        markdown: String::from(markdown),
        cursor_line: 1,
        cursor_col: 0,
        source_path: None,
    }
}

#[test]
fn toggle_starts_and_stops_session() {
    let mut plugin = MarkdownRenderPlugin::new(100, 24);

    let buffer = buffer(5, 1, "# hello");

    let started = plugin.toggle_preview(buffer.clone());
    assert!(started);
    assert!(plugin.has_session(5));

    let stopped = !plugin.toggle_preview(buffer);
    assert!(stopped);
    assert!(!plugin.has_session(5));
}

#[test]
fn text_changes_pass_the_debounce_window() {
    let mut plugin = MarkdownRenderPlugin::new(100, 24);
    plugin.start_preview(buffer(1, 1, "a"));
    let before = plugin.sessions().snapshot(1).expect("snapshot").html;

    plugin.on_text_changed(buffer(1, 2, "b"), 1_000);
    let first = plugin.sessions().snapshot(1).expect("snapshot").html;
    assert_ne!(first, before);

    plugin.on_text_changed(buffer(1, 3, "c"), 1_050);
    assert_eq!(plugin.sessions().snapshot(1).expect("snapshot").html, first);

    plugin.on_text_changed(buffer(1, 3, "c"), 1_100);
    assert_ne!(plugin.sessions().snapshot(1).expect("snapshot").html, first);
}

#[test]
fn cursor_moves_pass_the_throttle() {
    let mut plugin = MarkdownRenderPlugin::new(100, 24);
    plugin.start_preview(buffer(1, 1, "a\nb\nc"));
    plugin.on_cursor_moved(1, 2, 0, 10);
    assert_eq!(plugin.sessions().snapshot(1).expect("snapshot").cursor_line, 2);
    plugin.on_cursor_moved(1, 3, 0, 20);
    assert_eq!(plugin.sessions().snapshot(1).expect("snapshot").cursor_line, 2);
    plugin.on_cursor_moved(1, 3, 5, 34);
    let shown = plugin.sessions().snapshot(1).expect("snapshot");
    assert_eq!((shown.cursor_line, shown.cursor_col), (3, 5));
    plugin.on_cursor_moved(1, 3, 9, 1_000);
    assert_eq!(plugin.sessions().snapshot(1).expect("snapshot").cursor_col, 5);
}

#[test]
fn stopping_clears_the_debounce_window() {
    let mut plugin = MarkdownRenderPlugin::new(100, 24);
    plugin.start_preview(buffer(1, 1, "a"));
    plugin.on_text_changed(buffer(1, 2, "b"), 0);
    assert!(plugin.stop_preview(1));
    assert!(!plugin.stop_preview(1));
    assert!(!plugin.has_previews());
    plugin.start_preview(buffer(1, 3, "c"));
    plugin.on_text_changed(buffer(1, 4, "d"), 1);
    assert!(plugin.sessions().snapshot(1).expect("snapshot").html.contains(">d<"));
}

#[test]
fn wipeout_ends_with_buffer_closed() {
    let mut plugin = MarkdownRenderPlugin::new(100, 24);
    plugin.start_preview(buffer(1, 1, "a"));
    plugin.start_preview(buffer(2, 1, "b"));
    plugin.on_buf_leave(2);
    plugin.on_buf_enter(1);
    assert_eq!(plugin.sessions().active_bufnr(), Some(1));
    assert!(plugin.has_previews());
    plugin.on_buf_wipeout(1);
    assert!(!plugin.has_session(1));
    assert_eq!(plugin.sessions().active_bufnr(), None);
    plugin.shutdown();
    assert!(!plugin.has_previews());
    plugin.stop_all_previews();
    assert_eq!(plugin.sessions().session_count(), 0);
}

#[test]
fn commands_forward_to_the_plugin() {
    let mut plugin = MarkdownRenderPlugin::new(100, 24);
    markdown_render_start(&mut plugin, buffer(3, 1, "x"));
    assert_eq!(
        markdown_render_open(&plugin, 3, "127.0.0.1", 6419),
        Some(String::from("http://127.0.0.1:6419/"))
    );
    assert_eq!(markdown_render_open(&plugin, 4, "127.0.0.1", 6419), None);
    assert!(!markdown_render_toggle(&mut plugin, buffer(3, 1, "x")));
    assert!(markdown_render_toggle(&mut plugin, buffer(3, 1, "x")));
    assert!(markdown_render_stop(&mut plugin, 3));
    assert!(!markdown_render_stop(&mut plugin, 3));
}

#[test]
fn io_errors_are_wrapped() {
    let error = PluginError::from(std::io::Error::other("failed to bind preview server"));
    assert_eq!(error.message(), "io error: failed to bind preview server");
    assert!(matches!(error, PluginError::Io(_)));
}

#[test]
fn io_error_messages_lead_with_their_kind() {
    assert_eq!(describe_io_error("address in use"), "io error: address in use");
    assert_eq!(describe_io_error(""), "io error: ");
    let missing = PluginError::from(std::io::Error::from(std::io::ErrorKind::NotFound));
    assert!(missing.message().starts_with("io error: "));
    assert!(missing.message().len() > "io error: ".len());
}

#[test]
fn end_reasons_are_told_apart() {
    let end = ServerEvent::SessionEnd { bufnr: 1, reason: SessionEndReason::Stopped };
    match end {
        ServerEvent::SessionEnd { reason, .. } => {
            assert_ne!(reason, SessionEndReason::BufferClosed);
            assert_ne!(reason, SessionEndReason::Error);
        }
        _ => unreachable!(),
    }
}
