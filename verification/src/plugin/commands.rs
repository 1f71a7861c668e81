//! The commands of the editor, by name.

use crate::plugin::MarkdownRenderPlugin;
use crate::protocol::SessionEndReason;
use crate::render::rendered;
use crate::server::preview_url_of;
use crate::session::BufferSnapshot;
use crate::text::text_of;
use vstd::prelude::*;

verus! {

/// Starts the preview of a document.
pub fn markdown_render_start(plugin: &mut MarkdownRenderPlugin, snapshot: BufferSnapshot)
    ensures
        final(plugin)@.store == old(plugin)@.store.started(
            snapshot@,
            rendered(snapshot@.markdown, old(plugin)@.options),
        ),
        old(plugin)@.store.wf() ==> final(plugin)@.store.wf(),
        final(plugin)@.gate == old(plugin)@.gate,
        final(plugin)@.options == old(plugin)@.options,
{
    plugin.start_preview(snapshot)
}

/// Stops the preview of a document.
pub fn markdown_render_stop(plugin: &mut MarkdownRenderPlugin, bufnr: i64) -> (stopped: bool)
    ensures
        stopped == old(plugin)@.store.sessions.contains_key(bufnr),
        final(plugin)@.store == old(plugin)@.store.stopped(bufnr, SessionEndReason::Stopped),
        old(plugin)@.store.wf() ==> final(plugin)@.store.wf(),
        final(plugin)@.gate == old(plugin)@.gate.cleared(bufnr),
        final(plugin)@.options == old(plugin)@.options,
{
    plugin.stop_preview(bufnr)
}

/// Stops the preview of a document that has one, starts one otherwise.
pub fn markdown_render_toggle(plugin: &mut MarkdownRenderPlugin, snapshot: BufferSnapshot) -> (started: bool)
    ensures
        started == !old(plugin)@.store.sessions.contains_key(snapshot.bufnr),
        started ==> final(plugin)@.store == old(plugin)@.store.started(
            snapshot@,
            rendered(snapshot@.markdown, old(plugin)@.options),
        ) && final(plugin)@.gate == old(plugin)@.gate,
        !started ==> final(plugin)@.store == old(plugin)@.store.stopped(
            snapshot.bufnr,
            SessionEndReason::Stopped,
        ) && final(plugin)@.gate == old(plugin)@.gate.cleared(snapshot.bufnr),
        old(plugin)@.store.wf() ==> final(plugin)@.store.wf(),
        final(plugin)@.options == old(plugin)@.options,
{
    plugin.toggle_preview(snapshot)
}

/// The URL of the preview of a document that has one.
pub fn markdown_render_open(plugin: &MarkdownRenderPlugin, bufnr: i64, ip: &str, port: u16) -> (url: Option<
    String,
>)
    ensures
        text_of(url) == if plugin@.store.sessions.contains_key(bufnr) {
            Some(preview_url_of(ip@, port))
        } else {
            None
        },
{
    plugin.open_preview(bufnr, ip, port)
}

} // verus!
