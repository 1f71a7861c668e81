//! The preview as the editor drives it: gate, renderer and session store behind one set of entry points.

pub mod autocmd;
pub mod commands;

use crate::plugin::autocmd::{AutocmdGate, GateView};
use crate::protocol::SessionEndReason;
use crate::render::{rendered, MarkdownRenderer};
use crate::server::{preview_url, preview_url_of};
use crate::session::{closes_all, BufferSnapshot, SessionManager, SessionView, StoreView};
use crate::text::text_of;
use vstd::prelude::*;

verus! {

/// `std::io::Error`, carried as an opaque value.
#[verifier::external_type_specification]
#[verifier::external_body]
pub struct ExIoError(std::io::Error);

/// What can go wrong while a preview is started.
#[derive(Debug)]
pub enum PluginError {
    Io(std::io::Error),
}

impl From<std::io::Error> for PluginError {
    fn from(value: std::io::Error) -> (error: Self) {
        Self::Io(value)
    }
}

impl vstd::std_specs::convert::FromSpecImpl<std::io::Error> for PluginError {
    open spec fn obeys_from_spec() -> bool {
        true
    }

    open spec fn from_spec(value: std::io::Error) -> Self {
        PluginError::Io(value)
    }
}

/// `Display` of `std::io::Error`: the error in the words of its source.
#[verifier::external_body]
fn io_error_text(error: &std::io::Error) -> (text: String) {
    error.to_string()
}

impl PluginError {
    /// The error in words: what kind of error it is, then its own words.
    pub fn message(&self) -> (message: String)
        ensures
            exists|detail: Seq<char>| message@ == io_error_words(detail),
    {
        match self {
            Self::Io(error) => describe_io_error(io_error_text(error).as_str()),
        }
    }
}

/// An input or output error in words: `io error: `, then its own words.
pub open spec fn io_error_words(detail: Seq<char>) -> Seq<char> {
    "io error: "@ + detail
}

/// Puts an input or output error in words, given its own words.
pub fn describe_io_error(detail: &str) -> (message: String)
    ensures
        message@ == io_error_words(detail@),
{
    let mut message = "io error: ".to_owned();
    message.push_str(detail);
    message
}

/// The plugin as its values.
pub struct PluginView {
    pub options: u32,
    pub store: StoreView,
    pub gate: GateView,
}

/// One preview pipeline: events of the editor pass the event gate, are rendered
/// and reach the session store.
pub struct MarkdownRenderPlugin {
    renderer: MarkdownRenderer,
    sessions: SessionManager,
    autocmd: AutocmdGate,
}

impl View for MarkdownRenderPlugin {
    type V = PluginView;

    closed spec fn view(&self) -> PluginView {
        PluginView { options: self.renderer.options(), store: self.sessions@, gate: self.autocmd@ }
    }
}

impl MarkdownRenderPlugin {
    /// A plugin without previews, with the two windows of its gate in
    /// milliseconds.
    pub fn new(debounce_ms_content: u64, throttle_ms_cursor: u64) -> (plugin: Self)
        ensures
            plugin@.store == StoreView::empty(),
            plugin@.store.wf(),
            plugin@.gate == (GateView {
                content_window: debounce_ms_content,
                cursor_window: throttle_ms_cursor,
                windows: Map::empty(),
            }),
    {
        Self {
            renderer: MarkdownRenderer::default(),
            sessions: SessionManager::default(),
            autocmd: AutocmdGate::new(debounce_ms_content, throttle_ms_cursor),
        }
    }

    /// The session store of this plugin.
    pub fn sessions(&self) -> (sessions: &SessionManager)
        ensures
            sessions@ == self@.store,
    {
        &self.sessions
    }

    /// Tells whether a document has a preview.
    pub fn has_session(&self, bufnr: i64) -> (found: bool)
        ensures
            found == self@.store.sessions.contains_key(bufnr),
    {
        self.sessions.has_session(bufnr)
    }

    /// Starts the preview of a document.
    pub fn start_preview(&mut self, snapshot: BufferSnapshot)
        ensures
            final(self)@.store == old(self)@.store.started(
                snapshot@,
                rendered(snapshot@.markdown, old(self)@.options),
            ),
            old(self)@.store.wf() ==> final(self)@.store.wf(),
            final(self)@.gate == old(self)@.gate,
            final(self)@.options == old(self)@.options,
    {
        self.sessions.start_session(snapshot, &self.renderer);
    }

    /// Stops the preview of a document and has the event gate forget it.
    pub fn stop_preview(&mut self, bufnr: i64) -> (stopped: bool)
        ensures
            stopped == old(self)@.store.sessions.contains_key(bufnr),
            final(self)@.store == old(self)@.store.stopped(bufnr, SessionEndReason::Stopped),
            old(self)@.store.wf() ==> final(self)@.store.wf(),
            final(self)@.gate == old(self)@.gate.cleared(bufnr),
            final(self)@.options == old(self)@.options,
    {
        let stopped = self.sessions.stop_session(bufnr, SessionEndReason::Stopped);
        self.autocmd.clear_buffer(bufnr);
        stopped
    }

    /// Stops every preview.
    pub fn stop_all_previews(&mut self)
        ensures
            final(self)@.store.sessions == Map::<i64, SessionView>::empty(),
            final(self)@.store.active is None,
            final(self)@.store.published.take(old(self)@.store.published.len() as int)
                == old(self)@.store.published,
            closes_all(
                final(self)@.store.published.skip(old(self)@.store.published.len() as int),
                old(self)@.store.sessions.dom(),
                SessionEndReason::Stopped,
            ),
            old(self)@.store.wf() ==> final(self)@.store.wf(),
            final(self)@.gate == old(self)@.gate,
            final(self)@.options == old(self)@.options,
    {
        self.sessions.stop_all(SessionEndReason::Stopped);
    }

    /// Stops the preview of the snapshot's document if it has one, and
    /// starts one if it has none. Tells whether one was started.
    pub fn toggle_preview(&mut self, snapshot: BufferSnapshot) -> (started: bool)
        ensures
            started == !old(self)@.store.sessions.contains_key(snapshot.bufnr),
            started ==> final(self)@.store == old(self)@.store.started(
                snapshot@,
                rendered(snapshot@.markdown, old(self)@.options),
            ) && final(self)@.gate == old(self)@.gate,
            !started ==> final(self)@.store == old(self)@.store.stopped(
                snapshot.bufnr,
                SessionEndReason::Stopped,
            ) && final(self)@.gate == old(self)@.gate.cleared(snapshot.bufnr),
            old(self)@.store.wf() ==> final(self)@.store.wf(),
            final(self)@.options == old(self)@.options,
    {
        if self.sessions.has_session(snapshot.bufnr) {
            let _ = self.stop_preview(snapshot.bufnr);
            return false;
        }
        self.start_preview(snapshot);
        true
    }

    /// The URL of the preview on a server at `ip` and `port`, for a
    /// document that has a session.
    pub fn open_preview(&self, bufnr: i64, ip: &str, port: u16) -> (url: Option<String>)
        ensures
            text_of(url) == if self@.store.sessions.contains_key(bufnr) {
                Some(preview_url_of(ip@, port))
            } else {
                None
            },
    {
        if !self.sessions.has_session(bufnr) {
            return None;
        }
        Some(preview_url(ip, port))
    }

    /// Takes a change of a document's text at time `now`: where the event gate
    /// lets it through, the content is brought into the preview.
    pub fn on_text_changed(&mut self, snapshot: BufferSnapshot, now: u64)
        ensures
            final(self)@.gate == old(self)@.gate.after_content(snapshot.bufnr, now),
            final(self)@.store == if old(self)@.gate.allows_content(snapshot.bufnr, now) {
                old(self)@.store.updated(snapshot@, rendered(snapshot@.markdown, old(self)@.options))
            } else {
                old(self)@.store
            },
            old(self)@.store.wf() ==> final(self)@.store.wf(),
            final(self)@.options == old(self)@.options,
    {
        if self.autocmd.allow_content_emit(snapshot.bufnr, now) {
            let _ = self.sessions.update_content(snapshot, &self.renderer);
        }
    }

    /// Takes a cursor move at time `now`: where the event gate lets it through,
    /// the position is brought into the preview.
    pub fn on_cursor_moved(&mut self, bufnr: i64, line: usize, col: usize, now: u64)
        ensures
            final(self)@.gate == old(self)@.gate.after_cursor(bufnr, line, now),
            final(self)@.store == if old(self)@.gate.allows_cursor(bufnr, line, now) {
                old(self)@.store.with_cursor(bufnr, line, col)
            } else {
                old(self)@.store
            },
            old(self)@.store.wf() ==> final(self)@.store.wf(),
            final(self)@.options == old(self)@.options,
    {
        if self.autocmd.allow_cursor_emit(bufnr, line, now) {
            let _ = self.sessions.update_cursor(bufnr, line, col);
        }
    }

    /// Takes a document coming to the foreground of the editor.
    pub fn on_buf_enter(&mut self, bufnr: i64)
        ensures
            final(self)@.store == old(self)@.store.resumed(bufnr),
            old(self)@.store.wf() ==> final(self)@.store.wf(),
            final(self)@.gate == old(self)@.gate,
            final(self)@.options == old(self)@.options,
    {
        self.sessions.resume_session(bufnr);
    }

    /// Takes a document leaving the foreground of the editor.
    pub fn on_buf_leave(&mut self, bufnr: i64)
        ensures
            final(self)@.store == old(self)@.store.paused(bufnr),
            old(self)@.store.wf() ==> final(self)@.store.wf(),
            final(self)@.gate == old(self)@.gate,
            final(self)@.options == old(self)@.options,
    {
        self.sessions.pause_session(bufnr);
    }

    /// Takes the closing of a document: its preview ends for that reason
    /// and the event gate forgets it.
    pub fn on_buf_wipeout(&mut self, bufnr: i64)
        ensures
            final(self)@.store == old(self)@.store.stopped(bufnr, SessionEndReason::BufferClosed),
            old(self)@.store.wf() ==> final(self)@.store.wf(),
            final(self)@.gate == old(self)@.gate.cleared(bufnr),
            final(self)@.options == old(self)@.options,
    {
        let _ = self.sessions.stop_session(bufnr, SessionEndReason::BufferClosed);
        self.autocmd.clear_buffer(bufnr);
    }

    /// Ends every preview.
    pub fn shutdown(&mut self)
        ensures
            final(self)@.store.sessions == Map::<i64, SessionView>::empty(),
            final(self)@.store.active is None,
            final(self)@.store.published.take(old(self)@.store.published.len() as int)
                == old(self)@.store.published,
            closes_all(
                final(self)@.store.published.skip(old(self)@.store.published.len() as int),
                old(self)@.store.sessions.dom(),
                SessionEndReason::Stopped,
            ),
            old(self)@.store.wf() ==> final(self)@.store.wf(),
            final(self)@.gate == old(self)@.gate,
            final(self)@.options == old(self)@.options,
    {
        self.sessions.stop_all(SessionEndReason::Stopped);
    }

    /// Whether a server is still needed: some document has a preview.
    pub fn has_previews(&self) -> (some: bool)
        ensures
            some == (self@.store.sessions.dom().len() > 0),
    {
        self.sessions.session_count() > 0
    }
}

} // verus!
