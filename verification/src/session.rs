//! The session store: one live preview per document, its render state and its event hub.

use crate::protocol::{EventRecord, ServerEvent, SessionEndReason, SnapshotResponse};
use crate::render::{rendered, MarkdownRenderer};
use crate::text::{text_of, trimmed};
use std::collections::hash_map::DefaultHasher;
use std::collections::{HashMap, HashSet};
use std::hash::Hasher;
use std::path::Path;
use tokio::sync::broadcast::{channel, Receiver, Sender};
use vstd::prelude::*;
use vstd::std_specs::hash::DefaultHasherAdditionalSpecFns;
use vstd::std_specs::iter::IteratorSpec;
use vstd::utf8::encode_utf8;

verus! {

/// How many events a hub keeps for a subscriber that lags behind.
pub const EVENT_CHANNEL_CAPACITY: usize = 256;

/// Where a session stands in its life.
#[derive(Debug, Clone, Copy, PartialEq, Eq, Structural)]
pub enum LifecycleState {
    Idle,
    Running,
    Paused,
    Stopped,
}

/// The number of a viewer.
pub type ClientId = u64;

/// What the editor knows of a document at one moment.
#[derive(Debug, Clone)]
pub struct BufferSnapshot {
    pub bufnr: i64,
    pub changedtick: u64,
    pub markdown: String,
    pub cursor_line: usize,
    pub cursor_col: usize,
    pub source_path: Option<String>,
}

/// A snapshot with its strings as sequences of characters.
pub struct SnapshotView {
    pub bufnr: i64,
    pub changedtick: u64,
    pub markdown: Seq<char>,
    pub cursor_line: usize,
    pub cursor_col: usize,
    pub source_path: Option<Seq<char>>,
}

impl View for BufferSnapshot {
    type V = SnapshotView;

    open spec fn view(&self) -> SnapshotView {
        SnapshotView {
            bufnr: self.bufnr,
            changedtick: self.changedtick,
            markdown: self.markdown@,
            cursor_line: self.cursor_line,
            cursor_col: self.cursor_col,
            source_path: text_of(self.source_path),
        }
    }
}

/// `tokio::sync::broadcast::Sender`, carried as an opaque value.
#[verifier::external_type_specification]
#[verifier::external_body]
#[verifier::reject_recursive_types(T)]
pub struct ExSender<T>(Sender<T>);

/// `tokio::sync::broadcast::Receiver`, carried as an opaque value.
#[verifier::external_type_specification]
#[verifier::external_body]
#[verifier::reject_recursive_types(T)]
pub struct ExReceiver<T>(Receiver<T>);

/// `broadcast::channel(capacity)`, of which the sender is kept: a hub that
/// nobody has subscribed to yet. The call panics on a capacity of 0 or
/// above `usize::MAX / 2`.
#[verifier::external_body]
fn open_hub(capacity: usize) -> (hub: Sender<ServerEvent>)
    requires
        0 < capacity <= usize::MAX / 2,
{
    channel(capacity).0
}

/// `Sender::send`: queues the event for every receiver that is alive and
/// returns at once; with no receiver the event is dropped.
#[verifier::external_body]
fn hub_send(hub: &Sender<ServerEvent>, event: ServerEvent) {
    let _ = hub.send(event);
}

/// `Sender::subscribe`: a receiver of the events sent from now on.
#[verifier::external_body]
fn hub_subscribe(hub: &Sender<ServerEvent>) -> (stream: Receiver<ServerEvent>) {
    hub.subscribe()
}

/// The fingerprint of a text: the standard hasher fed with the text's
/// bytes and the end mark of a string.
pub open spec fn fingerprint(text: Seq<char>) -> u64 {
    DefaultHasher::spec_finish(seq![encode_utf8(text), seq![0xffu8]])
}

/// The fingerprint of a text.
pub fn content_hash(input: &str) -> (hash: u64)
    ensures
        hash == fingerprint(input@),
{
    let mut hasher = DefaultHasher::new();
    hasher.write(input.as_bytes());
    let end_mark: [u8; 1] = [0xffu8];
    hasher.write(end_mark.as_slice());
    proof {
        assert(end_mark@ =~= seq![0xffu8]);
        assert(hasher@ =~= seq![encode_utf8(input@), seq![0xffu8]]);
    }
    hasher.finish()
}

/// The source path that a snapshot names: trimmed, and absent where
/// nothing is left.
pub open spec fn source_path_of(path: Option<Seq<char>>) -> Option<Seq<char>> {
    match path {
        Some(raw) => if trimmed(raw).len() == 0 {
            None
        } else {
            Some(trimmed(raw))
        },
        None => None,
    }
}

/// The source path that a snapshot names, if it names one.
pub fn snapshot_source_path(path: Option<&str>) -> (source: Option<String>)
    ensures
        text_of(source) == source_path_of(
            match path {
                Some(raw) => Some(raw@),
                None => None,
            },
        ),
{
    match path {
        None => None,
        Some(raw) => {
            let trimmed = raw.trim();
            if trimmed.is_empty() {
                None
            } else {
                Some(trimmed.to_owned())
            }
        },
    }
}

/// A session as its values: strings as sequences of characters, the
/// subscribers as a set.
pub struct SessionView {
    pub bufnr: i64,
    pub changedtick: u64,
    pub content_hash: u64,
    pub cursor_line: usize,
    pub cursor_col: usize,
    pub subscribers: Set<ClientId>,
    pub html: Seq<char>,
    pub source_path: Option<Seq<char>>,
    pub state: LifecycleState,
}

/// The live preview of one document.
#[derive(Debug)]
pub struct Session {
    bufnr: i64,
    changedtick: u64,
    content_hash: u64,
    cursor_line: usize,
    cursor_col: usize,
    subscribers: HashSet<ClientId>,
    html: String,
    source_path: Option<String>,
    state: LifecycleState,
    broadcaster: Sender<ServerEvent>,
}

impl View for Session {
    type V = SessionView;

    closed spec fn view(&self) -> SessionView {
        SessionView {
            bufnr: self.bufnr,
            changedtick: self.changedtick,
            content_hash: self.content_hash,
            cursor_line: self.cursor_line,
            cursor_col: self.cursor_col,
            subscribers: self.subscribers@,
            html: self.html@,
            source_path: text_of(self.source_path),
            state: self.state,
        }
    }
}

impl SessionView {
    /// A session that has not been started: no content, the cursor at the
    /// top, nobody subscribed.
    pub open spec fn idle(bufnr: i64) -> SessionView {
        SessionView {
            bufnr,
            changedtick: 0,
            content_hash: 0,
            cursor_line: 1,
            cursor_col: 0,
            subscribers: Set::empty(),
            html: Seq::empty(),
            source_path: None,
            state: LifecycleState::Idle,
        }
    }

    /// The session after it has taken the content of a snapshot and its
    /// HTML.
    pub open spec fn with_content(self, snapshot: SnapshotView, html: Seq<char>) -> SessionView {
        SessionView {
            changedtick: snapshot.changedtick,
            content_hash: fingerprint(snapshot.markdown),
            cursor_line: snapshot.cursor_line,
            cursor_col: snapshot.cursor_col,
            html,
            source_path: source_path_of(snapshot.source_path),
            ..self
        }
    }

    /// Whether the session already holds the content of a snapshot: the
    /// same change sequence and the same fingerprint.
    pub open spec fn holds(self, snapshot: SnapshotView) -> bool {
        self.changedtick == snapshot.changedtick && self.content_hash == fingerprint(snapshot.markdown)
    }
}

impl Session {
    fn new(bufnr: i64) -> (session: Session)
        ensures
            session@ == SessionView::idle(bufnr),
    {
        Session {
            bufnr,
            changedtick: 0,
            content_hash: 0,
            cursor_line: 1,
            cursor_col: 0,
            subscribers: HashSet::new(),
            html: String::new(),
            source_path: None,
            state: LifecycleState::Idle,
            broadcaster: open_hub(EVENT_CHANNEL_CAPACITY),
        }
    }

    /// Takes the content of a snapshot and its HTML.
    fn take_content(&mut self, snapshot: &BufferSnapshot, html: String, hash: u64)
        requires
            hash == fingerprint(snapshot@.markdown),
        ensures
            final(self)@ == old(self)@.with_content(snapshot@, html@),
    {
        self.changedtick = snapshot.changedtick;
        self.content_hash = hash;
        self.cursor_line = snapshot.cursor_line;
        self.cursor_col = snapshot.cursor_col;
        self.html = html;
        self.source_path = match &snapshot.source_path {
            Some(path) => snapshot_source_path(Some(path.as_str())),
            None => None,
        };
    }

    /// Hands an event to the hub and records it in `log`.
    fn publish(&self, event: ServerEvent, log: &mut Ghost<Seq<EventRecord>>)
        ensures
            final(log)@ == old(log)@.push(event@),
    {
        proof {
            *log = Ghost(log@.push(event@));
        }
        hub_send(&self.broadcaster, event);
    }
}

/// The store as its values: the sessions by document, the document in the
/// foreground, and every event handed to a hub so far, in order.
pub struct StoreView {
    pub sessions: Map<i64, SessionView>,
    pub active: Option<i64>,
    pub published: Seq<EventRecord>,
}

/// The event that carries the HTML of a snapshot.
pub open spec fn render_full(snapshot: SnapshotView, html: Seq<char>) -> EventRecord {
    EventRecord::RenderFull { bufnr: snapshot.bufnr, html, cursor_line: snapshot.cursor_line }
}

impl StoreView {
    /// The store that holds nothing and has published nothing.
    pub open spec fn empty() -> StoreView {
        StoreView { sessions: Map::empty(), active: None, published: Seq::empty() }
    }

    /// Every session is filed under its own document and is running or
    /// paused.
    pub open spec fn wf(self) -> bool {
        forall|bufnr: i64| #[trigger]
            self.sessions.contains_key(bufnr) ==> self.sessions[bufnr].bufnr == bufnr && (
            self.sessions[bufnr].state == LifecycleState::Running || self.sessions[bufnr].state
                == LifecycleState::Paused)
    }

    /// The session of a document, or an idle one where it has none.
    pub open spec fn session_or_idle(self, bufnr: i64) -> SessionView {
        if self.sessions.contains_key(bufnr) {
            self.sessions[bufnr]
        } else {
            SessionView::idle(bufnr)
        }
    }

    /// The store after a preview was started: the document's session, kept
    /// or made, runs with the snapshot's content; the HTML is published;
    /// the document is in the foreground.
    pub open spec fn started(self, snapshot: SnapshotView, html: Seq<char>) -> StoreView {
        StoreView {
            sessions: self.sessions.insert(
                snapshot.bufnr,
                SessionView {
                    state: LifecycleState::Running,
                    ..self.session_or_idle(snapshot.bufnr).with_content(snapshot, html)
                },
            ),
            active: Some(snapshot.bufnr),
            published: self.published.push(render_full(snapshot, html)),
        }
    }

    /// Whether a snapshot brings nothing new: its document has a session
    /// that holds its content already.
    pub open spec fn is_current(self, snapshot: SnapshotView) -> bool {
        self.sessions.contains_key(snapshot.bufnr) && self.sessions[snapshot.bufnr].holds(snapshot)
    }

    /// Whether a content update takes effect: the document has a session
    /// and the snapshot brings something new.
    pub open spec fn accepts(self, snapshot: SnapshotView) -> bool {
        self.sessions.contains_key(snapshot.bufnr) && !self.sessions[snapshot.bufnr].holds(snapshot)
    }

    /// The store after the session of the snapshot's document has taken
    /// its content and the HTML was published.
    pub open spec fn with_content(self, snapshot: SnapshotView, html: Seq<char>) -> StoreView {
        StoreView {
            sessions: self.sessions.insert(
                snapshot.bufnr,
                self.sessions[snapshot.bufnr].with_content(snapshot, html),
            ),
            active: self.active,
            published: self.published.push(render_full(snapshot, html)),
        }
    }

    /// The store after a content update: unchanged unless the update takes
    /// effect.
    pub open spec fn updated(self, snapshot: SnapshotView, html: Seq<char>) -> StoreView {
        if self.accepts(snapshot) {
            self.with_content(snapshot, html)
        } else {
            self
        }
    }

    /// The store after a forced render: the content is taken and published
    /// whenever the document has a session.
    pub open spec fn rerendered(self, snapshot: SnapshotView, html: Seq<char>) -> StoreView {
        if self.sessions.contains_key(snapshot.bufnr) {
            self.with_content(snapshot, html)
        } else {
            self
        }
    }

    /// Whether a cursor update takes effect: the document has a session
    /// whose cursor stands elsewhere.
    pub open spec fn cursor_moves(self, bufnr: i64, line: usize, col: usize) -> bool {
        self.sessions.contains_key(bufnr) && !(self.sessions[bufnr].cursor_line == line
            && self.sessions[bufnr].cursor_col == col)
    }

    /// The store after a cursor update: where it takes effect the position
    /// is recorded and published.
    pub open spec fn with_cursor(self, bufnr: i64, line: usize, col: usize) -> StoreView {
        if self.cursor_moves(bufnr, line, col) {
            StoreView {
                sessions: self.sessions.insert(
                    bufnr,
                    SessionView { cursor_line: line, cursor_col: col, ..self.sessions[bufnr] },
                ),
                active: self.active,
                published: self.published.push(EventRecord::CursorMove { bufnr, line, col }),
            }
        } else {
            self
        }
    }

    /// The store after a session, if there is one, has been given a state.
    pub open spec fn with_state(self, bufnr: i64, state: LifecycleState) -> StoreView {
        if self.sessions.contains_key(bufnr) {
            StoreView {
                sessions: self.sessions.insert(bufnr, SessionView { state, ..self.sessions[bufnr] }),
                ..self
            }
        } else {
            self
        }
    }

    /// The store after a document left the foreground of the editor.
    pub open spec fn paused(self, bufnr: i64) -> StoreView {
        self.with_state(bufnr, LifecycleState::Paused)
    }

    /// The store after a document came to the foreground of the editor.
    pub open spec fn resumed(self, bufnr: i64) -> StoreView {
        StoreView { active: Some(bufnr), ..self.with_state(bufnr, LifecycleState::Running) }
    }

    /// The store after a preview was stopped: the session is gone, its end
    /// is the last event published, and the document is no longer in the
    /// foreground.
    pub open spec fn stopped(self, bufnr: i64, reason: SessionEndReason) -> StoreView {
        if self.sessions.contains_key(bufnr) {
            StoreView {
                sessions: self.sessions.remove(bufnr),
                active: if self.active == Some(bufnr) {
                    None
                } else {
                    self.active
                },
                published: self.published.push(EventRecord::SessionEnd { bufnr, reason }),
            }
        } else {
            self
        }
    }

    /// The store after a viewer subscribed to a document.
    pub open spec fn subscribed(self, bufnr: i64, client: ClientId) -> StoreView {
        if self.sessions.contains_key(bufnr) {
            StoreView {
                sessions: self.sessions.insert(
                    bufnr,
                    SessionView {
                        subscribers: self.sessions[bufnr].subscribers.insert(client),
                        ..self.sessions[bufnr]
                    },
                ),
                ..self
            }
        } else {
            self
        }
    }

    /// The store after a viewer left a document.
    pub open spec fn unsubscribed(self, bufnr: i64, client: ClientId) -> StoreView {
        if self.sessions.contains_key(bufnr) {
            StoreView {
                sessions: self.sessions.insert(
                    bufnr,
                    SessionView {
                        subscribers: self.sessions[bufnr].subscribers.remove(client),
                        ..self.sessions[bufnr]
                    },
                ),
                ..self
            }
        } else {
            self
        }
    }
}

/// The registry of live previews.
pub struct SessionManager {
    sessions: HashMap<i64, Session>,
    active_bufnr: Option<i64>,
    published: Ghost<Seq<EventRecord>>,
}

impl View for SessionManager {
    type V = StoreView;

    closed spec fn view(&self) -> StoreView {
        StoreView {
            sessions: Map::new(
                |bufnr: i64| self.sessions@.contains_key(bufnr),
                |bufnr: i64| self.sessions@[bufnr]@,
            ),
            active: self.active_bufnr,
            published: self.published@,
        }
    }
}

impl Default for SessionManager {
    fn default() -> (store: Self)
        ensures
            store@ == StoreView::empty(),
            store@.wf(),
    {
        let store = Self { sessions: HashMap::new(), active_bufnr: None, published: Ghost(Seq::empty()) };
        proof {
            assert(store@.sessions =~= Map::empty());
        }
        store
    }
}

impl SessionManager {
    /// Starts the preview of a document with HTML that was rendered from
    /// the snapshot's text.
    pub fn start_rendered(&mut self, snapshot: BufferSnapshot, rendered_html: String)
        ensures
            final(self)@ == old(self)@.started(snapshot@, rendered_html@),
            old(self)@.wf() ==> final(self)@.wf(),
    {
        broadcast use vstd::std_specs::hash::group_hash_axioms;

        let ghost before = self@;
        let content_hash = content_hash(snapshot.markdown.as_str());
        let bufnr = snapshot.bufnr;
        let mut session = match self.sessions.remove(&bufnr) {
            Some(session) => session,
            None => Session::new(bufnr),
        };
        assert(session@.bufnr == before.session_or_idle(bufnr).bufnr || before.sessions.contains_key(bufnr));
        session.state = LifecycleState::Running;
        session.take_content(&snapshot, rendered_html.clone(), content_hash);
        session.publish(
            ServerEvent::RenderFull { bufnr, html: rendered_html, cursor_line: snapshot.cursor_line },
            &mut self.published,
        );
        self.sessions.insert(bufnr, session);
        self.active_bufnr = Some(bufnr);
        proof {
            assert(self@.sessions =~= before.started(snapshot@, rendered_html@).sessions);
        }
    }

    /// Starts the preview of a document: renders the snapshot, keeps or
    /// makes the document's session, publishes the HTML and brings the
    /// document to the foreground.
    pub fn start_session(&mut self, snapshot: BufferSnapshot, renderer: &MarkdownRenderer)
        ensures
            final(self)@ == old(self)@.started(snapshot@, rendered(snapshot@.markdown, renderer.options())),
            old(self)@.wf() ==> final(self)@.wf(),
    {
        let rendered_html = renderer.render(snapshot.markdown.as_str());
        self.start_rendered(snapshot, rendered_html);
    }

    /// Stops the preview of a document. Its end is published before the
    /// session is dropped.
    pub fn stop_session(&mut self, bufnr: i64, reason: SessionEndReason) -> (stopped: bool)
        ensures
            stopped == old(self)@.sessions.contains_key(bufnr),
            final(self)@ == old(self)@.stopped(bufnr, reason),
            old(self)@.wf() ==> final(self)@.wf(),
    {
        broadcast use vstd::std_specs::hash::group_hash_axioms;

        let ghost before = self@;
        let removed = self.sessions.remove(&bufnr);
        match removed {
            None => {
                proof {
                    assert(self@.sessions =~= before.sessions);
                }
                false
            },
            Some(mut session) => {
                session.state = LifecycleState::Stopped;
                session.publish(ServerEvent::SessionEnd { bufnr, reason }, &mut self.published);
                if let Some(active) = self.active_bufnr {
                    if active == bufnr {
                        self.active_bufnr = None;
                    }
                }
                proof {
                    assert(self@.sessions =~= before.sessions.remove(bufnr));
                }
                true
            },
        }
    }

    /// Records that a document left the foreground of the editor.
    pub fn pause_session(&mut self, bufnr: i64)
        ensures
            final(self)@ == old(self)@.paused(bufnr),
            old(self)@.wf() ==> final(self)@.wf(),
    {
        self.set_state(bufnr, LifecycleState::Paused);
    }

    /// Records that a document came to the foreground of the editor.
    pub fn resume_session(&mut self, bufnr: i64)
        ensures
            final(self)@ == old(self)@.resumed(bufnr),
            old(self)@.wf() ==> final(self)@.wf(),
    {
        self.set_state(bufnr, LifecycleState::Running);
        self.active_bufnr = Some(bufnr);
    }

    fn set_state(&mut self, bufnr: i64, state: LifecycleState)
        requires
            state == LifecycleState::Running || state == LifecycleState::Paused,
        ensures
            final(self)@ == old(self)@.with_state(bufnr, state),
            old(self)@.wf() ==> final(self)@.wf(),
    {
        broadcast use vstd::std_specs::hash::group_hash_axioms;

        let ghost before = self@;
        match self.sessions.remove(&bufnr) {
            Some(mut session) => {
                session.state = state;
                self.sessions.insert(bufnr, session);
                proof {
                    assert(self@.sessions =~= before.with_state(bufnr, state).sessions);
                }
            },
            None => {
                proof {
                    assert(self@.sessions =~= before.sessions);
                }
            },
        }
    }

    /// Tells whether a snapshot brings nothing new to the session of its
    /// document. A cheap test to make before rendering.
    pub fn is_current(&self, snapshot: &BufferSnapshot) -> (current: bool)
        ensures
            current == self@.is_current(snapshot@),
    {
        self.holds(snapshot, content_hash(snapshot.markdown.as_str()))
    }

    fn holds(&self, snapshot: &BufferSnapshot, content_hash: u64) -> (current: bool)
        requires
            content_hash == fingerprint(snapshot@.markdown),
        ensures
            current == self@.is_current(snapshot@),
    {
        broadcast use vstd::std_specs::hash::group_hash_axioms;

        match self.sessions.get(&snapshot.bufnr) {
            Some(session) => session.changedtick == snapshot.changedtick && session.content_hash
                == content_hash,
            None => false,
        }
    }

    /// Takes the content of a snapshot and its HTML into the session of
    /// the document, unless the session holds that content already, and
    /// publishes the HTML.
    pub fn apply_content(&mut self, snapshot: BufferSnapshot, rendered_html: String) -> (changed: bool)
        ensures
            changed == old(self)@.accepts(snapshot@),
            final(self)@ == old(self)@.updated(snapshot@, rendered_html@),
            old(self)@.wf() ==> final(self)@.wf(),
    {
        let new_hash = content_hash(snapshot.markdown.as_str());
        if !self.has_session(snapshot.bufnr) || self.holds(&snapshot, new_hash) {
            return false;
        }
        self.put_content(snapshot, rendered_html, new_hash);
        true
    }

    fn put_content(&mut self, snapshot: BufferSnapshot, rendered_html: String, content_hash: u64)
        requires
            old(self)@.sessions.contains_key(snapshot.bufnr),
            content_hash == fingerprint(snapshot@.markdown),
        ensures
            final(self)@ == old(self)@.with_content(snapshot@, rendered_html@),
            old(self)@.wf() ==> final(self)@.wf(),
    {
        broadcast use vstd::std_specs::hash::group_hash_axioms;

        let ghost before = self@;
        let bufnr = snapshot.bufnr;
        if let Some(mut session) = self.sessions.remove(&bufnr) {
            session.take_content(&snapshot, rendered_html.clone(), content_hash);
            session.publish(
                ServerEvent::RenderFull { bufnr, html: rendered_html, cursor_line: snapshot.cursor_line },
                &mut self.published,
            );
            self.sessions.insert(bufnr, session);
            proof {
                assert(self@.sessions =~= before.with_content(snapshot@, rendered_html@).sessions);
            }
        }
    }

    /// Brings new content into the preview of a document. Nothing happens,
    /// and nothing is rendered, where the document has no session or the
    /// session holds the snapshot's content already.
    pub fn update_content(&mut self, snapshot: BufferSnapshot, renderer: &MarkdownRenderer) -> (changed:
        bool)
        ensures
            changed == old(self)@.accepts(snapshot@),
            final(self)@ == old(self)@.updated(
                snapshot@,
                rendered(snapshot@.markdown, renderer.options()),
            ),
            old(self)@.wf() ==> final(self)@.wf(),
    {
        let new_hash = content_hash(snapshot.markdown.as_str());
        if !self.has_session(snapshot.bufnr) || self.holds(&snapshot, new_hash) {
            return false;
        }
        let rendered_html = renderer.render(snapshot.markdown.as_str());
        self.apply_content(snapshot, rendered_html)
    }

    /// Takes the content of a snapshot and its HTML into the session of
    /// the document and publishes the HTML, whether or not anything
    /// changed.
    pub fn apply_rerender(&mut self, snapshot: BufferSnapshot, rendered_html: String) -> (found: bool)
        ensures
            found == old(self)@.sessions.contains_key(snapshot.bufnr),
            final(self)@ == old(self)@.rerendered(snapshot@, rendered_html@),
            old(self)@.wf() ==> final(self)@.wf(),
    {
        let new_hash = content_hash(snapshot.markdown.as_str());
        if !self.has_session(snapshot.bufnr) {
            return false;
        }
        self.put_content(snapshot, rendered_html, new_hash);
        true
    }

    /// Renders and publishes the content of a snapshot whenever its
    /// document has a session.
    pub fn rerender_content(&mut self, snapshot: BufferSnapshot, renderer: &MarkdownRenderer) -> (found:
        bool)
        ensures
            found == old(self)@.sessions.contains_key(snapshot.bufnr),
            final(self)@ == old(self)@.rerendered(
                snapshot@,
                rendered(snapshot@.markdown, renderer.options()),
            ),
            old(self)@.wf() ==> final(self)@.wf(),
    {
        let rendered_html = renderer.render(snapshot.markdown.as_str());
        self.apply_rerender(snapshot, rendered_html)
    }

    /// Records a cursor position and publishes it, unless it is the one
    /// recorded already.
    pub fn update_cursor(&mut self, bufnr: i64, line: usize, col: usize) -> (moved: bool)
        ensures
            moved == old(self)@.cursor_moves(bufnr, line, col),
            final(self)@ == old(self)@.with_cursor(bufnr, line, col),
            old(self)@.wf() ==> final(self)@.wf(),
    {
        broadcast use vstd::std_specs::hash::group_hash_axioms;

        let ghost before = self@;
        match self.sessions.remove(&bufnr) {
            None => {
                proof {
                    assert(self@.sessions =~= before.sessions);
                }
                false
            },
            Some(mut session) => {
                let moved = !(session.cursor_line == line && session.cursor_col == col);
                if moved {
                    session.cursor_line = line;
                    session.cursor_col = col;
                    session.publish(ServerEvent::CursorMove { bufnr, line, col }, &mut self.published);
                }
                self.sessions.insert(bufnr, session);
                proof {
                    assert(self@.sessions =~= before.with_cursor(bufnr, line, col).sessions);
                }
                moved
            },
        }
    }

    /// Tells whether a document has a session.
    pub fn has_session(&self, bufnr: i64) -> (found: bool)
        ensures
            found == self@.sessions.contains_key(bufnr),
    {
        broadcast use vstd::std_specs::hash::group_hash_axioms;

        self.sessions.contains_key(&bufnr)
    }

    /// The number of sessions.
    pub fn session_count(&self) -> (count: usize)
        ensures
            count == self@.sessions.dom().len(),
    {
        broadcast use vstd::std_specs::hash::group_hash_axioms;

        proof {
            assert(self@.sessions.dom() =~= self.sessions@.dom());
        }
        self.sessions.len()
    }

    /// The document in the foreground, if there is one.
    pub fn active_bufnr(&self) -> (active: Option<i64>)
        ensures
            active == self@.active,
    {
        self.active_bufnr
    }

    /// Subscribes a viewer to the events of a document.
    pub fn subscribe(&mut self, bufnr: i64, client_id: ClientId) -> (stream: Option<Receiver<ServerEvent>>)
        ensures
            stream is Some == old(self)@.sessions.contains_key(bufnr),
            final(self)@ == old(self)@.subscribed(bufnr, client_id),
            old(self)@.wf() ==> final(self)@.wf(),
    {
        broadcast use vstd::std_specs::hash::group_hash_axioms;

        let ghost before = self@;
        match self.sessions.remove(&bufnr) {
            None => {
                proof {
                    assert(self@.sessions =~= before.sessions);
                }
                None
            },
            Some(mut session) => {
                session.subscribers.insert(client_id);
                let stream = hub_subscribe(&session.broadcaster);
                self.sessions.insert(bufnr, session);
                proof {
                    assert(self@.sessions =~= before.subscribed(bufnr, client_id).sessions);
                }
                Some(stream)
            },
        }
    }

    /// Takes a viewer off the subscribers of a document.
    pub fn unsubscribe(&mut self, bufnr: i64, client_id: ClientId)
        ensures
            final(self)@ == old(self)@.unsubscribed(bufnr, client_id),
            old(self)@.wf() ==> final(self)@.wf(),
    {
        broadcast use vstd::std_specs::hash::group_hash_axioms;

        let ghost before = self@;
        match self.sessions.remove(&bufnr) {
            None => {
                proof {
                    assert(self@.sessions =~= before.sessions);
                }
            },
            Some(mut session) => {
                session.subscribers.remove(&client_id);
                self.sessions.insert(bufnr, session);
                proof {
                    assert(self@.sessions =~= before.unsubscribed(bufnr, client_id).sessions);
                }
            },
        }
    }
}

/// Whether `ends` close every document of `documents` once, in some
/// order, each with the given reason.
pub open spec fn closes_all(ends: Seq<EventRecord>, documents: Set<i64>, reason: SessionEndReason) -> bool {
    &&& ends.len() == documents.len()
    &&& forall|i: int|
        0 <= i < ends.len() ==> (#[trigger] ends[i] matches EventRecord::SessionEnd { bufnr, reason: given }
            && documents.contains(bufnr) && given == reason)
    &&& forall|i: int, j: int| 0 <= i < j < ends.len() ==> ends[i] != ends[j]
}

impl SessionManager {
    /// The documents that have a session, in no particular order.
    fn documents(&self) -> (keys: Vec<i64>)
        ensures
            keys@.no_duplicates(),
            keys@.to_set() == self@.sessions.dom(),
            self@.sessions.dom().finite(),
            keys@.len() == self@.sessions.dom().len(),
    {
        broadcast use vstd::std_specs::hash::group_hash_axioms;

        let mut keys: Vec<i64> = Vec::new();
        let iter = self.sessions.keys();
        let ghost all = iter.remaining().unref();
        for bufnr in it: iter
            invariant
                it.seq().unref() == all,
                keys@ == all.take(it.index() as int),
        {
            keys.push(*bufnr);
            proof {
                assert(all.take(it.index() + 1) =~= all.take(it.index() as int).push(*bufnr));
            }
        }
        proof {
            assert(all.take(all.len() as int) == all);
            assert(self@.sessions.dom() =~= self.sessions@.dom());
            all.unique_seq_to_set();
        }
        keys
    }

    /// Stops every preview. The end of each session is published before
    /// the session is dropped.
    pub fn stop_all(&mut self, reason: SessionEndReason)
        ensures
            final(self)@.sessions == Map::<i64, SessionView>::empty(),
            final(self)@.active is None,
            final(self)@.published.len() == old(self)@.published.len() + old(self)@.sessions.dom().len(),
            final(self)@.published.take(old(self)@.published.len() as int) == old(self)@.published,
            closes_all(
                final(self)@.published.skip(old(self)@.published.len() as int),
                old(self)@.sessions.dom(),
                reason,
            ),
            old(self)@.wf() ==> final(self)@.wf(),
    {
        broadcast use vstd::std_specs::hash::group_hash_axioms;

        let ghost before = self@;
        let keys = self.documents();
        proof {
            assert(keys@.skip(0) =~= keys@);
        }
        let mut i: usize = 0;
        while i < keys.len()
            invariant
                i <= keys.len(),
                keys@.no_duplicates(),
                keys@.to_set() == before.sessions.dom(),
                keys@.len() == before.sessions.dom().len(),
                self@.active == before.active,
                self@.sessions.dom() =~= keys@.skip(i as int).to_set(),
                self@.published.len() == before.published.len() + i,
                self@.published.take(before.published.len() as int) == before.published,
                forall|j: int|
                    0 <= j < i ==> #[trigger] self@.published[before.published.len() + j] == (
                    EventRecord::SessionEnd { bufnr: keys@[j], reason }),
            decreases keys.len() - i,
        {
            let bufnr = keys[i];
            let ghost published = self@.published;
            proof {
                assert(keys@.skip(i as int)[0] == bufnr);
                assert(keys@.skip(i as int).to_set().contains(bufnr));
            }
            if let Some(mut session) = self.sessions.remove(&bufnr) {
                session.state = LifecycleState::Stopped;
                session.publish(ServerEvent::SessionEnd { bufnr, reason }, &mut self.published);
            }
            proof {
                assert(self@.published == published.push(EventRecord::SessionEnd { bufnr, reason }));
                assert(self@.published.take(before.published.len() as int) =~= before.published);
                let tail = keys@.skip(i as int);
                let rest = keys@.skip(i as int + 1);
                assert forall|k: i64| self@.sessions.dom().contains(k) <==> rest.to_set().contains(
                    k,
                ) by {
                    if rest.to_set().contains(k) {
                        let j = choose|j: int| 0 <= j < rest.len() && rest[j] == k;
                        assert(keys@[i as int + 1 + j] == k);
                        assert(tail[j + 1] == k);
                        assert(k != bufnr);
                    }
                    if tail.to_set().contains(k) && k != bufnr {
                        let j = choose|j: int| 0 <= j < tail.len() && tail[j] == k;
                        assert(j > 0);
                        assert(rest[j - 1] == k);
                    }
                }
            }
            i += 1;
        }
        self.active_bufnr = None;
        proof {
            assert(keys@.skip(keys@.len() as int).to_set() =~= Set::<i64>::empty());
            assert(self@.sessions =~= Map::<i64, SessionView>::empty());
            let ends = self@.published.skip(before.published.len() as int);
            assert forall|j: int| 0 <= j < ends.len() implies (
            #[trigger] ends[j] matches EventRecord::SessionEnd { bufnr, reason: given }
                && before.sessions.dom().contains(bufnr) && given == reason) by {
                assert(keys@.to_set().contains(keys@[j]));
                assert(ends[j] == self@.published[before.published.len() + j]);
            }
            assert forall|a: int, b: int| 0 <= a < b < ends.len() implies ends[a] != ends[b] by {
                assert(ends[a] == self@.published[before.published.len() + a]);
                assert(ends[b] == self@.published[before.published.len() + b]);
                assert(keys@[a] != keys@[b]);
            }
        }
    }

    /// The source path of a document's session, if it has one.
    pub fn source_path(&self, bufnr: i64) -> (path: Option<String>)
        ensures
            text_of(path) == if self@.sessions.contains_key(bufnr) {
                self@.sessions[bufnr].source_path
            } else {
                None
            },
    {
        broadcast use vstd::std_specs::hash::group_hash_axioms;

        match self.sessions.get(&bufnr) {
            Some(session) => session.source_path.clone(),
            None => None,
        }
    }
}

/// `Path::file_name` of a path, decoded with `to_string_lossy`: the last
/// component of the path, if it has one that names a file or directory.
/// What counts as a separator depends on the platform.
#[verifier::external_body]
fn path_file_name(path: &str) -> (name: Option<String>) {
    match Path::new(path).file_name() {
        Some(name) => Some(name.to_string_lossy().into_owned()),
        None => None,
    }
}

/// The name that viewers see for a document: its file name, or `buffer`
/// where it has none.
pub open spec fn label_of(file_name: Option<Seq<char>>) -> Seq<char> {
    match file_name {
        Some(name) => name,
        None => "buffer"@,
    }
}

/// The name that viewers see for a document with the given file name.
pub fn display_name(file_name: Option<String>) -> (label: String)
    ensures
        label@ == label_of(text_of(file_name)),
{
    match file_name {
        Some(name) => name,
        None => "buffer".to_owned(),
    }
}

impl SessionManager {
    /// The current state of a document's preview for a viewer that polls.
    /// The file name shown is the last component of the source path as the
    /// platform reads it, and `buffer` for a document without a path.
    pub fn snapshot(&self, bufnr: i64) -> (response: Option<SnapshotResponse>)
        ensures
            response is Some == (self@.sessions.contains_key(bufnr) && self@.sessions[bufnr].state
                != LifecycleState::Stopped),
            self@.wf() ==> response is Some == self@.sessions.contains_key(bufnr),
            response matches Some(found) ==> {
                &&& found.bufnr == self@.sessions[bufnr].bufnr
                &&& found.html@ == self@.sessions[bufnr].html
                &&& found.cursor_line == self@.sessions[bufnr].cursor_line
                &&& found.cursor_col == self@.sessions[bufnr].cursor_col
                &&& self@.sessions[bufnr].source_path is None ==> found.filename@ == "buffer"@
            },
    {
        broadcast use vstd::std_specs::hash::group_hash_axioms;

        match self.sessions.get(&bufnr) {
            None => None,
            Some(session) => {
                if session.state == LifecycleState::Stopped {
                    return None;
                }
                let file_name = match &session.source_path {
                    Some(path) => path_file_name(path.as_str()),
                    None => None,
                };
                Some(
                    SnapshotResponse {
                        bufnr: session.bufnr,
                        html: session.html.clone(),
                        cursor_line: session.cursor_line,
                        cursor_col: session.cursor_col,
                        filename: display_name(file_name),
                    },
                )
            },
        }
    }
}

/// A snapshot that repeats the change sequence and the text of the one a
/// preview was started with takes no effect: the update is refused and
/// nothing is published.
pub proof fn lemma_repeated_snapshot_is_ignored(
    store: StoreView,
    first: SnapshotView,
    first_html: Seq<char>,
    again: SnapshotView,
    again_html: Seq<char>,
)
    requires
        again.bufnr == first.bufnr,
        again.changedtick == first.changedtick,
        again.markdown == first.markdown,
    ensures
        !store.started(first, first_html).accepts(again),
        store.started(first, first_html).updated(again, again_html) == store.started(first, first_html),
{
}

/// Stopping the preview of a document that has a session publishes one
/// event more, the end of that session with the given reason, and leaves
/// the document without a session and out of the foreground.
pub proof fn lemma_stop_publishes_one_end(store: StoreView, bufnr: i64, reason: SessionEndReason)
    requires
        store.sessions.contains_key(bufnr),
    ensures
        store.stopped(bufnr, reason).published == store.published.push(
            EventRecord::SessionEnd { bufnr, reason },
        ),
        !store.stopped(bufnr, reason).sessions.contains_key(bufnr),
        store.stopped(bufnr, reason).active != Some(bufnr),
        forall|other: i64|
            other != bufnr ==> store.stopped(bufnr, reason).sessions.contains_key(other)
                == store.sessions.contains_key(other),
{
}

/// Operations on one document leave the sessions of the others as they
/// are.
pub proof fn lemma_documents_are_independent(
    store: StoreView,
    snapshot: SnapshotView,
    html: Seq<char>,
    other: i64,
)
    requires
        other != snapshot.bufnr,
    ensures
        store.updated(snapshot, html).sessions.contains_key(other) == store.sessions.contains_key(other),
        store.sessions.contains_key(other) ==> store.updated(snapshot, html).sessions[other]
            == store.sessions[other],
{
}

} // verus!
