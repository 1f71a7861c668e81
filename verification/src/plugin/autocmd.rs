//! The event gate that decides which editor events are worth a render or a broadcast.

use std::collections::HashMap;
use vstd::prelude::*;

verus! {

/// What the event gate remembers of one document: when content was last let
/// through, and when and on which line the cursor was.
#[derive(Debug, Clone, Copy)]
pub struct GateWindowState {
    pub last_content_emit: Option<u64>,
    pub last_cursor_emit: Option<(u64, usize)>,
}

/// The time that has passed from `earlier` to `now`, both in milliseconds
/// on one monotonic clock; none where `now` is not later.
pub open spec fn elapsed(now: u64, earlier: u64) -> nat {
    if now >= earlier {
        (now - earlier) as nat
    } else {
        0
    }
}

/// The event gate as its values: the two windows in milliseconds and what is
/// remembered of each document.
pub struct GateView {
    pub content_window: u64,
    pub cursor_window: u64,
    pub windows: Map<i64, GateWindowState>,
}

impl GateView {
    /// What is remembered of a document; nothing for one never seen.
    pub open spec fn window_of(self, bufnr: i64) -> GateWindowState {
        if self.windows.contains_key(bufnr) {
            self.windows[bufnr]
        } else {
            GateWindowState { last_content_emit: None, last_cursor_emit: None }
        }
    }

    /// Whether content of a document is let through at `now`: it never
    /// was before, or the content window has passed since it last was.
    pub open spec fn allows_content(self, bufnr: i64, now: u64) -> bool {
        match self.window_of(bufnr).last_content_emit {
            Some(last) => elapsed(now, last) >= self.content_window,
            None => true,
        }
    }

    /// The event gate after content of a document was offered at `now`: where it
    /// is let through, the window starts anew.
    pub open spec fn after_content(self, bufnr: i64, now: u64) -> GateView {
        if self.allows_content(bufnr, now) {
            GateView {
                windows: self.windows.insert(
                    bufnr,
                    GateWindowState { last_content_emit: Some(now), ..self.window_of(bufnr) },
                ),
                ..self
            }
        } else {
            self
        }
    }

    /// Whether a cursor move of a document to `line` is let through at
    /// `now`: the cursor was never let through before, or it was on
    /// another line and the cursor window has passed since.
    pub open spec fn allows_cursor(self, bufnr: i64, line: usize, now: u64) -> bool {
        match self.window_of(bufnr).last_cursor_emit {
            Some((last, last_line)) => last_line != line && elapsed(now, last) >= self.cursor_window,
            None => true,
        }
    }

    /// The event gate after a cursor move was offered: where it is let through,
    /// its time and line are remembered.
    pub open spec fn after_cursor(self, bufnr: i64, line: usize, now: u64) -> GateView {
        if self.allows_cursor(bufnr, line, now) {
            GateView {
                windows: self.windows.insert(
                    bufnr,
                    GateWindowState { last_cursor_emit: Some((now, line)), ..self.window_of(bufnr) },
                ),
                ..self
            }
        } else {
            self
        }
    }

    /// The event gate after a document was forgotten.
    pub open spec fn cleared(self, bufnr: i64) -> GateView {
        GateView { windows: self.windows.remove(bufnr), ..self }
    }
}

/// Debounces content and throttles cursor moves, document by document.
/// Times are milliseconds on a monotonic clock of the caller's choice.
#[derive(Debug, Clone)]
pub struct AutocmdGate {
    content_window: u64,
    cursor_window: u64,
    state: HashMap<i64, GateWindowState>,
}

impl View for AutocmdGate {
    type V = GateView;

    closed spec fn view(&self) -> GateView {
        GateView {
            content_window: self.content_window,
            cursor_window: self.cursor_window,
            windows: self.state@,
        }
    }
}

impl AutocmdGate {
    /// A gate with the two windows in milliseconds that remembers nothing.
    pub fn new(content_window: u64, cursor_window: u64) -> (gate: Self)
        ensures
            gate@ == (GateView { content_window, cursor_window, windows: Map::empty() }),
    {
        Self { content_window, cursor_window, state: HashMap::new() }
    }

    fn window(&self, bufnr: i64) -> (window: GateWindowState)
        ensures
            window == self@.window_of(bufnr),
    {
        broadcast use vstd::std_specs::hash::group_hash_axioms;

        match self.state.get(&bufnr) {
            Some(window) => *window,
            None => GateWindowState { last_content_emit: None, last_cursor_emit: None },
        }
    }

    /// Tells whether content of a document may go on to be rendered now,
    /// and if so starts the document's content window anew.
    pub fn allow_content_emit(&mut self, bufnr: i64, now: u64) -> (allowed: bool)
        ensures
            allowed == old(self)@.allows_content(bufnr, now),
            final(self)@ == old(self)@.after_content(bufnr, now),
    {
        broadcast use vstd::std_specs::hash::group_hash_axioms;

        let window = self.window(bufnr);
        let allowed = match window.last_content_emit {
            Some(last) => now.saturating_sub(last) >= self.content_window,
            None => true,
        };
        if allowed {
            self.state.insert(
                bufnr,
                GateWindowState { last_content_emit: Some(now), last_cursor_emit: window.last_cursor_emit },
            );
        }
        allowed
    }

    /// Tells whether a cursor move may go on to be broadcast now, and if so
    /// remembers its time and line. A move to the line that was let
    /// through last is never let through, whatever the time.
    pub fn allow_cursor_emit(&mut self, bufnr: i64, line: usize, now: u64) -> (allowed: bool)
        ensures
            allowed == old(self)@.allows_cursor(bufnr, line, now),
            final(self)@ == old(self)@.after_cursor(bufnr, line, now),
    {
        broadcast use vstd::std_specs::hash::group_hash_axioms;

        let window = self.window(bufnr);
        let allowed = match window.last_cursor_emit {
            Some((last, last_line)) => last_line != line && now.saturating_sub(last)
                >= self.cursor_window,
            None => true,
        };
        if allowed {
            self.state.insert(
                bufnr,
                GateWindowState {
                    last_content_emit: window.last_content_emit,
                    last_cursor_emit: Some((now, line)),
                },
            );
        }
        allowed
    }

    /// Forgets a document.
    pub fn clear_buffer(&mut self, bufnr: i64)
        ensures
            final(self)@ == old(self)@.cleared(bufnr),
    {
        broadcast use vstd::std_specs::hash::group_hash_axioms;

        self.state.remove(&bufnr);
    }
}

/// A cursor move to the line that was let through last is held back, at
/// whatever time it comes.
pub proof fn lemma_duplicate_line_is_held_back(gate: GateView, bufnr: i64, line: usize, now: u64, later: u64)
    requires
        gate.allows_cursor(bufnr, line, now),
    ensures
        !gate.after_cursor(bufnr, line, now).allows_cursor(bufnr, line, later),
        gate.after_cursor(bufnr, line, now).after_cursor(bufnr, line, later) == gate.after_cursor(
            bufnr,
            line,
            now,
        ),
{
}

/// Content is let through once per window: after it was let through,
/// it is held back until the content window has passed, and let through
/// again from then on.
pub proof fn lemma_content_once_per_window(gate: GateView, bufnr: i64, now: u64, later: u64)
    requires
        gate.allows_content(bufnr, now),
    ensures
        gate.after_content(bufnr, now).allows_content(bufnr, later) == (elapsed(later, now)
            >= gate.content_window),
{
}

/// A document never seen, or forgotten, is let through at once.
pub proof fn lemma_cleared_document_is_let_through(gate: GateView, bufnr: i64, line: usize, now: u64)
    ensures
        gate.cleared(bufnr).allows_content(bufnr, now),
        gate.cleared(bufnr).allows_cursor(bufnr, line, now),
        gate.cleared(bufnr).cleared(bufnr) == gate.cleared(bufnr),
{
    assert(gate.cleared(bufnr).windows.remove(bufnr) =~= gate.cleared(bufnr).windows);
}

/// What the event gate remembers of one document does not depend on what
/// happens to another.
pub proof fn lemma_gate_documents_are_independent(
    gate: GateView,
    bufnr: i64,
    other: i64,
    line: usize,
    now: u64,
)
    requires
        bufnr != other,
    ensures
        gate.after_content(bufnr, now).window_of(other) == gate.window_of(other),
        gate.after_cursor(bufnr, line, now).window_of(other) == gate.window_of(other),
        gate.cleared(bufnr).window_of(other) == gate.window_of(other),
{
}

} // verus!
