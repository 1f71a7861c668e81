//! Events and payloads exchanged between the session store and its viewers.

use vstd::prelude::*;

verus! {

/// Query payload that selects a document by its buffer number.
#[derive(Debug, Clone)]
pub struct SessionQuery {
    pub buf: i64,
}

/// Why a session ended.
#[derive(Debug, Clone, Copy, PartialEq, Eq, Structural)]
pub enum SessionEndReason {
    Stopped,
    BufferClosed,
    Error,
}

/// Point-in-time view of a session for viewers that poll.
#[derive(Debug, Clone)]
pub struct SnapshotResponse {
    pub bufnr: i64,
    pub html: String,
    pub cursor_line: usize,
    pub cursor_col: usize,
    pub filename: String,
}

/// An event delivered to the subscribers of one document.
#[derive(Debug, Clone)]
pub enum ServerEvent {
    RenderFull { bufnr: i64, html: String, cursor_line: usize },
    CursorMove { bufnr: i64, line: usize, col: usize },
    SessionEnd { bufnr: i64, reason: SessionEndReason },
    Heartbeat { bufnr: i64 },
}

/// An event with its HTML as a sequence of characters.
pub enum EventRecord {
    RenderFull { bufnr: i64, html: Seq<char>, cursor_line: usize },
    CursorMove { bufnr: i64, line: usize, col: usize },
    SessionEnd { bufnr: i64, reason: SessionEndReason },
    Heartbeat { bufnr: i64 },
}

impl View for ServerEvent {
    type V = EventRecord;

    open spec fn view(&self) -> EventRecord {
        match *self {
            ServerEvent::RenderFull { bufnr, html, cursor_line } => EventRecord::RenderFull {
                bufnr,
                html: html@,
                cursor_line,
            },
            ServerEvent::CursorMove { bufnr, line, col } => EventRecord::CursorMove { bufnr, line, col },
            ServerEvent::SessionEnd { bufnr, reason } => EventRecord::SessionEnd { bufnr, reason },
            ServerEvent::Heartbeat { bufnr } => EventRecord::Heartbeat { bufnr },
        }
    }
}

impl ServerEvent {
    /// The wire name of the event's variant.
    pub open spec fn name_of(self) -> Seq<char> {
        match self {
            ServerEvent::RenderFull { .. } => "render_full"@,
            ServerEvent::CursorMove { .. } => "cursor_move"@,
            ServerEvent::SessionEnd { .. } => "session_end"@,
            ServerEvent::Heartbeat { .. } => "heartbeat"@,
        }
    }

    /// The document the event belongs to.
    pub open spec fn document(self) -> i64 {
        match self {
            ServerEvent::RenderFull { bufnr, .. } => bufnr,
            ServerEvent::CursorMove { bufnr, .. } => bufnr,
            ServerEvent::SessionEnd { bufnr, .. } => bufnr,
            ServerEvent::Heartbeat { bufnr } => bufnr,
        }
    }

    /// The name under which the event goes over the wire.
    pub fn event_name(&self) -> (name: &'static str)
        ensures
            name@ == self.name_of(),
    {
        match self {
            Self::RenderFull { .. } => "render_full",
            Self::CursorMove { .. } => "cursor_move",
            Self::SessionEnd { .. } => "session_end",
            Self::Heartbeat { .. } => "heartbeat",
        }
    }

    /// The document that the event belongs to.
    pub fn bufnr(&self) -> (id: i64)
        ensures
            id == self.document(),
    {
        match self {
            Self::RenderFull { bufnr, .. } => *bufnr,
            Self::CursorMove { bufnr, .. } => *bufnr,
            Self::SessionEnd { bufnr, .. } => *bufnr,
            Self::Heartbeat { bufnr } => *bufnr,
        }
    }
}

} // verus!
