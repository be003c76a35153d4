//! Types shared with the interactive line loop: loop control, history
//! kinds and their default history file names.

use vstd::prelude::*;

verus! {

/// Control flow for an interactive line loop.
#[derive(Debug, Clone, Copy, PartialEq, Eq)]
pub enum LoopControl {
    /// Continue the loop.
    Continue,
    /// Break out of the loop.
    Break,
}

/// The kind of history file a line loop uses.
#[derive(Debug, Clone, Copy, PartialEq, Eq)]
pub enum HistoryKind {
    /// Read-eval-print loop history.
    Repl,
    /// Log viewer history.
    LogViewer,
}

/// The default history file name for a history kind.
pub fn default_history_path(kind: HistoryKind) -> (r: String)
    ensures
        kind is Repl ==> r@ == ".mcp-repl.history"@,
        kind is LogViewer ==> r@ == ".mcp-log-viewer.history"@,
{
    match kind {
        HistoryKind::Repl => String::from_str(".mcp-repl.history"),
        HistoryKind::LogViewer => String::from_str(".mcp-log-viewer.history"),
    }
}

} // verus!
