use vstd::prelude::*;

verus! {

/// A failure of the run as a whole, as opposed to the failure of one call,
/// which is an ordinary outcome.
#[derive(Debug, Clone, Copy, PartialEq, Eq, Structural)]
pub enum SwarmError {
    /// The sink could not be opened or truncated; no task was started.
    SinkOpen,
    /// Appending a line to the sink failed.
    SinkWrite,
    /// A successful response could not be rendered as JSON.
    Render,
    /// A spawned task could not be joined.
    Join,
    /// A report named a task index outside the swarm's width.
    TaskOutOfRange,
    /// A second report arrived for a task that had already reported.
    DuplicateTask,
    /// The run ended before every task had reported.
    Incomplete,
}

} // verus!
