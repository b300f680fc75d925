//! What the proxy reports as it runs.
use vstd::prelude::*;

verus! {

#[derive(Debug, Clone, PartialEq, Eq)]
pub enum Direction {
    ToScdaemon,
    FromScdaemon,
}

impl Direction {
    /// The arrow that shows the direction in a log line.
    pub fn arrow(&self) -> (r: &'static str)
        ensures
            r@ == match self {
                Direction::ToScdaemon => "->"@,
                Direction::FromScdaemon => "<-"@,
            },
    {
        match self {
            Direction::ToScdaemon => "->",
            Direction::FromScdaemon => "<-",
        }
    }
}

#[derive(Debug, Clone, PartialEq, Eq)]
pub enum Event {
    ProxyStarted,
    ProxyFinished { exit_code: i32 },
    TouchRequired { command: String },
    TouchCompleted { success: bool },
    AlertStarted,
    AlertStopped,
    LineForwarded { direction: Direction, line: String },
}

} // verus!
