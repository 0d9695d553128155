//! The decision the background daemon takes on each event it waits for.
use vstd::prelude::*;

verus! {

/// What the daemon's wait ends with.
#[derive(Debug, Clone, Copy, PartialEq, Eq)]
pub enum DaemonEvent {
    /// `SIGTERM` arrived.
    Terminate,
    /// `SIGINT` arrived.
    Interrupt,
    /// A round of work finished.
    WorkDone,
}

/// Whether the daemon keeps running after `event`: a finished round of
/// work lets it go on; either signal stops it.
pub fn keeps_running(event: DaemonEvent) -> (r: bool)
    ensures
        r == (event == DaemonEvent::WorkDone),
{
    match event {
        DaemonEvent::Terminate => false,
        DaemonEvent::Interrupt => false,
        DaemonEvent::WorkDone => true,
    }
}

} // verus!
