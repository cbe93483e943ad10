//! What is known of the service and of the user interface.
use vstd::prelude::*;
use crate::text::option_text;

verus! {

/// The state of the service, with its texts as `S`.
#[derive(Clone, Debug)]
pub struct StateOf<S> {
    pub running: bool,
    pub pid: Option<u32>,
    pub status_text: S,
    pub last_error: Option<S>,
    /// When the state was noted, in seconds since 1970.
    pub updated_at: u64,
}

/// The state of the service.
pub type ServiceState = StateOf<String>;

impl View for StateOf<String> {
    type V = StateOf<Seq<char>>;

    open spec fn view(&self) -> StateOf<Seq<char>> {
        StateOf {
            running: self.running,
            pid: self.pid,
            status_text: self.status_text@,
            last_error: option_text(self.last_error),
            updated_at: self.updated_at,
        }
    }
}

/// A sign of life of the user interface.
#[derive(Clone, Copy, Debug, PartialEq, Eq, Structural)]
pub struct UiLease {
    /// The process that gave it.
    pub owner_pid: u32,
    /// When it was given, in seconds since 1970.
    pub updated_at: u64,
}

} // verus!
