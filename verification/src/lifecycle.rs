//! Whether the application has begun to exit; the exit is begun once.

use vstd::prelude::*;

verus! {

/// The exit state of the application.
#[derive(Debug, PartialEq, Eq)]
pub struct AppLifecycleState {
    exit_in_progress: bool,
}

impl AppLifecycleState {
    pub closed spec fn spec_exit_in_progress(&self) -> bool {
        self.exit_in_progress
    }

    /// No exit has begun.
    pub fn new() -> (r: AppLifecycleState)
        ensures
            !r.spec_exit_in_progress(),
    {
        AppLifecycleState { exit_in_progress: false }
    }

    /// Marks the exit as begun; true only for the call that began it.
    pub fn begin_exit(&mut self) -> (r: bool)
        ensures
            r == !old(self).spec_exit_in_progress(),
            final(self).spec_exit_in_progress(),
    {
        let was = self.exit_in_progress;
        self.exit_in_progress = true;
        !was
    }

    pub fn is_exit_in_progress(&self) -> (r: bool)
        ensures
            r == self.spec_exit_in_progress(),
    {
        self.exit_in_progress
    }
}

impl Default for AppLifecycleState {
    fn default() -> (r: AppLifecycleState)
        ensures
            !r.spec_exit_in_progress(),
    {
        AppLifecycleState::new()
    }
}

} // verus!
