//! Time-windowed notification scheduling: the task list, the notification
//! window, the retry policy of the text-generation client and the rendering
//! of the hand-off line, each with a machine-checked contract.

use vstd::prelude::*;

pub mod clock;
pub mod json;
pub mod lyric;
pub mod mem;
pub mod notifier;
pub mod scheduler;
pub mod store;
pub mod task;
pub mod text;

verus! {

/// Handle of the assistant core. It carries no state of its own: everything
/// that is shared between the scheduler and the command front end lives in
/// the task store.
#[derive(Clone, Copy, Debug)]
pub struct OSAI;

impl OSAI {
    /// Creates the handle.
    pub fn new() -> (core: Self)
        ensures
            core == OSAI,
    {
        OSAI
    }
}

} // verus!
