//! The task record that per-index logs hold and the merged stream yields.

use vstd::prelude::*;

verus! {

/// One historical index-mutation task.
///
/// `enqueued_at` is the key the merged task stream is ordered by; `raw`
/// keeps the record's exact source line, so no task-specific field is
/// lost to the caller.
#[derive(Clone, Debug)]
pub struct UpdateStatus {
    pub enqueued_at: u64,
    pub raw: String,
}

impl UpdateStatus {
    /// The enqueue timestamp that orders tasks across indexes.
    pub fn enqueued_at(&self) -> (r: u64)
        ensures
            r == self.enqueued_at,
    {
        self.enqueued_at
    }
}

} // verus!
