//! The task record and the rules every stored task obeys.

use vstd::prelude::*;

verus! {

/// Longest stored title, in characters.
pub const TITLE_MAX: usize = 256;

/// Longest stored description, in characters.
pub const DESCRIPTION_MAX: usize = 1024;

/// Lowest priority a stored task can carry.
pub const PRIORITY_MIN: u8 = 1;

/// Highest priority a stored task can carry.
pub const PRIORITY_MAX: u8 = 5;

/// One unit of work kept by the store.
pub struct Task {
    pub title: String,
    pub description: String,
    pub priority: u8,
    pub completed: bool,
    pub created_at: u64,
}

/// The priority actually stored for a requested priority `p`: out-of-range
/// requests are pulled to the nearest end of `[PRIORITY_MIN, PRIORITY_MAX]`,
/// never rejected.
pub open spec fn clamped_priority(p: u8) -> u8 {
    if p < PRIORITY_MIN {
        PRIORITY_MIN
    } else if p > PRIORITY_MAX {
        PRIORITY_MAX
    } else {
        p
    }
}

/// Clamp a requested priority into the stored range.
pub fn clamp_priority(p: u8) -> (r: u8)
    ensures
        r == clamped_priority(p),
{
    if p < PRIORITY_MIN {
        PRIORITY_MIN
    } else if p > PRIORITY_MAX {
        PRIORITY_MAX
    } else {
        p
    }
}

impl Task {
    /// What every stored task satisfies: a clamped priority and fields
    /// within the store's size ceiling.
    pub open spec fn wf(self) -> bool {
        &&& PRIORITY_MIN <= self.priority <= PRIORITY_MAX
        &&& self.title@.len() <= TITLE_MAX
        &&& self.description@.len() <= DESCRIPTION_MAX
    }
}

/// Whatever priority is requested, the stored one lies in
/// `[PRIORITY_MIN, PRIORITY_MAX]`, and an in-range request is stored
/// unchanged.
pub proof fn lemma_clamped_priority(p: u8)
    ensures
        PRIORITY_MIN <= clamped_priority(p) <= PRIORITY_MAX,
        PRIORITY_MIN <= p <= PRIORITY_MAX ==> clamped_priority(p) == p,
{
}

/// Why a store operation was refused.
#[derive(Clone, Copy, Debug, PartialEq, Eq, Structural)]
pub enum Error {
    /// No record is stored under the given id.
    NotFound,
    /// The task was already completed; completion is not repeatable.
    AlreadyCompleted,
    /// A title or description is over the store's size ceiling.
    FieldTooLarge,
    /// The monotonic id allocator has no fresh id left.
    IdSpaceExhausted,
}

} // verus!
