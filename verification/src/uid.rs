//! The source of unique identifiers for nominal types.

use vstd::prelude::*;

verus! {

/// Hands out 32-bit identifiers in strictly increasing order, each one once.
#[derive(Clone, Debug)]
pub struct UIDGenerator {
    pub next: u32,
}

impl UIDGenerator {
    /// The identifiers handed out so far are exactly those below `next`.
    pub open spec fn issued(self, uid: u32) -> bool {
        uid < self.next
    }

    /// A generator that has handed out nothing.
    pub fn new() -> (gen: UIDGenerator)
        ensures
            gen.next == 0,
    {
        UIDGenerator { next: 0 }
    }

    /// Whether another identifier can be handed out.
    pub fn has_next(&self) -> (more: bool)
        ensures
            more == (self.next < u32::MAX),
    {
        self.next < u32::MAX
    }

    /// Hands out the next identifier: one that was never issued before and
    /// that is greater than every identifier issued before.
    pub fn generate_unique_id(&mut self) -> (uid: u32)
        requires
            old(self).next < u32::MAX,
        ensures
            uid == old(self).next,
            final(self).next == old(self).next + 1,
            !old(self).issued(uid),
            final(self).issued(uid),
    {
        let uid: u32 = self.next;
        self.next = self.next + 1;
        uid
    }
}

impl Default for UIDGenerator {
    fn default() -> (gen: UIDGenerator)
        ensures
            gen.next == 0,
    {
        UIDGenerator { next: 0 }
    }
}

/// Identifiers are monotone and unique: of two identifiers minted one
/// after the other, with any number of mints between them, the later
/// one is strictly greater, so no identifier is handed out twice.
pub proof fn lemma_uids_monotone_and_unique(
    before: UIDGenerator,
    first: u32,
    between: UIDGenerator,
    after: UIDGenerator,
    second: u32,
)
    requires
        first == before.next,
        between.next == before.next + 1,
        between.next <= after.next,
        second == after.next,
    ensures
        first < second,
        first != second,
{
}

} // verus!
