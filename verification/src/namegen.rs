use vstd::prelude::*;
use crate::text::{file_name, file_name_spec};

verus! {

/// Issues unique, strictly increasing shard file names from a shared counter.
/// Callers that share one allocator across workers must serialize calls to
/// `next_name`; the counter then never loses an update, so two calls never
/// return the same name (see `text::lemma_file_names_unique`).
pub struct NameAllocator {
    next: u64,
}

impl NameAllocator {
    /// The counter value the next allocation will use.
    pub closed spec fn next_id(self) -> nat {
        self.next as nat
    }

    /// A fresh allocator, starting at counter zero.
    pub fn new() -> (r: Self)
        ensures
            r.next_id() == 0,
    {
        NameAllocator { next: 0 }
    }

    /// How many names have been handed out so far; also the counter the next
    /// name will use.
    pub fn allocated(&self) -> (r: u64)
        ensures
            r as nat == self.next_id(),
    {
        self.next
    }

    /// Returns the file name for the current counter value and advances the
    /// counter, so that names come out in strictly increasing counter order.
    pub fn next_name(&mut self) -> (r: Vec<u8>)
        requires
            old(self).next_id() < u64::MAX,
        ensures
            r@ == file_name_spec(old(self).next_id()),
            final(self).next_id() == old(self).next_id() + 1,
    {
        let name = file_name(self.next);
        self.next = self.next + 1;
        name
    }
}

} // verus!
