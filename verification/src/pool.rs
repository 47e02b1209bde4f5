use vstd::prelude::*;
use crate::ROTATION_THRESHOLD;
use crate::namegen::NameAllocator;
use crate::record::Record;
use crate::sink::{FinishedShard, Sink, SinkError, all_shard_records, shard_encodes_records};

verus! {

/// The records still open in a sequence of sinks, in sink order.
pub open spec fn pending_records(sinks: Seq<Sink>) -> Seq<Record>
    decreases sinks.len(),
{
    if sinks.len() == 0 {
        Seq::empty()
    } else {
        pending_records(sinks.drop_last()) + sinks.last().records()
    }
}

/// Adding one sink adds exactly its open records.
pub proof fn lemma_pending_records_push(sinks: Seq<Sink>, s: Sink)
    ensures
        pending_records(sinks.push(s)) == pending_records(sinks) + s.records(),
{
    assert(sinks.push(s).drop_last() =~= sinks);
    assert(sinks.push(s).last() == s);
}

/// A pool of idle sinks. A sink is either idle here or checked out by exactly
/// one caller; the pool grows on demand and never blocks an acquisition.
/// Callers that share one pool across workers must serialize `acquire` and
/// `release`; no stream I/O happens inside either.
pub struct SinkPool {
    idle: Vec<Sink>,
}

impl SinkPool {
    /// The idle sinks, in stack order.
    pub closed spec fn sinks(self) -> Seq<Sink> {
        self.idle@
    }

    /// Every idle sink is well formed.
    pub open spec fn wf(self) -> bool {
        forall|i: int| 0 <= i < self.sinks().len() ==> (#[trigger] self.sinks()[i]).wf()
    }

    /// An empty pool.
    pub fn new() -> (r: Self)
        ensures
            r.wf(),
            r.sinks() == Seq::<Sink>::empty(),
    {
        SinkPool { idle: Vec::new() }
    }

    /// Hands out an idle sink if one is present, else opens a fresh one. The
    /// records open across the pool plus the acquired sink are exactly those
    /// open across the pool before.
    pub fn acquire(&mut self, alloc: &mut NameAllocator) -> (s: Sink)
        requires
            old(self).wf(),
            old(alloc).next_id() < u64::MAX,
        ensures
            s.wf(),
            final(self).wf(),
            pending_records(final(self).sinks()) + s.records() == pending_records(
                old(self).sinks(),
            ),
            old(self).sinks().len() > 0 ==> final(self).sinks().len() == old(
                self,
            ).sinks().len() - 1,
            old(self).sinks().len() == 0 ==> final(self).sinks().len() == 0,
            old(alloc).next_id() <= final(alloc).next_id() <= old(alloc).next_id() + 1,
    {
        let popped = self.idle.pop();
        match popped {
            Some(s) => {
                proof {
                    assert(old(self).sinks().drop_last() =~= self.idle@);
                    assert(old(self).sinks().last() == s);
                }
                s
            },
            None => {
                let s = Sink::new(alloc);
                assert(pending_records(self.sinks()) =~= Seq::<Record>::empty());
                assert(pending_records(self.sinks()) + s.records() =~= pending_records(
                    old(self).sinks(),
                ));
                s
            },
        }
    }

    /// Puts a sink back as idle.
    pub fn release(&mut self, s: Sink)
        requires
            old(self).wf(),
            s.wf(),
        ensures
            final(self).wf(),
            pending_records(final(self).sinks()) == pending_records(old(self).sinks())
                + s.records(),
            final(self).sinks().len() == old(self).sinks().len() + 1,
    {
        proof {
            lemma_pending_records_push(self.idle@, s);
        }
        self.idle.push(s);
        proof {
            assert(self.sinks() =~= old(self).sinks().push(s));
            assert forall|i: int| 0 <= i < self.sinks().len() implies (
            #[trigger] self.sinks()[i]).wf() by {
                if i < old(self).sinks().len() {
                    assert(old(self).sinks()[i].wf());
                }
            }
        }
    }

    /// Finishes every idle sink that has records open into its shard, in
    /// pool order, emptying the pool; a sink with nothing open (one that just
    /// rotated) is dropped, so no shard is ever finalized empty. On success
    /// the shards' records are exactly the records that were open across the
    /// pool, and every shard holds at least one and strictly fewer than the
    /// rotation threshold of records.
    pub fn finalize_all(&mut self) -> (r: Result<Vec<FinishedShard>, SinkError>)
        requires
            old(self).wf(),
        ensures
            final(self).sinks().len() == 0,
            old(self).sinks().len() == 0 ==> r is Ok,
            r matches Ok(shards) ==> {
                &&& all_shard_records(shards@) == pending_records(old(self).sinks())
                &&& forall|j: int|
                    0 <= j < shards@.len() ==> shard_encodes_records(#[trigger] shards@[j])
                &&& forall|j: int|
                    0 <= j < shards@.len() ==> 1 <= (#[trigger] shards@[j]).records@.len()
                        < ROTATION_THRESHOLD
                &&& shards@.len() <= old(self).sinks().len()
            },
    {
        let mut shards: Vec<FinishedShard> = Vec::new();
        let ghost all = self.idle@;
        proof {
            assert(all == old(self).sinks());
            assert forall|j: int| 0 <= j < all.len() implies (#[trigger] all[j]).wf() by {
                assert(old(self).sinks()[j].wf());
            }
        }
        let mut i: usize = 0;
        let n = self.idle.len();
        while i < n
            invariant
                n == all.len(),
                all == old(self).sinks(),
                i <= n,
                self.idle@ =~= all.skip(i as int),
                forall|j: int| 0 <= j < all.len() ==> (#[trigger] all[j]).wf(),
                all_shard_records(shards@) == pending_records(all.take(i as int)),
                forall|j: int|
                    0 <= j < shards@.len() ==> shard_encodes_records(#[trigger] shards@[j]),
                forall|j: int|
                    0 <= j < shards@.len() ==> 1 <= (#[trigger] shards@[j]).records@.len()
                        < ROTATION_THRESHOLD,
                shards@.len() <= i,
            decreases n - i,
        {
            let s = self.idle.remove(0);
            assert(s == all[i as int]);
            let ghost prev_shards = shards@;
            if s.has_records() {
                match s.finalize() {
                    Ok(shard) => {
                        shards.push(shard);
                        proof {
                            crate::sink::lemma_all_shard_records_push(prev_shards, shard);
                            lemma_pending_records_push(all.take(i as int), s);
                            assert(all.take(i + 1 as int) =~= all.take(i as int).push(s));
                            assert(self.idle@ =~= all.skip(i + 1 as int));
                        }
                    },
                    Err(e) => {
                        self.idle.clear();
                        return Err(e);
                    },
                }
            } else {
                // An empty sink is dropped: its stream took no bytes, and
                // dropping it loses no records, so no empty shard appears.
                proof {
                    lemma_pending_records_push(all.take(i as int), s);
                    assert(all.take(i + 1 as int) =~= all.take(i as int).push(s));
                    assert(pending_records(all.take(i + 1 as int)) =~= pending_records(
                        all.take(i as int),
                    ));
                    assert(self.idle@ =~= all.skip(i + 1 as int));
                }
            }
            i = i + 1;
        }
        assert(all.take(n as int) =~= all);
        Ok(shards)
    }
}

} // verus!
