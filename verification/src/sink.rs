use vstd::prelude::*;
use crate::ROTATION_THRESHOLD;
use crate::gzip::{GzStream, gz_finish, gz_new, gz_write_all, gzip_fast, gz_written};
use crate::namegen::NameAllocator;
use crate::record::{Record, lemma_lines_bytes_push, lines_bytes};
use crate::text::file_name_spec;

verus! {

/// The reason a sink operation failed.
#[derive(Clone, Copy, Debug, PartialEq, Eq, Structural)]
pub enum SinkError {
    /// A block's bytes could not be decoded into records.
    Decode,
    /// The compressed stream rejected a write or could not be finished.
    Write,
}

/// One completed output file: its name, its compressed bytes, and (as ghost
/// state) the records whose lines it compresses.
pub struct FinishedShard {
    pub name: Vec<u8>,
    pub bytes: Vec<u8>,
    pub records: Ghost<Seq<Record>>,
}

/// A shard's bytes are the gzip encoding of its records' lines.
pub open spec fn shard_encodes_records(s: FinishedShard) -> bool {
    s.bytes@ == gzip_fast(lines_bytes(s.records@))
}

/// A shard produced by rotation: it holds exactly the rotation threshold of
/// records, so it is never empty and never over the bound.
pub open spec fn complete_shard(s: FinishedShard) -> bool {
    &&& shard_encodes_records(s)
    &&& s.records@.len() == ROTATION_THRESHOLD
}

/// The records of a sequence of shards, in shard order.
pub open spec fn all_shard_records(shards: Seq<FinishedShard>) -> Seq<Record>
    decreases shards.len(),
{
    if shards.len() == 0 {
        Seq::empty()
    } else {
        all_shard_records(shards.drop_last()) + shards.last().records@
    }
}

/// Appending one shard appends exactly its records.
pub proof fn lemma_all_shard_records_push(shards: Seq<FinishedShard>, s: FinishedShard)
    ensures
        all_shard_records(shards.push(s)) == all_shard_records(shards) + s.records@,
{
    assert(shards.push(s).drop_last() =~= shards);
    assert(shards.push(s).last() == s);
}

/// A rotating compressed writer: one open gzip stream, the name the stream's
/// file will get, and a count of records written since the stream was opened.
pub struct Sink {
    stream: GzStream,
    name: Vec<u8>,
    count: u64,
    recs: Ghost<Seq<Record>>,
}

impl Sink {
    /// The records appended to the currently open stream.
    pub closed spec fn records(self) -> Seq<Record> {
        self.recs@
    }

    /// The file name the currently open stream is destined for.
    pub closed spec fn shard_name(self) -> Seq<u8> {
        self.name@
    }

    /// The open stream compresses exactly the lines of the appended records,
    /// and their number is always strictly below the rotation threshold.
    pub closed spec fn wf(self) -> bool {
        &&& gz_written(self.stream) == lines_bytes(self.recs@)
        &&& self.count as nat == self.recs@.len()
        &&& self.count < ROTATION_THRESHOLD
    }

    /// Opens a fresh sink on a newly allocated file name.
    pub fn new(alloc: &mut NameAllocator) -> (s: Sink)
        requires
            old(alloc).next_id() < u64::MAX,
        ensures
            s.wf(),
            s.records() == Seq::<Record>::empty(),
            s.shard_name() == file_name_spec(old(alloc).next_id()),
            final(alloc).next_id() == old(alloc).next_id() + 1,
    {
        let name = alloc.next_name();
        Sink { stream: gz_new(), name, count: 0, recs: Ghost(Seq::empty()) }
    }

    /// Appends one record's line to the open stream, then checks rotation:
    /// when the count reaches the threshold, the full stream is finished into
    /// a shard, a fresh stream is opened under a newly allocated name, and the
    /// count restarts at zero. Exactly the rotation that closed a shard
    /// allocates a name, so names stay strictly increasing.
    pub fn append(&mut self, alloc: &mut NameAllocator, rec: Record) -> (r: Result<
        Option<FinishedShard>,
        SinkError,
    >)
        requires
            old(self).wf(),
            old(alloc).next_id() < u64::MAX,
        ensures
            old(alloc).next_id() <= final(alloc).next_id() <= old(alloc).next_id() + 1,
            r is Ok ==> final(self).wf(),
            r matches Ok(None) ==> {
                &&& final(self).records() == old(self).records().push(rec)
                &&& final(self).shard_name() == old(self).shard_name()
                &&& old(self).records().len() + 1 < ROTATION_THRESHOLD
                &&& final(alloc).next_id() == old(alloc).next_id()
            },
            r matches Ok(Some(shard)) ==> {
                &&& shard.records@ == old(self).records().push(rec)
                &&& shard.name@ == old(self).shard_name()
                &&& complete_shard(shard)
                &&& old(self).records().len() + 1 == ROTATION_THRESHOLD
                &&& final(self).records() == Seq::<Record>::empty()
                &&& final(self).shard_name() == file_name_spec(old(alloc).next_id())
                &&& final(alloc).next_id() == old(alloc).next_id() + 1
            },
    {
        let line = crate::record::record_line(&rec);
        match gz_write_all(&mut self.stream, &line) {
            Ok(()) => {},
            Err(_) => {
                return Err(SinkError::Write);
            },
        }
        proof {
            lemma_lines_bytes_push(self.recs@, rec);
        }
        self.recs = Ghost(self.recs@.push(rec));
        self.count = self.count + 1;
        if self.count == ROTATION_THRESHOLD {
            let mut retired = gz_new();
            core::mem::swap(&mut retired, &mut self.stream);
            let bytes = match gz_finish(retired) {
                Ok(b) => b,
                Err(_) => {
                    return Err(SinkError::Write);
                },
            };
            let mut retired_name = alloc.next_name();
            core::mem::swap(&mut retired_name, &mut self.name);
            let shard = FinishedShard {
                name: retired_name,
                bytes,
                records: Ghost(self.recs@),
            };
            self.count = 0;
            self.recs = Ghost(Seq::empty());
            Ok(Some(shard))
        } else {
            Ok(None)
        }
    }

    /// Appends a whole block of records, in the block's order, through this
    /// sink, returning every shard that rotation completed along the way.
    /// On success the shards' records followed by the records still open in
    /// the sink are exactly the records that were open before followed by the
    /// block; each returned shard holds exactly the rotation threshold of
    /// records; and when the block fits under the threshold together with
    /// what was already open, at most one shard is produced, so no block is
    /// split across two files. The first emitted shard carries the sink's
    /// name from before the call; every later one carries the next freshly
    /// allocated name in counter order.
    pub fn append_all(&mut self, alloc: &mut NameAllocator, recs: &Vec<Record>) -> (r: Result<
        Vec<FinishedShard>,
        SinkError,
    >)
        requires
            old(self).wf(),
            old(alloc).next_id() + recs@.len() + 1 <= u64::MAX,
        ensures
            old(alloc).next_id() <= final(alloc).next_id() <= old(alloc).next_id() + recs@.len(),
            recs@.len() == 0 ==> r is Ok,
            r is Ok ==> final(self).wf(),
            r matches Ok(shards) ==> {
                &&& all_shard_records(shards@) + final(self).records() == old(self).records()
                    + recs@
                &&& forall|j: int|
                    0 <= j < shards@.len() ==> complete_shard(#[trigger] shards@[j])
                &&& shards@.len() * (ROTATION_THRESHOLD as nat) + final(self).records().len()
                    == old(self).records().len() + recs@.len()
                &&& final(alloc).next_id() == old(alloc).next_id() + shards@.len()
                &&& old(self).records().len() + recs@.len() <= ROTATION_THRESHOLD
                    ==> shards@.len() <= 1
                &&& shards@.len() == 0 ==> final(self).shard_name() == old(self).shard_name()
                &&& shards@.len() > 0 ==> shards@[0].name@ == old(self).shard_name()
                &&& forall|j: int|
                    1 <= j < shards@.len() ==> (#[trigger] shards@[j]).name@ == file_name_spec(
                        (old(alloc).next_id() + j - 1) as nat,
                    )
                &&& shards@.len() > 0 ==> final(self).shard_name() == file_name_spec(
                    (old(alloc).next_id() + shards@.len() - 1) as nat,
                )
            },
    {
        let mut shards: Vec<FinishedShard> = Vec::new();
        let mut i: usize = 0;
        while i < recs.len()
            invariant
                self.wf(),
                i <= recs@.len(),
                old(self).wf(),
                old(alloc).next_id() + recs@.len() + 1 <= u64::MAX,
                all_shard_records(shards@) + self.records() == old(self).records() + recs@.take(
                    i as int,
                ),
                forall|j: int| 0 <= j < shards@.len() ==> complete_shard(#[trigger] shards@[j]),
                shards@.len() * (ROTATION_THRESHOLD as nat) + self.records().len() == old(
                    self,
                ).records().len() + i as nat,
                alloc.next_id() == old(alloc).next_id() + shards@.len(),
                shards@.len() == 0 ==> self.shard_name() == old(self).shard_name(),
                shards@.len() > 0 ==> shards@[0].name@ == old(self).shard_name(),
                forall|j: int|
                    1 <= j < shards@.len() ==> (#[trigger] shards@[j]).name@ == file_name_spec(
                        (old(alloc).next_id() + j - 1) as nat,
                    ),
                shards@.len() > 0 ==> self.shard_name() == file_name_spec(
                    (old(alloc).next_id() + shards@.len() - 1) as nat,
                ),
            decreases recs@.len() - i,
        {
            assert(shards@.len() <= i);
            let rec = recs[i];
            let ghost prev_shards = shards@;
            let ghost prev_records = self.records();
            match self.append(alloc, rec) {
                Ok(None) => {
                    proof {
                        assert(all_shard_records(shards@) + self.records() =~= (
                        all_shard_records(prev_shards) + prev_records).push(rec));
                        assert(recs@.take(i + 1 as int) =~= recs@.take(i as int).push(rec));
                        assert((old(self).records() + recs@.take(i as int)).push(rec) =~= old(
                            self,
                        ).records() + recs@.take(i + 1 as int));
                    }
                },
                Ok(Some(shard)) => {
                    shards.push(shard);
                    proof {
                        lemma_all_shard_records_push(prev_shards, shard);
                        assert(all_shard_records(shards@) + self.records() =~= (
                        all_shard_records(prev_shards) + prev_records).push(rec));
                        assert(recs@.take(i + 1 as int) =~= recs@.take(i as int).push(rec));
                        assert((old(self).records() + recs@.take(i as int)).push(rec) =~= old(
                            self,
                        ).records() + recs@.take(i + 1 as int));
                    }
                },
                Err(e) => {
                    return Err(e);
                },
            }
            i = i + 1;
        }
        assert(recs@.take(recs@.len() as int) =~= recs@);
        Ok(shards)
    }

    /// Whether any record is open in the current stream.
    pub fn has_records(&self) -> (r: bool)
        requires
            self.wf(),
        ensures
            r == (self.records().len() > 0),
    {
        self.count > 0
    }

    /// Finishes the open stream into its shard. The sink is consumed: this is
    /// the one finalization a sink gets, at shutdown. A finalized shard holds
    /// at least one record and strictly fewer than the rotation threshold: a
    /// sink with nothing open (one that just rotated) is not finalized but
    /// dropped, so no empty shard is ever written (see
    /// `SinkPool::finalize_all`).
    pub fn finalize(self) -> (r: Result<FinishedShard, SinkError>)
        requires
            self.wf(),
            self.records().len() > 0,
        ensures
            r matches Ok(shard) ==> {
                &&& shard.records@ == self.records()
                &&& shard.name@ == self.shard_name()
                &&& shard_encodes_records(shard)
                &&& 1 <= shard.records@.len() < ROTATION_THRESHOLD
            },
    {
        let Sink { stream, name, count: _, recs } = self;
        let bytes = match gz_finish(stream) {
            Ok(b) => b,
            Err(_) => {
                return Err(SinkError::Write);
            },
        };
        Ok(FinishedShard { name, bytes, records: Ghost(recs@) })
    }
}

} // verus!
