use vstd::prelude::*;
use vstd::multiset::Multiset;
use crate::ROTATION_THRESHOLD;
use crate::namegen::NameAllocator;
use crate::pool::{SinkPool, pending_records};
use crate::record::{Record, RecordKind};
use crate::sink::{FinishedShard, SinkError, all_shard_records, complete_shard,
    shard_encodes_records};

verus! {

#[verifier::external_type_specification]
#[verifier::external_body]
pub struct ExBlob(osmpbf::Blob);

#[verifier::external_type_specification]
#[verifier::external_body]
pub struct ExOsmError(osmpbf::Error);

/// Relies on osmpbf's `Blob::decode`: a data blob yields its typed elements
/// in block order, a header or unknown blob yields none, and malformed bytes
/// fail. Nothing can be promised about the records an opaque blob holds, so
/// every caller handles every outcome.
#[verifier::external_body]
fn decode_blob(blob: &osmpbf::Blob) -> (r: Result<Vec<Record>, osmpbf::Error>)
{
    match blob.decode() {
        Ok(osmpbf::BlobDecode::OsmData(block)) => Ok(
            block.elements().map(|e| match e {
                osmpbf::Element::Node(n) => Record { kind: RecordKind::Node, id: n.id() },
                osmpbf::Element::DenseNode(n) => Record { kind: RecordKind::Node, id: n.id() },
                osmpbf::Element::Way(w) => Record { kind: RecordKind::Way, id: w.id() },
                osmpbf::Element::Relation(r) => Record { kind: RecordKind::Relation, id: r.id() },
            }).collect(),
        ),
        Ok(_) => Ok(Vec::new()),
        Err(e) => Err(e),
    }
}

/// Decodes one blob into its records: a data blob gives its records in block
/// order, a non-data blob gives none, and a malformed blob gives the decode
/// error.
pub fn decode_block_records(blob: &osmpbf::Blob) -> (r: Result<Vec<Record>, SinkError>)
    ensures
        r is Err ==> r == Err::<Vec<Record>, SinkError>(SinkError::Decode),
{
    match decode_blob(blob) {
        Ok(recs) => Ok(recs),
        Err(_) => Err(SinkError::Decode),
    }
}

/// Processes one decoded block: borrows a sink from the pool, appends every
/// record of the block through it in block order, and returns the sink. The
/// records of the returned shards plus those left open across the pool are
/// exactly those open before plus the block's records, with nothing dropped
/// and nothing duplicated. On failure the borrowed sink is abandoned, never
/// returned to the pool.
pub fn process_block(pool: &mut SinkPool, alloc: &mut NameAllocator, recs: &Vec<Record>) -> (r:
    Result<Vec<FinishedShard>, SinkError>)
    requires
        old(pool).wf(),
        old(alloc).next_id() + recs@.len() + 2 <= u64::MAX,
    ensures
        final(pool).wf(),
        old(alloc).next_id() <= final(alloc).next_id() <= old(alloc).next_id() + recs@.len() + 1,
        recs@.len() == 0 ==> r is Ok && *final(pool) == *old(pool) && *final(alloc) == *old(alloc),
        r is Ok ==> final(pool).sinks().len() <= old(pool).sinks().len()
            || final(pool).sinks().len() == 1,
        r matches Ok(shards) ==> {
            &&& all_shard_records(shards@).to_multiset().add(
                pending_records(final(pool).sinks()).to_multiset(),
            ) == pending_records(old(pool).sinks()).to_multiset().add(recs@.to_multiset())
            &&& forall|j: int| 0 <= j < shards@.len() ==> complete_shard(#[trigger] shards@[j])
        },
{
    let ghost pool0 = pending_records(old(pool).sinks());
    if recs.len() == 0 {
        // A block with no records (a header or unknown block) touches no sink.
        proof {
            broadcast use vstd::multiset::group_multiset_axioms;
            broadcast use vstd::seq_lib::group_to_multiset_ensures;

            assert(all_shard_records(Seq::<FinishedShard>::empty()) =~= Seq::<Record>::empty());
            assert(Seq::<Record>::empty().to_multiset() =~= Multiset::<Record>::empty());
            assert(Multiset::<Record>::empty().add(pool0.to_multiset()) =~= pool0.to_multiset());
            assert(pool0.to_multiset().add(Multiset::<Record>::empty()) =~= pool0.to_multiset());
        }
        return Ok(Vec::new());
    }
    let mut sink = pool.acquire(alloc);
    let ghost rest = pending_records(pool.sinks());
    let ghost held = sink.records();
    assert(rest + held == pool0);
    let shards = match sink.append_all(alloc, recs) {
        Ok(shards) => shards,
        Err(e) => {
            return Err(e);
        },
    };
    let ghost left = sink.records();
    pool.release(sink);
    proof {
        // shards + left == held + recs, and the pool got left back while rest
        // stayed; regroup the concatenations as multisets.
        broadcast use vstd::multiset::group_multiset_axioms;

        vstd::seq_lib::lemma_multiset_commutative(rest, held);
        vstd::seq_lib::lemma_multiset_commutative(rest, left);
        vstd::seq_lib::lemma_multiset_commutative(all_shard_records(shards@), left);
        vstd::seq_lib::lemma_multiset_commutative(held, recs@);
        let ma = all_shard_records(shards@).to_multiset();
        let mrest = rest.to_multiset();
        let mleft = left.to_multiset();
        let mheld = held.to_multiset();
        let mrecs = recs@.to_multiset();
        assert(ma.add(mleft) == mheld.add(mrecs));
        assert(pending_records(pool.sinks()).to_multiset() == mrest.add(mleft));
        assert(pool0.to_multiset() == mrest.add(mheld));
        lemma_multiset_add_comm(mrest, mleft);
        lemma_multiset_add_assoc(ma, mleft, mrest);
        assert(ma.add(mrest.add(mleft)) == mheld.add(mrecs).add(mrest));
        lemma_multiset_add_assoc(mheld, mrecs, mrest);
        lemma_multiset_add_comm(mrecs, mrest);
        lemma_multiset_add_assoc(mheld, mrest, mrecs);
        lemma_multiset_add_comm(mheld, mrest);
        assert(mheld.add(mrecs).add(mrest) == mrest.add(mheld).add(mrecs));
    }
    Ok(shards)
}

/// Multiset addition is commutative.
proof fn lemma_multiset_add_comm<T>(a: Multiset<T>, b: Multiset<T>)
    ensures
        a.add(b) == b.add(a),
{
    broadcast use vstd::multiset::group_multiset_axioms;

    assert(a.add(b) =~= b.add(a));
}

/// Multiset addition is associative.
proof fn lemma_multiset_add_assoc<T>(a: Multiset<T>, b: Multiset<T>, c: Multiset<T>)
    ensures
        a.add(b).add(c) == a.add(b.add(c)),
{
    broadcast use vstd::multiset::group_multiset_axioms;

    assert(a.add(b).add(c) =~= a.add(b.add(c)));
}

/// The records of a sequence of decoded blocks, in input order.
pub open spec fn block_records(blocks: Seq<Vec<Record>>) -> Seq<Record>
    decreases blocks.len(),
{
    if blocks.len() == 0 {
        Seq::empty()
    } else {
        block_records(blocks.drop_last()) + blocks.last()@
    }
}

/// Appending one block appends exactly its records.
pub proof fn lemma_block_records_push(blocks: Seq<Vec<Record>>, b: Vec<Record>)
    ensures
        block_records(blocks.push(b)) == block_records(blocks) + b@,
{
    assert(blocks.push(b).drop_last() =~= blocks);
    assert(blocks.push(b).last() == b);
}

/// Runs the whole pipeline over already-decoded blocks, single threaded:
/// every block is processed in order through a shared pool and name
/// allocator, and at the end every sink still in the pool is finalized. On
/// success the records across all output shards are exactly the multiset of
/// the records across all blocks — none dropped, none duplicated — every
/// shard holds between one record and the rotation threshold, and every
/// shard except possibly the last is complete (exactly the threshold).
pub fn run_decoded(blocks: &Vec<Vec<Record>>) -> (r: Result<Vec<FinishedShard>, SinkError>)
    requires
        blocks@.len() + block_records(blocks@).len() + 2 <= u64::MAX,
    ensures
        block_records(blocks@).len() == 0 ==> r is Ok,
        r matches Ok(shards) ==> {
            &&& all_shard_records(shards@).to_multiset() == block_records(blocks@).to_multiset()
            &&& forall|j: int|
                0 <= j < shards@.len() ==> shard_encodes_records(#[trigger] shards@[j])
            &&& forall|j: int|
                0 <= j < shards@.len() - 1 ==> complete_shard(#[trigger] shards@[j])
            &&& forall|j: int|
                0 <= j < shards@.len() ==> 1 <= (#[trigger] shards@[j]).records@.len()
                    <= ROTATION_THRESHOLD
        },
{
    let mut pool = SinkPool::new();
    let mut alloc = NameAllocator::new();
    let mut shards: Vec<FinishedShard> = Vec::new();
    let mut i: usize = 0;
    proof {
        broadcast use vstd::multiset::group_multiset_axioms;
        broadcast use vstd::seq_lib::group_to_multiset_ensures;

        assert(block_records(blocks@.take(0)) =~= Seq::<Record>::empty());
        assert(pending_records(pool.sinks()) =~= Seq::<Record>::empty());
        assert(all_shard_records(shards@) =~= Seq::<Record>::empty());
        assert(Seq::<Record>::empty().to_multiset() =~= Multiset::<Record>::empty());
        assert(Multiset::<Record>::empty().add(Multiset::<Record>::empty())
            =~= Multiset::<Record>::empty());
    }
    while i < blocks.len()
        invariant
            i <= blocks@.len(),
            pool.wf(),
            pool.sinks().len() <= 1,
            block_records(blocks@).len() == 0 ==> pool.sinks().len() == 0,
            blocks@.len() + block_records(blocks@).len() + 2 <= u64::MAX,
            alloc.next_id() <= i + block_records(blocks@.take(i as int)).len(),
            all_shard_records(shards@).to_multiset().add(
                pending_records(pool.sinks()).to_multiset(),
            ) == block_records(blocks@.take(i as int)).to_multiset(),
            forall|j: int| 0 <= j < shards@.len() ==> complete_shard(#[trigger] shards@[j]),
        decreases blocks@.len() - i,
    {
        let ghost taken = blocks@.take(i as int);
        let ghost pend0 = pending_records(pool.sinks());
        let block = &blocks[i];
        proof {
            lemma_block_records_prefix(blocks@, i as int);
        }
        let mut emitted = match process_block(&mut pool, &mut alloc, block) {
            Ok(emitted) => emitted,
            Err(e) => {
                return Err(e);
            },
        };
        let ghost emitted0 = emitted@;
        let ghost shards0 = shards@;
        shards.append(&mut emitted);
        proof {
            broadcast use vstd::multiset::group_multiset_axioms;

            assert(shards@ =~= shards0 + emitted0);
            lemma_all_shard_records_concat(shards0, emitted0);
            vstd::seq_lib::lemma_multiset_commutative(
                all_shard_records(shards0),
                all_shard_records(emitted0),
            );
            assert(blocks@.take(i + 1 as int) =~= taken.push(blocks@[i as int]));
            lemma_block_records_push(taken, blocks@[i as int]);
            vstd::seq_lib::lemma_multiset_commutative(block_records(taken), blocks@[i as int]@);
            let m0 = all_shard_records(shards0).to_multiset();
            let me = all_shard_records(emitted0).to_multiset();
            let mp = pending_records(pool.sinks()).to_multiset();
            let mq = pend0.to_multiset();
            let mt = block_records(taken).to_multiset();
            let mb = blocks@[i as int]@.to_multiset();
            lemma_multiset_add_assoc(m0, me, mp);
            assert(me.add(mp) == mq.add(mb));
            lemma_multiset_add_assoc(m0, mq, mb);
            assert(m0.add(me).add(mp) == m0.add(mq).add(mb));
            assert(m0.add(mq) == mt);
            assert(all_shard_records(shards@).to_multiset().add(
                pending_records(pool.sinks()).to_multiset(),
            ) == block_records(blocks@.take(i + 1 as int)).to_multiset());
        }
        i = i + 1;
    }
    let ghost shards0 = shards@;
    let mut tail = match pool.finalize_all() {
        Ok(tail) => tail,
        Err(e) => {
            return Err(e);
        },
    };
    let ghost tail0 = tail@;
    shards.append(&mut tail);
    proof {
        assert(blocks@.take(blocks@.len() as int) =~= blocks@);
        lemma_all_shard_records_concat(shards0, tail0);
        vstd::seq_lib::lemma_multiset_commutative(
            all_shard_records(shards0),
            all_shard_records(tail0),
        );
        assert(all_shard_records(shards@).to_multiset() =~= block_records(blocks@).to_multiset());
        // every loop-emitted shard is complete; at most one drained shard
        // follows, nonempty and under the threshold.
        assert(tail0.len() <= 1);
        assert(shards@ =~= shards0 + tail0);
        assert forall|j: int| 0 <= j < shards@.len() - 1 implies complete_shard(
            #[trigger] shards@[j],
        ) by {
            assert(j < shards0.len());
            assert(shards@[j] == shards0[j]);
        }
        assert forall|j: int| 0 <= j < shards@.len() implies 1 <= (
        #[trigger] shards@[j]).records@.len() <= ROTATION_THRESHOLD by {
            if j < shards0.len() {
                assert(complete_shard(shards0[j]));
                assert(shards@[j] == shards0[j]);
            } else {
                assert(shards@[j] == tail0[j - shards0.len()]);
            }
        }
    }
    Ok(shards)
}

/// Concatenating shard sequences concatenates their records.
pub proof fn lemma_all_shard_records_concat(a: Seq<FinishedShard>, b: Seq<FinishedShard>)
    ensures
        all_shard_records(a + b) == all_shard_records(a) + all_shard_records(b),
    decreases b.len(),
{
    if b.len() == 0 {
        assert(a + b =~= a);
        assert(all_shard_records(a) + all_shard_records(b) =~= all_shard_records(a));
    } else {
        lemma_all_shard_records_concat(a, b.drop_last());
        assert((a + b).drop_last() =~= a + b.drop_last());
        assert((a + b).last() == b.last());
        assert(all_shard_records(a) + all_shard_records(b) =~= (all_shard_records(a)
            + all_shard_records(b.drop_last())) + b.last().records@);
    }
}

/// Records of a block prefix never outnumber the records of all blocks.
pub proof fn lemma_block_records_prefix(blocks: Seq<Vec<Record>>, i: int)
    requires
        0 <= i < blocks.len(),
    ensures
        block_records(blocks.take(i + 1)).len() == block_records(blocks.take(i)).len()
            + blocks[i]@.len(),
        block_records(blocks.take(i)).len() + blocks[i]@.len() <= block_records(blocks).len(),
    decreases blocks.len() - i,
{
    assert(blocks.take(i + 1) =~= blocks.take(i).push(blocks[i]));
    lemma_block_records_push(blocks.take(i), blocks[i]);
    if i + 1 == blocks.len() {
        assert(blocks.take(i + 1) =~= blocks);
    } else {
        lemma_block_records_prefix(blocks, i + 1);
    }
}

/// A shard completed by rotation holds at least one record and at most the
/// rotation threshold of records: rotation never closes an empty shard.
pub proof fn lemma_complete_shard_bounds(s: FinishedShard)
    requires
        complete_shard(s),
    ensures
        1 <= s.records@.len() <= ROTATION_THRESHOLD,
{
}

/// A block is never split across two files when it fits: if the records open
/// in the sink before the block plus the block itself do not exceed the
/// rotation threshold, then after `Sink::append_all` either no shard was
/// produced and every record of the block is still open in the sink, or
/// exactly one shard was produced and it holds every record of the block.
pub proof fn lemma_block_not_split(
    shards: Seq<FinishedShard>,
    before: Seq<Record>,
    block: Seq<Record>,
    open_after: Seq<Record>,
)
    requires
        all_shard_records(shards) + open_after == before + block,
        forall|j: int| 0 <= j < shards.len() ==> complete_shard(#[trigger] shards[j]),
        shards.len() * (ROTATION_THRESHOLD as nat) + open_after.len() == before.len()
            + block.len(),
        before.len() + block.len() <= ROTATION_THRESHOLD,
    ensures
        shards.len() == 0 ==> open_after == before + block,
        shards.len() == 1 ==> open_after.len() == 0 && shards[0].records@ == before + block,
        shards.len() <= 1,
{
    if shards.len() == 0 {
        assert(all_shard_records(shards) =~= Seq::<Record>::empty());
        assert(open_after =~= before + block);
    } else {
        assert(shards.len() == 1);
        assert(open_after =~= Seq::<Record>::empty());
        assert(shards.drop_last() =~= Seq::<FinishedShard>::empty());
        assert(all_shard_records(shards.drop_last()) =~= Seq::<Record>::empty());
        assert(shards.last() == shards[0]);
        assert(all_shard_records(shards) =~= shards[0].records@);
        assert(shards[0].records@ =~= before + block);
    }
}

/// Rotation accounting: a fresh sink that takes exactly the threshold of
/// records rotates exactly once and keeps nothing open; one record more still
/// rotates exactly once and keeps exactly one record open. `shards` and
/// `open` are the shard count and open record count after `appended` records
/// went through one sink, as `Sink::append_all` relates them.
pub proof fn lemma_rotation_accounting(appended: nat, shards: nat, open: nat)
    requires
        shards * (ROTATION_THRESHOLD as nat) + open == appended,
        open < ROTATION_THRESHOLD,
    ensures
        appended == ROTATION_THRESHOLD ==> shards == 1 && open == 0,
        appended == ROTATION_THRESHOLD + 1 ==> shards == 1 && open == 1,
{
}

} // verus!
