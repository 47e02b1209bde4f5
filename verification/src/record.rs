use vstd::prelude::*;
use crate::text::{dec_bytes, push_dec};

verus! {

/// The kind of one record extracted from a data block. Dense points share the
/// `Node` kind with plain points.
#[derive(Clone, Copy, Debug, PartialEq, Eq, Structural)]
pub enum RecordKind {
    Node,
    Way,
    Relation,
}

/// One typed record: a kind and a 64-bit identifier.
#[derive(Clone, Copy, Debug, PartialEq, Eq, Structural)]
pub struct Record {
    pub kind: RecordKind,
    pub id: i64,
}

/// The kind's name as it appears at the start of an output line.
pub open spec fn kind_bytes(k: RecordKind) -> Seq<u8> {
    match k {
        RecordKind::Node => seq![110u8, 111u8, 100u8, 101u8],
        RecordKind::Way => seq![119u8, 97u8, 121u8],
        RecordKind::Relation => seq![114u8, 101u8, 108u8, 97u8, 116u8, 105u8, 111u8, 110u8],
    }
}

/// The decimal form of a signed identifier, with a minus sign when negative.
pub open spec fn int_bytes(i: int) -> Seq<u8> {
    if i < 0 {
        seq![45u8] + dec_bytes((-i) as nat)
    } else {
        dec_bytes(i as nat)
    }
}

/// The output line for one record: `<kind> <id>` followed by a newline.
pub open spec fn line_bytes(r: Record) -> Seq<u8> {
    kind_bytes(r.kind) + seq![32u8] + int_bytes(r.id as int) + seq![10u8]
}

/// The concatenation of the output lines of a sequence of records.
pub open spec fn lines_bytes(rs: Seq<Record>) -> Seq<u8>
    decreases rs.len(),
{
    if rs.len() == 0 {
        Seq::empty()
    } else {
        lines_bytes(rs.drop_last()) + line_bytes(rs.last())
    }
}

/// Appending one record appends exactly its line.
pub proof fn lemma_lines_bytes_push(rs: Seq<Record>, r: Record)
    ensures
        lines_bytes(rs.push(r)) == lines_bytes(rs) + line_bytes(r),
{
    assert(rs.push(r).drop_last() =~= rs);
    assert(rs.push(r).last() == r);
}

/// Builds the output line for one record.
pub fn record_line(r: &Record) -> (out: Vec<u8>)
    ensures
        out@ == line_bytes(*r),
{
    let mut out: Vec<u8> = Vec::new();
    match r.kind {
        RecordKind::Node => {
            out.push(110u8);
            out.push(111u8);
            out.push(100u8);
            out.push(101u8);
        },
        RecordKind::Way => {
            out.push(119u8);
            out.push(97u8);
            out.push(121u8);
        },
        RecordKind::Relation => {
            out.push(114u8);
            out.push(101u8);
            out.push(108u8);
            out.push(97u8);
            out.push(116u8);
            out.push(105u8);
            out.push(111u8);
            out.push(110u8);
        },
    }
    assert(out@ =~= kind_bytes(r.kind));
    out.push(32u8);
    if r.id < 0 {
        out.push(45u8);
        let magnitude: u64 = ((-(r.id + 1)) as u64) + 1;
        assert(magnitude as nat == (-(r.id as int)) as nat);
        push_dec(&mut out, magnitude);
        assert(out@ =~= kind_bytes(r.kind) + seq![32u8] + int_bytes(r.id as int));
    } else {
        push_dec(&mut out, r.id as u64);
        assert(out@ =~= kind_bytes(r.kind) + seq![32u8] + int_bytes(r.id as int));
    }
    out.push(10u8);
    assert(out@ =~= line_bytes(*r));
    out
}

} // verus!
