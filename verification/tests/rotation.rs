use shardsink::ROTATION_THRESHOLD;
use shardsink::namegen::NameAllocator;
use shardsink::record::{Record, RecordKind};
use shardsink::sink::Sink;
use std::io::Read;

fn gunzip(bytes: &[u8]) -> String {
    let mut decoder = flate2::read::GzDecoder::new(bytes);
    let mut text = String::new();
    decoder.read_to_string(&mut text).unwrap();
    text
}

fn rec(id: i64) -> Record {
    Record { kind: RecordKind::Node, id }
}

#[test]
fn threshold_appends_trigger_exactly_one_rotation() {
    let mut alloc = NameAllocator::new();
    let mut sink = Sink::new(&mut alloc);
    let mut rotations = 0usize;
    let mut rotated_shard = None;
    for i in 0..ROTATION_THRESHOLD {
        if let Some(shard) = sink.append(&mut alloc, rec(i as i64)).unwrap() {
            rotations += 1;
            rotated_shard = Some(shard);
        }
    }
    assert_eq!(rotations, 1);
    let shard = rotated_shard.unwrap();
    assert_eq!(shard.name, b"elements_00000.txt.gz".to_vec());
    let text = gunzip(&shard.bytes);
    assert_eq!(text.lines().count(), ROTATION_THRESHOLD as usize);
    // the record that triggered the rotation is the shard's last line
    assert_eq!(text.lines().last().unwrap(), format!("node {}", ROTATION_THRESHOLD - 1));
    // the sink is back to an empty stream; the shutdown drain skips it, so
    // no empty shard is ever finalized
    let mut pool = shardsink::pool::SinkPool::new();
    pool.release(sink);
    let tail = pool.finalize_all().unwrap();
    assert_eq!(tail.len(), 0);
}

#[test]
fn drain_skips_empty_sinks_and_keeps_the_rest() {
    let mut alloc = NameAllocator::new();
    let mut pool = shardsink::pool::SinkPool::new();
    let empty = Sink::new(&mut alloc);
    let mut busy = Sink::new(&mut alloc);
    busy.append(&mut alloc, rec(7)).unwrap();
    pool.release(empty);
    pool.release(busy);
    let shards = pool.finalize_all().unwrap();
    assert_eq!(shards.len(), 1);
    assert_eq!(shards[0].name, b"elements_00001.txt.gz".to_vec());
    assert_eq!(gunzip(&shards[0].bytes), "node 7
");
}

#[test]
fn threshold_plus_one_leaves_one_record_in_the_new_shard() {
    let mut alloc = NameAllocator::new();
    let mut sink = Sink::new(&mut alloc);
    let mut rotations = 0usize;
    for i in 0..(ROTATION_THRESHOLD + 1) {
        if sink.append(&mut alloc, rec(i as i64)).unwrap().is_some() {
            rotations += 1;
        }
    }
    assert_eq!(rotations, 1);
    let tail = sink.finalize().unwrap();
    let text = gunzip(&tail.bytes);
    assert_eq!(text, format!("node {}\n", ROTATION_THRESHOLD));
}

#[test]
fn append_all_splits_blocks_only_at_the_threshold() {
    let mut alloc = NameAllocator::new();
    let mut sink = Sink::new(&mut alloc);
    let block: Vec<Record> = (0..(2 * ROTATION_THRESHOLD + 3) as i64).map(rec).collect();
    let shards = sink.append_all(&mut alloc, &block).unwrap();
    assert_eq!(shards.len(), 2);
    for shard in &shards {
        assert_eq!(gunzip(&shard.bytes).lines().count(), ROTATION_THRESHOLD as usize);
    }
    let tail = sink.finalize().unwrap();
    assert_eq!(gunzip(&tail.bytes).lines().count(), 3);
}

#[test]
fn small_block_stays_in_one_shard() {
    let mut alloc = NameAllocator::new();
    let mut sink = Sink::new(&mut alloc);
    let block: Vec<Record> = (1..=5).map(rec).collect();
    let shards = sink.append_all(&mut alloc, &block).unwrap();
    assert_eq!(shards.len(), 0);
    let tail = sink.finalize().unwrap();
    assert_eq!(gunzip(&tail.bytes), "node 1\nnode 2\nnode 3\nnode 4\nnode 5\n");
}

#[test]
fn finalize_drains_every_pooled_sink_in_order() {
    let mut alloc = NameAllocator::new();
    let mut pool = shardsink::pool::SinkPool::new();
    let mut first = Sink::new(&mut alloc);
    let mut second = Sink::new(&mut alloc);
    first.append(&mut alloc, rec(1)).unwrap();
    second.append(&mut alloc, rec(2)).unwrap();
    pool.release(first);
    pool.release(second);
    let shards = pool.finalize_all().unwrap();
    assert_eq!(shards.len(), 2);
    assert_eq!(shards[0].name, b"elements_00000.txt.gz".to_vec());
    assert_eq!(gunzip(&shards[0].bytes), "node 1\n");
    assert_eq!(shards[1].name, b"elements_00001.txt.gz".to_vec());
    assert_eq!(gunzip(&shards[1].bytes), "node 2\n");
}
