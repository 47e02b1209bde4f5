use shardsink::ROTATION_THRESHOLD;
use shardsink::namegen::NameAllocator;
use shardsink::pipeline::{decode_block_records, process_block, run_decoded};
use shardsink::pool::SinkPool;
use shardsink::record::{Record, RecordKind};
use shardsink::sink::SinkError;
use std::io::Read;

fn gunzip(bytes: &[u8]) -> String {
    let mut decoder = flate2::read::GzDecoder::new(bytes);
    let mut text = String::new();
    decoder.read_to_string(&mut text).unwrap();
    text
}

fn node(id: i64) -> Record {
    Record { kind: RecordKind::Node, id }
}

#[test]
fn header_then_one_data_block_gives_one_shard_in_block_order() {
    let data_block = vec![
        node(1),
        node(2),
        node(3),
        Record { kind: RecordKind::Way, id: 10 },
        Record { kind: RecordKind::Relation, id: 20 },
    ];
    let blocks = vec![vec![], data_block];
    let shards = run_decoded(&blocks).unwrap();
    assert_eq!(shards.len(), 1);
    assert_eq!(shards[0].name, b"elements_00000.txt.gz".to_vec());
    assert_eq!(gunzip(&shards[0].bytes), "node 1\nnode 2\nnode 3\nway 10\nrelation 20\n");
}

#[test]
fn one_hundred_thousand_and_one_records_give_two_shards() {
    let first: Vec<Record> = (0..70000).map(node).collect();
    let second: Vec<Record> = (70000..(ROTATION_THRESHOLD as i64 + 1)).map(node).collect();
    let shards = run_decoded(&vec![first, second]).unwrap();
    assert_eq!(shards.len(), 2);
    assert_eq!(shards[0].name, b"elements_00000.txt.gz".to_vec());
    assert_eq!(shards[1].name, b"elements_00001.txt.gz".to_vec());
    assert_eq!(gunzip(&shards[0].bytes).lines().count(), ROTATION_THRESHOLD as usize);
    let tail = gunzip(&shards[1].bytes);
    assert_eq!(tail.lines().count(), 1);
    assert_eq!(tail, format!("node {}\n", ROTATION_THRESHOLD));
}

#[test]
fn all_records_appear_exactly_once_across_shards() {
    let blocks: Vec<Vec<Record>> = vec![
        (1..=7).map(node).collect(),
        vec![],
        (8..=9).map(|i| Record { kind: RecordKind::Way, id: i }).collect(),
        vec![Record { kind: RecordKind::Relation, id: -3 }],
    ];
    let shards = run_decoded(&blocks).unwrap();
    let mut got: Vec<String> = Vec::new();
    for shard in &shards {
        for line in gunzip(&shard.bytes).lines() {
            got.push(line.to_string());
        }
    }
    got.sort();
    let mut expected: Vec<String> = Vec::new();
    for block in &blocks {
        for r in block {
            let kind = match r.kind {
                RecordKind::Node => "node",
                RecordKind::Way => "way",
                RecordKind::Relation => "relation",
            };
            expected.push(format!("{} {}", kind, r.id));
        }
    }
    expected.sort();
    assert_eq!(got, expected);
}

#[test]
fn empty_input_writes_no_shards() {
    let shards = run_decoded(&Vec::new()).unwrap();
    assert_eq!(shards.len(), 0);
}

#[test]
fn header_only_input_writes_no_shards() {
    let blocks: Vec<Vec<Record>> = vec![vec![], vec![]];
    let shards = run_decoded(&blocks).unwrap();
    assert_eq!(shards.len(), 0);
}

#[test]
fn blocks_processed_through_the_pool_reuse_one_sink() {
    let mut pool = SinkPool::new();
    let mut alloc = NameAllocator::new();
    let first = process_block(&mut pool, &mut alloc, &vec![node(1)]).unwrap();
    let second = process_block(&mut pool, &mut alloc, &vec![node(2)]).unwrap();
    assert_eq!(first.len(), 0);
    assert_eq!(second.len(), 0);
    let tail = pool.finalize_all().unwrap();
    assert_eq!(tail.len(), 1);
    assert_eq!(gunzip(&tail[0].bytes), "node 1\nnode 2\n");
}

fn blobs_from(data: &[u8]) -> Vec<osmpbf::Blob> {
    let reader = osmpbf::BlobReader::new(std::io::Cursor::new(data.to_vec()));
    reader.map(|b| b.unwrap()).collect()
}

// A minimal header blob: type "OSMHeader", whose payload is an empty header
// block carried as the blob's raw field.
fn header_blob_bytes() -> Vec<u8> {
    let payload: &[u8] = &[0x0A, 0x00];
    let mut header = vec![0x0A, 0x09];
    header.extend_from_slice(b"OSMHeader");
    header.extend_from_slice(&[0x18, payload.len() as u8]);
    let mut out = (header.len() as u32).to_be_bytes().to_vec();
    out.extend_from_slice(&header);
    out.extend_from_slice(payload);
    out
}

// A data blob whose raw payload is not a decodable primitive block.
fn malformed_data_blob_bytes() -> Vec<u8> {
    let payload: &[u8] = &[0x0A, 0x02, 0xFF, 0xFF];
    let mut header = vec![0x0A, 0x07];
    header.extend_from_slice(b"OSMData");
    header.extend_from_slice(&[0x18, payload.len() as u8]);
    let mut out = (header.len() as u32).to_be_bytes().to_vec();
    out.extend_from_slice(&header);
    out.extend_from_slice(payload);
    out
}

#[test]
fn header_blob_decodes_to_no_records() {
    let blobs = blobs_from(&header_blob_bytes());
    assert_eq!(blobs.len(), 1);
    let records = decode_block_records(&blobs[0]).unwrap();
    assert_eq!(records.len(), 0);
}

#[test]
fn malformed_data_blob_gives_the_decode_error() {
    let blobs = blobs_from(&malformed_data_blob_bytes());
    assert_eq!(blobs.len(), 1);
    let result = decode_block_records(&blobs[0]);
    assert_eq!(result, Err(SinkError::Decode));
}
