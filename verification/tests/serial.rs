use std::time::{Duration, SystemTime};

use rpictl_mcp::serial::SerialRing;

fn at(seconds: u64) -> SystemTime {
    SystemTime::UNIX_EPOCH + Duration::from_secs(seconds)
}

#[test]
fn append_returns_the_cursor_and_keeps_the_end_of_long_input() {
    let mut ring = SerialRing::new(4);
    assert_eq!(ring.append(at(1), b"ab"), 0);
    assert_eq!(ring.append(at(2), b""), 2);
    assert_eq!(ring.append(at(3), b"cdefghi"), 2);
    assert_eq!(ring.next_cursor(), 9);
    let snapshot = ring.snapshot_from(0, 100);
    assert_eq!(snapshot.bytes(), b"fghi");
    assert_eq!(snapshot.chunks.len(), 1);
    assert_eq!(snapshot.chunks[0].cursor, 5);
    assert_eq!(snapshot.chunks[0].timestamp, at(3));
    assert_eq!(snapshot.next_cursor, 9);
    assert!(snapshot.truncated);
}

#[test]
fn the_oldest_bytes_make_room() {
    let mut ring = SerialRing::new(6);
    ring.append(at(1), b"abc");
    ring.append(at(2), b"de");
    ring.append(at(3), b"fgh");
    let snapshot = ring.snapshot_from(2, 100);
    let chunks: Vec<(u64, Vec<u8>)> = snapshot
        .chunks
        .iter()
        .map(|chunk| (chunk.cursor, chunk.bytes.clone()))
        .collect();
    assert_eq!(
        chunks,
        [
            (2, b"c".to_vec()),
            (3, b"de".to_vec()),
            (5, b"fgh".to_vec())
        ]
    );
    assert!(!snapshot.truncated);
}

#[test]
fn appended_bytes_are_read_back_from_the_old_cursor() {
    let mut ring = SerialRing::new(8);
    ring.append(at(1), b"123456");
    let cursor = ring.next_cursor();
    ring.append(at(2), b"7890");
    let snapshot = ring.snapshot_from(cursor, 4);
    assert_eq!(snapshot.bytes(), b"7890");
    assert_eq!(snapshot.next_cursor, 10);
    assert!(!snapshot.truncated);
}

#[test]
fn resumed_captures_concatenate() {
    let mut ring = SerialRing::new(16);
    ring.append(at(1), b"abcde");
    ring.append(at(2), b"fghij");
    let first = ring.snapshot_from(1, 3);
    assert_eq!(first.bytes(), b"bcd");
    assert!(first.truncated);
    assert_eq!(first.next_cursor, 4);
    let second = ring.snapshot_from(first.next_cursor, 4);
    assert_eq!(second.bytes(), b"efgh");
    let both = ring.snapshot_from(1, 7);
    assert_eq!(both.bytes(), b"bcdefgh");
    assert_eq!(both.next_cursor, second.next_cursor);
}

#[test]
fn cursors_beyond_the_end_give_nothing() {
    let mut ring = SerialRing::new(16);
    ring.append(at(1), b"abc");
    let snapshot = ring.snapshot_from(7, 10);
    assert!(snapshot.chunks.is_empty());
    assert_eq!(snapshot.next_cursor, 7);
    assert!(!snapshot.truncated);
    let nothing = ring.snapshot_from(0, 0);
    assert!(nothing.chunks.is_empty());
    assert!(nothing.truncated);
}

#[test]
fn generations_are_kept_apart_and_cut_at_their_start() {
    let mut ring = SerialRing::new(64);
    assert_eq!(ring.generation(), 0);
    ring.append(at(1), b"old");
    assert_eq!(ring.mark_generation(), 1);
    let empty = ring.snapshot_generation(1, 10);
    assert!(empty.chunks.is_empty());
    assert_eq!(empty.next_cursor, 3);
    assert!(!empty.truncated);
    ring.append(at(2), b"new");
    ring.append(at(3), b"er");
    let cut = ring.snapshot_generation(1, 4);
    assert_eq!(cut.bytes(), b"ewer");
    assert_eq!(cut.chunks[0].cursor, 4);
    assert_eq!(cut.next_cursor, 8);
    assert!(cut.truncated);
    let old = ring.snapshot_generation(0, 10);
    assert_eq!(old.bytes(), b"old");
    assert_eq!(old.next_cursor, 3);
    assert!(ring.snapshot_generation(2, 10).chunks.is_empty());
}

#[test]
fn copies_equal_the_original() {
    let mut ring = SerialRing::new(8);
    ring.append(at(1), b"abc");
    let snapshot = ring.snapshot_from(0, 8);
    let copy = snapshot.clone();
    assert_eq!(copy.bytes(), b"abc");
    assert_eq!(copy.next_cursor, snapshot.next_cursor);
    assert_eq!(copy.chunks[0].timestamp, at(1));
}

#[test]
fn a_generation_holds_the_end_of_all_its_inputs() {
    let mut ring = SerialRing::new(8);
    ring.append(at(1), b"oldest");
    ring.mark_generation();
    ring.append(at(2), b"ab");
    ring.append(at(3), b"");
    ring.append(at(4), b"cde");
    let all = ring.snapshot_generation(1, 100);
    assert_eq!(all.bytes(), b"abcde");
    assert_eq!(all.next_cursor, ring.next_cursor());
    assert!(!all.truncated);
    ring.append(at(5), b"fghijk");
    let held = ring.snapshot_generation(1, 8);
    assert_eq!(held.bytes(), b"defghijk");
    assert_eq!(held.next_cursor, ring.next_cursor());
    assert!(!held.truncated);
    let cut = ring.snapshot_generation(1, 3);
    assert_eq!(cut.bytes(), b"ijk");
    assert_eq!(cut.next_cursor, ring.next_cursor());
    assert!(cut.truncated);
    assert!(ring.snapshot_generation(0, 8).chunks.is_empty());
}

#[test]
fn a_past_generation_ends_at_its_last_byte() {
    let mut ring = SerialRing::new(16);
    ring.append(at(1), b"ab");
    ring.append(at(2), b"cd");
    ring.mark_generation();
    ring.append(at(3), b"ef");
    let past = ring.snapshot_generation(0, 3);
    assert_eq!(past.bytes(), b"bcd");
    assert_eq!(past.next_cursor, 4);
    assert!(past.truncated);
}

#[test]
fn a_ring_holds_the_newest_bytes_of_its_whole_history() {
    let mut ring = SerialRing::new(5);
    let mut all: Vec<u8> = Vec::new();
    for (i, input) in [&b"ab"[..], b"", b"cdefghij", b"k", b"lmn", b"opqrs", b"t"]
        .iter()
        .enumerate()
    {
        ring.append(at(i as u64), input);
        all.extend_from_slice(input);
        if i % 2 == 1 {
            ring.mark_generation();
        }
        let newest = &all[all.len() - all.len().min(5)..];
        assert_eq!(ring.snapshot_from(0, usize::MAX).bytes(), newest);
    }
}
