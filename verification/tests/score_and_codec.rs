use mcts_core::hash_table::HashTable;
use mcts_core::puct::isqrt64;
use mcts_core::sample::{decode_samples, encode_samples, SampleRecord, RECORD_BYTES};
use mcts_core::score::{Score, ScoreSum, SCORE_UNIT};
use mcts_core::search_limits::SearchLimits;
use mcts_core::search_stats::SearchStats;

#[test]
fn reversal_swaps_perspective() {
    let s = Score::new(200, 30);
    let r = s.reversed();
    assert_eq!(r.win, SCORE_UNIT - 200 - 30);
    assert_eq!(r.draw, 30);
}

#[test]
fn reversal_is_involution_bit_for_bit() {
    let cases = [(0u16, 0u16), (256, 0), (0, 256), (200, 30), (1, 255), (128, 128)];
    for (w, d) in cases {
        let s = Score::new(w, d);
        assert_eq!(s.reversed().reversed(), s);
    }
}

#[test]
fn score_constants_and_scalar() {
    assert_eq!(Score::won().scalar(), 512);
    assert_eq!(Score::lost().scalar(), 0);
    assert_eq!(Score::drawn().scalar(), 256);
    assert_eq!(Score::new(100, 50).scalar(), 250);
}

#[test]
fn sanitize_clips_out_of_range_pairs() {
    let s = Score::sanitized(300, 500);
    assert_eq!(s.draw, 256);
    assert_eq!(s.win, 0);
    let t = Score::sanitized(200, 100);
    assert_eq!(t.win, 156);
    assert_eq!(t.draw, 100);
    let u = Score::sanitized(10, 20);
    assert_eq!((u.win, u.draw), (10, 20));
}

#[test]
fn score_sum_saturates() {
    let mut t = ScoreSum::zero();
    t.add(Score::new(256, 0));
    t.add(Score::new(100, 56));
    assert_eq!((t.win, t.draw), (356, 56));
}

#[test]
fn cache_store_then_probe_returns_the_score() {
    let mut table = HashTable::new(1024);
    let key = 0x1234_5678_9abc_def0u64;
    let s = Score::new(77, 11);
    table.store(key, s);
    assert_eq!(table.probe(key), Some(s));
}

#[test]
fn cache_miss_on_unrelated_key() {
    let mut table = HashTable::new(1024);
    table.store(0x1111_0000_0000_0001, Score::new(9, 9));
    // Same slot cannot be guaranteed, but a fresh table position with a
    // different verification tag must miss.
    assert_eq!(table.probe(0x2222_0000_0000_0001), None);
}

#[test]
fn cache_collision_overwrites() {
    let mut table = HashTable::new(8);
    // One entry: every key maps to slot zero.
    let a = 0x0100_0000_0000_0000u64;
    let b = 0x0200_0000_0000_0000u64;
    table.store(a, Score::new(1, 0));
    table.store(b, Score::new(2, 0));
    assert_eq!(table.probe(b), Some(Score::new(2, 0)));
    assert_eq!(table.probe(a), None);
}

#[test]
fn cache_clear_and_resize() {
    let mut table = HashTable::new(160);
    table.store(0xdead_beef_dead_beef, Score::new(5, 5));
    table.clear();
    // A zeroed slot only matches keys whose high half is zero.
    assert_eq!(table.probe(0xdead_beef_dead_beef), None);
    table.resize(80);
    assert_eq!(table.probe(0xdead_beef_dead_beef), None);
}

#[test]
fn isqrt_exact_values() {
    assert_eq!(isqrt64(0), 0);
    assert_eq!(isqrt64(1), 1);
    assert_eq!(isqrt64(15), 3);
    assert_eq!(isqrt64(16), 4);
    assert_eq!(isqrt64(u64::MAX), 0xFFFF_FFFF);
}

fn sample(seed: u64, stm: bool, result: u8) -> SampleRecord {
    SampleRecord {
        bb0: seed,
        bb1: seed.wrapping_mul(3),
        bb2: !seed,
        bb3: seed.rotate_left(17),
        stm_white: stm,
        score: Score::new((seed % 200) as u16, (seed % 50) as u16),
        result,
    }
}

#[test]
fn codec_round_trip_is_exact() {
    let records = vec![sample(1, true, 0), sample(0xffee_ddcc_bbaa_9988, false, 1), sample(42, true, 2)];
    let blob = encode_samples(&records);
    assert_eq!(blob.len(), records.len() * RECORD_BYTES);
    let decoded = decode_samples(&blob).expect("well-formed blob");
    assert_eq!(decoded, records);
    let blob2 = encode_samples(&decoded);
    assert_eq!(blob2, blob);
}

#[test]
fn codec_rejects_ragged_and_malformed_blobs() {
    let records = vec![sample(7, false, 1)];
    let mut blob = encode_samples(&records);
    blob.push(0);
    assert!(decode_samples(&blob).is_none());
    blob.pop();
    let last = blob.len() - 1;
    blob[last] = 3; // result byte out of range
    assert!(decode_samples(&blob).is_none());
    blob[last] = 1;
    assert!(decode_samples(&blob).is_some());
}

#[test]
fn limits_compose_by_logical_or() {
    let mut stats = SearchStats::new();
    stats.add_iteration(3);
    stats.add_iteration(5);
    let mut limits = SearchLimits::new();
    assert!(!limits.is_limit_reached(&stats, 1_000_000));
    limits.add_nodes(10);
    assert!(!limits.is_limit_reached(&stats, 9));
    assert!(limits.is_limit_reached(&stats, 10));
    limits.add_iters(2);
    assert!(limits.is_limit_reached(&stats, 0));
}

#[test]
fn stats_track_depth_and_average() {
    let mut stats = SearchStats::new();
    assert_eq!(stats.avg_depth(), 0);
    stats.add_iteration(3);
    stats.add_iteration(5);
    stats.add_iteration(4);
    assert_eq!(stats.iters, 3);
    assert_eq!(stats.max_depth, 5);
    assert_eq!(stats.avg_depth(), 4);
}
