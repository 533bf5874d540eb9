use firmware_common::delta_logger::ring::{
    initial_ring, next_segment_count, plan_ring_cleanup, RingDeltaLoggerConfig, RingPruner,
    RingWriterState, SegmentPlan,
};
use firmware_common::ring_logger::{
    decode_frame, entry_kind, write_frame, EntryKind, RotateAction, SegmentCounter, TierCounter,
    TieredRingDeltaLoggerConfig, DELTA_ENTRY_TAG, FULL_ENTRY_TAG,
};

#[test]
fn initial_ring_removes_extra_files() {
    assert_eq!(initial_ring(7, 5), (2, 5));
    assert_eq!(initial_ring(5, 5), (0, 5));
    assert_eq!(initial_ring(3, 5), (0, 3));
    assert_eq!(initial_ring(0, 0), (0, 0));
}

#[test]
fn pruner_releases_oldest_of_its_type() {
    let mut p = RingPruner::new(4, 2);
    assert!(!p.release(3));
    assert!(p.release(4));
    assert!(!p.release(1));
    assert!(p.release(4));
    assert!(!p.release(4));
    assert!(!p.release(4));
}

#[test]
fn plan_ring_cleanup_marks_first_k_of_type() {
    let types = [1u16, 4, 4, 2, 4, 4];
    assert_eq!(
        plan_ring_cleanup(&types, 4, 3),
        vec![false, true, true, false, true, false]
    );
    assert_eq!(plan_ring_cleanup(&types, 4, 0), vec![false; 6]);
    assert_eq!(plan_ring_cleanup(&types, 9, 5), vec![false; 6]);
    assert_eq!(plan_ring_cleanup(&[], 4, 5), Vec::<bool>::new());
}

#[test]
fn segment_count_grows_then_rotates() {
    assert_eq!(next_segment_count(0, 3), (false, 1));
    assert_eq!(next_segment_count(2, 3), (false, 3));
    assert_eq!(next_segment_count(3, 3), (true, 3));
    assert_eq!(next_segment_count(5, 3), (true, 3));
    let mut c = 1;
    let mut removed = 0;
    for _ in 0..10 {
        let (remove, n) = next_segment_count(c, 4);
        if remove {
            removed += 1;
        }
        c = n;
    }
    assert_eq!(c, 4);
    assert_eq!(removed, 7);
}

#[test]
fn ring_writer_state_skips_clean_segments() {
    let config = RingDeltaLoggerConfig {
        seconds_per_segment: 60,
        first_segment_seconds: 10,
        segments_per_ring: 2,
    };
    let mut s = RingWriterState::new(1, config.segments_per_ring);
    assert!(matches!(s.plan_new_segment(), SegmentPlan::Skip));
    assert!(s.get_writer());
    assert!(!s.get_writer());
    assert!(matches!(
        s.plan_new_segment(),
        SegmentPlan::Create { remove_oldest: false }
    ));
    s.segment_created();
    assert!(matches!(s.plan_new_segment(), SegmentPlan::Skip));
    assert!(s.get_writer());
    assert!(matches!(
        s.plan_new_segment(),
        SegmentPlan::Create { remove_oldest: true }
    ));
    s.segment_created();
    assert!(s.get_writer());
    assert!(matches!(
        s.plan_new_segment(),
        SegmentPlan::Create { remove_oldest: true }
    ));
}

#[test]
fn segment_counter_rotates_full_segments() {
    let mut c = SegmentCounter::new(2, 2, 1);
    assert!(matches!(c.on_log(), RotateAction::Keep));
    assert!(matches!(c.on_log(), RotateAction::Keep));
    assert!(matches!(
        c.on_log(),
        RotateAction::Rotate { remove_oldest: false }
    ));
    assert_eq!(c.current_segment_i_value(), 2);
    assert!(matches!(c.on_log(), RotateAction::Keep));
    assert!(matches!(
        c.on_log(),
        RotateAction::Rotate { remove_oldest: true }
    ));
    assert_eq!(c.current_segment_i_value(), 3);
}

#[test]
fn tier_counter_takes_every_ratio_th_reading() {
    let mut t = TierCounter::new(3);
    let picks: Vec<bool> = (0..7).map(|_| t.on_log()).collect();
    assert_eq!(picks, vec![true, false, false, true, false, false, true]);
    let mut t = TierCounter::new(0);
    assert!(t.on_log());
    assert!(t.on_log());
    let mut t = TierCounter::new(1);
    assert!(t.on_log());
    assert!(t.on_log());
}

#[test]
fn tiered_config_ratio_and_sizes() {
    let config = TieredRingDeltaLoggerConfig::new(60, 600, 20, 3600);
    assert_eq!(config.tier_2_ratio(), 3);
    let p = config.tier_params(10, 2, 16);
    assert_eq!(p.tier_1_logs_per_segment, 600);
    assert_eq!(p.tier_1_segments_per_ring, 10);
    assert_eq!(p.tier_2_logs_per_segment, 40);
    assert_eq!(p.tier_2_segments_per_ring, 180);
    assert_eq!(p.max_total_file_size, (10 * 600 + 2 * 3600) * 16);
    assert_eq!(TieredRingDeltaLoggerConfig::new(50, 1, 20, 1).tier_2_ratio(), 2);
}

#[test]
fn frames_read_back() {
    let mut out = Vec::new();
    write_frame(true, &[1, 2, 3], &mut out);
    write_frame(false, &[9], &mut out);
    assert_eq!(out, vec![FULL_ENTRY_TAG, 1, 2, 3, DELTA_ENTRY_TAG, 9]);
    assert_eq!(decode_frame(&out, 3, 1), Some((EntryKind::Full, 3)));
    assert_eq!(decode_frame(&out[4..], 3, 1), Some((EntryKind::Delta, 1)));
    assert_eq!(decode_frame(&out[..3], 3, 1), None);
    assert_eq!(decode_frame(&[0x00, 1, 2, 3], 3, 1), None);
    assert_eq!(decode_frame(&[], 3, 1), None);
    assert_eq!(entry_kind(0x69), Some(EntryKind::Full));
    assert_eq!(entry_kind(0x42), Some(EntryKind::Delta));
    assert_eq!(entry_kind(0x43), None);
}

#[test]
fn segment_counter_run_rotates_every_lps_plus_one() {
    // 3 entries per segment, 2 segments per ring, none found at start-up
    let mut c = SegmentCounter::new(3, 2, 0);
    let mut files = 1;
    for call in 1..=13u32 {
        let r = c.on_log();
        let expect_rotate = call > 3 && (call - 1) % 3 == 0;
        match r {
            RotateAction::Keep => assert!(!expect_rotate),
            RotateAction::Rotate { remove_oldest } => {
                assert!(expect_rotate);
                if !remove_oldest {
                    files += 1;
                }
            }
        }
        assert_eq!(c.current_segment_i_value(), (call - 1) / 3);
        assert!(files <= 3);
    }
    assert_eq!(files, 3);
}

#[test]
fn frames_decode_in_order_then_stop() {
    let mut out = Vec::new();
    write_frame(false, &[7], &mut out);
    write_frame(true, &[1, 2, 3], &mut out);
    write_frame(false, &[8], &mut out);
    let mut at = 0;
    let mut got = Vec::new();
    while let Some((k, len)) = decode_frame(&out[at..], 3, 1) {
        got.push((k, out[at + 1..at + 1 + len].to_vec()));
        at += 1 + len;
    }
    assert_eq!(
        got,
        vec![
            (EntryKind::Delta, vec![7]),
            (EntryKind::Full, vec![1, 2, 3]),
            (EntryKind::Delta, vec![8]),
        ]
    );
    assert_eq!(at, out.len());
}
