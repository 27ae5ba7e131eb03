use statuspage::{clamp_samples, segment_days, SegmentKind};

#[test]
fn segment_count_is_fixed_for_empty_input() {
    let samples = clamp_samples(&vec![]);
    let segs = segment_days(&samples, 1440, 90);
    assert_eq!(segs.len(), 90);
    for seg in &segs {
        assert_eq!(seg.kind, SegmentKind::NoData);
        assert_eq!(seg.description, "No data");
    }
}

#[test]
fn segment_count_is_fixed_for_one_sample() {
    let samples = clamp_samples(&vec![7]);
    let segs = segment_days(&samples, 1440, 90);
    assert_eq!(segs.len(), 90);
}

#[test]
fn segment_count_is_fixed_for_long_input() {
    let samples = clamp_samples(&vec![3; 200000]);
    let segs = segment_days(&samples, 1440, 90);
    assert_eq!(segs.len(), 90);
}

#[test]
fn ten_days_of_history_pad_eighty_in_front() {
    let samples = clamp_samples(&vec![5; 1440 * 10]);
    let segs = segment_days(&samples, 1440, 90);
    assert_eq!(segs.len(), 90);
    for seg in &segs[..80] {
        assert_eq!(seg.kind, SegmentKind::NoData);
        assert_eq!(seg.description, "No data");
    }
    for seg in &segs[80..] {
        assert_eq!(seg.kind, SegmentKind::Up);
        assert_eq!(seg.description, "100.0%");
    }
}

#[test]
fn mostly_down_day_is_down_with_uptime_description() {
    let samples = clamp_samples(&vec![0, 0, 0, 5, 5]);
    let segs = segment_days(&samples, 5, 1);
    assert_eq!(segs.len(), 1);
    assert_eq!(segs[0].kind, SegmentKind::Down);
    assert_eq!(segs[0].description, "40.0%");
}

#[test]
fn classification_boundaries() {
    // Exactly a quarter down stays up.
    let segs = segment_days(&clamp_samples(&vec![0, 5, 5, 5]), 4, 1);
    assert_eq!(segs[0].kind, SegmentKind::Up);
    assert_eq!(segs[0].description, "75.0%");
    // Exactly half down is partial, not down.
    let segs = segment_days(&clamp_samples(&vec![0, 0, 5, 5]), 4, 1);
    assert_eq!(segs[0].kind, SegmentKind::Partial);
    assert_eq!(segs[0].description, "50.0%");
    // Three quarters down is down.
    let segs = segment_days(&clamp_samples(&vec![0, 0, 0, 5]), 4, 1);
    assert_eq!(segs[0].kind, SegmentKind::Down);
    assert_eq!(segs[0].description, "25.0%");
}

#[test]
fn partial_last_day_bucket_is_classified_alone() {
    // Six samples at four per day: one full day, then a two-sample day
    // that is half down.
    let samples = clamp_samples(&vec![5, 5, 5, 5, 0, 5]);
    let segs = segment_days(&samples, 4, 3);
    assert_eq!(segs.len(), 3);
    assert_eq!(segs[0].kind, SegmentKind::NoData);
    assert_eq!(segs[1].kind, SegmentKind::Up);
    assert_eq!(segs[1].description, "100.0%");
    assert_eq!(segs[2].kind, SegmentKind::Partial);
    assert_eq!(segs[2].description, "50.0%");
}
