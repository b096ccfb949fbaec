use compact_bar::layout::{decimal_label, TabSegment};

#[test]
fn segment_labels_are_one_based_decimal() {
    let seg = TabSegment::new(0);
    assert_eq!(seg.index, 0);
    assert_eq!(seg.label, "1");
    assert_eq!(seg.len(), 1);

    let seg = TabSegment::new(8);
    assert_eq!(seg.label, "9");
    assert_eq!(seg.len(), 1);

    let seg = TabSegment::new(9);
    assert_eq!(seg.label, "10");
    assert_eq!(seg.len(), 2);

    let seg = TabSegment::new(41);
    assert_eq!(seg.label, "42");
    assert_eq!(seg.len(), 2);

    let seg = TabSegment::new(99);
    assert_eq!(seg.label, "100");
    assert_eq!(seg.len(), 3);
}

#[test]
fn decimal_label_matches_std_formatting() {
    let samples: [usize; 8] = [0, 1, 9, 10, 11, 100, 1009, 987654];
    for n in samples {
        assert_eq!(decimal_label(n), n.to_string());
    }
}
