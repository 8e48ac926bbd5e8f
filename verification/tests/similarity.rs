use skmotion::helper::is_different;

fn tolerance(sensitivity: f64, len: usize) -> usize {
    (sensitivity * len as f64).floor() as usize
}

#[test]
fn empty_baseline_is_always_different() {
    let frame = vec![1u8, 2, 3, 4];
    let last: Vec<u8> = Vec::new();
    assert!(is_different(&frame, &last, 0));
    assert!(is_different(&frame, &last, 4));
    assert!(is_different(&frame, &last, usize::MAX));
    let nothing: Vec<u8> = Vec::new();
    assert!(is_different(&nothing, &last, 0));
}

#[test]
fn identical_frames_are_not_different() {
    let frame: Vec<u8> = (0..200u32).map(|i| (i % 251) as u8).collect();
    let last = frame.clone();
    for sensitivity in [0.0, 0.001, 0.25, 0.5, 1.0] {
        let acceptable = tolerance(sensitivity, frame.len());
        assert!(!is_different(&frame, &last, acceptable));
    }
}

#[test]
fn different_iff_mismatches_exceed_tolerance() {
    let last = vec![7u8; 1000];
    for k in [0usize, 1, 2, 9, 10, 11, 500, 1000] {
        let mut frame = last.clone();
        for byte in frame.iter_mut().take(k) {
            *byte = 8;
        }
        for sensitivity in [0.0, 0.001, 0.01, 0.5, 1.0] {
            let acceptable = tolerance(sensitivity, frame.len());
            assert_eq!(is_different(&frame, &last, acceptable), k > acceptable);
        }
    }
}

#[test]
fn zero_tolerance_catches_a_single_byte() {
    let last = vec![0u8; 64];
    let mut frame = last.clone();
    frame[63] = 1;
    assert!(is_different(&frame, &last, 0));
    assert!(!is_different(&frame, &last, 1));
}

#[test]
fn full_tolerance_never_triggers() {
    let last = vec![0u8; 32];
    let frame = vec![255u8; 32];
    assert!(!is_different(&frame, &last, tolerance(1.0, frame.len())));
    assert!(is_different(&frame, &last, 31));
}

#[test]
fn only_paired_bytes_are_compared() {
    let last = vec![1u8, 2, 3];
    let longer = vec![1u8, 2, 3, 9, 9, 9, 9];
    assert!(!is_different(&longer, &last, 0));
    let shorter = vec![1u8, 9];
    assert!(is_different(&shorter, &last, 0));
    assert!(!is_different(&shorter, &last, 1));
    let nothing: Vec<u8> = Vec::new();
    assert!(!is_different(&nothing, &last, 0));
}
