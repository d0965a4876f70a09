use historic_decode::binary_chopper::{BinaryChopper, Next};

#[test]
fn test_going_higher() {
    let versions = vec![0, 0, 0, 1, 1, 1, 1, 2, 3, 4, 4, 5];
    let mut start = 0usize;
    let end = versions.len() - 1;
    let mut changes = vec![];

    while start != end {
        let mut chopper = BinaryChopper::new((start, versions[start]), (end, versions[end]));

        while let Next::NeedsState(n) = chopper.next_value() {
            chopper.set_state_for_next_value(versions[n as usize]);
        }

        let finished = chopper.next_value().unwrap_finished();
        let ((_change_start, _start_state), (change_end, _end_state)) = finished;

        start = change_end;
        changes.push(finished);
    }

    // We should find all of the indexes at which the values change:
    assert_eq!(
        changes,
        vec![
            ((2, 0), (3, 1)),
            ((6, 1), (7, 2)),
            ((7, 2), (8, 3)),
            ((8, 3), (9, 4)),
            ((10, 4), (11, 5)),
        ]
    );
}

#[test]
fn chopper_identical_bounds_finish_immediately() {
    let chopper: BinaryChopper<u32, u32> = BinaryChopper::new((5, 7), (5, 7));
    let ((lo, lo_state), (hi, hi_state)) = chopper.next_value().unwrap_finished();
    assert_eq!((lo, lo_state), (5, 7));
    assert_eq!((hi, hi_state), (5, 7));
}

#[test]
fn chopper_adjacent_bounds_finish_immediately() {
    let chopper: BinaryChopper<u64, i32> = BinaryChopper::new((3, 1), (4, 2));
    let ((lo, lo_state), (hi, hi_state)) = chopper.next_value().unwrap_finished();
    assert_eq!((lo, lo_state), (3, 1));
    assert_eq!((hi, hi_state), (4, 2));
}
