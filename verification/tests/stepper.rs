use musializer::stepper::OfflineStepper;

#[test]
fn steps_hand_out_each_frame_once_in_order() {
    let mut s = OfflineStepper::new(60, 735, 4);
    assert_eq!(s.total_frames(), 4);
    assert_eq!(s.fps(), 60);
    assert_eq!(s.next_step(), Some((0, 0)));
    assert_eq!(s.next_step(), Some((1, 735)));
    assert_eq!(s.next_step(), Some((2, 1470)));
    assert_eq!(s.next_step(), Some((3, 2205)));
    assert_eq!(s.next_step(), None);
    assert_eq!(s.next_step(), None);
}

#[test]
fn at_least_one_frame_is_produced() {
    let mut s = OfflineStepper::new(30, 1470, 0);
    assert_eq!(s.total_frames(), 1);
    assert_eq!(s.next_step(), Some((0, 0)));
    assert_eq!(s.next_step(), None);
}

#[test]
fn long_run_covers_every_frame() {
    let mut s = OfflineStepper::new(60, 800, 1000);
    let mut seen = 0usize;
    while let Some((n, pos)) = s.next_step() {
        assert_eq!(n, seen);
        assert_eq!(pos, n * 800);
        seen += 1;
    }
    assert_eq!(seen, 1000);
}

#[test]
fn single_frame_accepts_any_frame_length() {
    let mut s = OfflineStepper::new(60, usize::MAX, 1);
    assert_eq!(s.next_step(), Some((0, 0)));
    assert_eq!(s.next_step(), None);
}
