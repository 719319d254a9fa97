use musializer::bars::{bar_rows, peak_cap_rows, spectrum_bar_columns, BAR_SPACING};

#[test]
fn eighty_bars_in_a_640_pixel_frame() {
    let cols = spectrum_bar_columns(640, 32, 80).unwrap();
    assert_eq!(cols.len(), 80);
    assert_eq!(cols[0], (32, 36));
    assert_eq!(cols[1], (39, 43));
    assert_eq!(cols[79], (585, 589));
}

#[test]
fn bars_are_evenly_spaced_without_overlap() {
    let cols = spectrum_bar_columns(1920, 96, 64).unwrap();
    for pair in cols.windows(2) {
        assert_eq!(pair[0].1 + BAR_SPACING, pair[1].0);
        assert_eq!(pair[0].1 - pair[0].0, pair[1].1 - pair[1].0);
    }
    assert!(cols.last().unwrap().1 <= 1920 - 96);
}

#[test]
fn crowded_bars_keep_two_pixels() {
    let cols = spectrum_bar_columns(100, 5, 80).unwrap();
    assert_eq!(cols[0], (5, 7));
    assert_eq!(cols[79], (400, 402));
}

#[test]
fn overflowing_layout_is_rejected() {
    assert_eq!(spectrum_bar_columns(u32::MAX, 0, 1), None);
    assert_eq!(spectrum_bar_columns(u32::MAX - 3, 0, 1), Some(vec![(0, u32::MAX - 3)]));
    assert_eq!(spectrum_bar_columns(10, 0, u32::MAX as usize), None);
}

#[test]
fn bar_and_cap_rows() {
    assert_eq!(bar_rows(100, 30), (70, 100));
    assert_eq!(bar_rows(10, 30), (0, 10));
    assert_eq!(peak_cap_rows(100, 20), (73, 76));
    assert_eq!(peak_cap_rows(5, 20), (0, 0));
    assert_eq!(peak_cap_rows(6, 0), (0, 2));
}
