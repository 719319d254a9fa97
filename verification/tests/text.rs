use musializer::glyph::{get_glyph_bitmap, glyph_dot, to_ascii_uppercase};
use musializer::text::{format_clock, shorten_title};

#[test]
fn glyph_for_digit_zero() {
    assert_eq!(
        get_glyph_bitmap('0'),
        [0b01110, 0b10001, 0b10011, 0b10101, 0b11001, 0b10001, 0b01110]
    );
}

#[test]
fn glyph_for_colon_and_space() {
    assert_eq!(
        get_glyph_bitmap(':'),
        [0b00000, 0b01100, 0b01100, 0b00000, 0b01100, 0b01100, 0b00000]
    );
    assert_eq!(get_glyph_bitmap(' '), [0; 7]);
}

#[test]
fn glyph_is_case_insensitive() {
    for c in 'a'..='z' {
        assert_eq!(get_glyph_bitmap(c), get_glyph_bitmap(c.to_ascii_uppercase()));
    }
    assert_eq!(to_ascii_uppercase('q'), 'Q');
    assert_eq!(to_ascii_uppercase('Q'), 'Q');
    assert_eq!(to_ascii_uppercase('7'), '7');
}

#[test]
fn unknown_glyph_is_a_box() {
    let boxed = [0b11111, 0b10001, 0b10001, 0b10001, 0b10001, 0b10001, 0b11111];
    assert_eq!(get_glyph_bitmap('@'), boxed);
    assert_eq!(get_glyph_bitmap('é'), boxed);
}

#[test]
fn glyph_rows_use_five_bits() {
    for c in (0u8..128).map(char::from) {
        assert!(get_glyph_bitmap(c).iter().all(|&row| row < 32));
    }
}

#[test]
fn clock_pads_minutes_and_seconds() {
    assert_eq!(format_clock(0), "00:00");
    assert_eq!(format_clock(45), "00:45");
    assert_eq!(format_clock(125), "02:05");
    assert_eq!(format_clock(180), "03:00");
    assert_eq!(format_clock(3599), "59:59");
}

#[test]
fn clock_shows_long_durations_with_more_minute_digits() {
    assert_eq!(format_clock(6000), "100:00");
    assert_eq!(format_clock(6061), "101:01");
    for t in [0u64, 9, 59, 60, 61, 599, 5999, 123456] {
        let s = format_clock(t);
        assert_eq!(&s[s.len() - 3..s.len() - 2], ":");
        assert_eq!(s[s.len() - 2..].parse::<u64>().unwrap(), t % 60);
        assert_eq!(s[..s.len() - 3].parse::<u64>().unwrap(), t / 60);
    }
}

#[test]
fn long_title_is_cut_with_ellipsis() {
    assert_eq!(shorten_title("Long Track Title That Truncates", 16, 13), "Long Track Ti...");
    assert_eq!(shorten_title("Long Track Title That Truncates", 18, 15), "Long Track Titl...");
}

#[test]
fn short_title_is_kept_whole() {
    assert_eq!(shorten_title("Test Song", 16, 13), "Test Song");
    assert_eq!(shorten_title("Exactly16Bytes!!", 16, 13), "Exactly16Bytes!!");
}

#[test]
fn glyph_dots_read_rows_left_to_right() {
    let one = get_glyph_bitmap('1');
    // 0b00100: only the middle dot of the top row
    let top: Vec<bool> = (0..5).map(|c| glyph_dot(&one, 0, c)).collect();
    assert_eq!(top, vec![false, false, true, false, false]);
    // 0b01110: the bottom row lights the three middle dots
    let bottom: Vec<bool> = (0..5).map(|c| glyph_dot(&one, 6, c)).collect();
    assert_eq!(bottom, vec![false, true, true, true, false]);
}
