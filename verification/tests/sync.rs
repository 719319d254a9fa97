use musializer::sync::AudioSync;
use std::sync::atomic::Ordering;

#[test]
fn new_sync_starts_paused_at_frame_zero() {
    let s = AudioSync::new();
    assert_eq!(s.get_current_frame(), 0);
    assert!(!s.is_playing());
    let d = AudioSync::default();
    assert_eq!(d.get_current_frame(), 0);
}

#[test]
fn handles_share_state_with_the_sync() {
    let s = AudioSync::new();
    let frame = s.frame_handle();
    let playing = s.playing_handle();
    s.set_current_frame(1234);
    s.set_playing(true);
    assert_eq!(frame.load(Ordering::Relaxed), 1234);
    assert!(playing.load(Ordering::Relaxed));
    frame.store(99, Ordering::Release);
    playing.store(false, Ordering::Release);
    assert_eq!(s.get_current_frame(), 99);
    assert!(!s.is_playing());
}

#[test]
fn window_is_right_aligned_before_playhead() {
    let layout = AudioSync::pcm_window_layout(8, 3, 4);
    assert_eq!(layout, vec![None, Some(0), Some(2), Some(4)]);
}

#[test]
fn window_holds_most_recent_frames() {
    let layout = AudioSync::pcm_window_layout(20, 9, 4);
    assert_eq!(layout, vec![Some(10), Some(12), Some(14), Some(16)]);
}

#[test]
fn window_is_silent_at_or_past_end() {
    assert_eq!(AudioSync::pcm_window_layout(8, 4, 3), vec![None, None, None]);
    assert_eq!(AudioSync::pcm_window_layout(8, 100, 2), vec![None, None]);
    assert_eq!(AudioSync::pcm_window_layout(0, 0, 2), vec![None, None]);
}

#[test]
fn window_at_start_is_silent() {
    assert_eq!(AudioSync::pcm_window_layout(8, 0, 3), vec![None, None, None]);
}

#[test]
fn window_sources_are_in_bounds() {
    for len in 0..12usize {
        for frame in 0..8usize {
            for ws in 0..6usize {
                let layout = AudioSync::pcm_window_layout(len, frame, ws);
                assert_eq!(layout.len(), ws);
                for k in layout.into_iter().flatten() {
                    assert!(k + 1 < len);
                    assert!(k / 2 < frame);
                }
            }
        }
    }
}
