//! Playback position shared between the audio output callback and the visualizer,
//! and the layout of the sample window that the visualizer analyses.
use std::sync::atomic::{AtomicBool, AtomicUsize};
use std::sync::atomic::Ordering;
use std::sync::Arc;
use vstd::prelude::*;

verus! {

/// Thread-safe synchronization primitive coordinating the audio playback
/// position with the visualizer.
///
/// Both values live in atomics shared with the audio output thread through the
/// handles below, so a read returns whatever that thread stored last: no
/// contract here promises the value a read gives back.
pub struct AudioSync {
    /// Playback head measured in stereo sample pairs (frames).
    current_frame: Arc<AtomicUsize>,
    /// Whether playback is currently active.
    is_playing: Arc<AtomicBool>,
}

/// Number of whole stereo frames in an interleaved buffer of `num_samples` samples.
pub open spec fn frame_count(num_samples: nat) -> nat {
    num_samples / 2
}

/// Where slot `j` of an analysis window of `window_size` slots takes its audio
/// from, when the playhead is at `current_frame` in an interleaved stereo buffer of
/// `num_samples` samples: `Some(k)` means the slot holds the mono mix of samples
/// `k` (left) and `k + 1` (right); `None` means the slot is silent.
///
/// The window ends just before the playhead and holds the most recent frames,
/// right-aligned: when fewer than `window_size` frames precede the playhead the
/// leading slots stay silent. A playhead at or past the end of the audio (or an
/// empty buffer) gives an all-silent window.
pub open spec fn window_source(
    num_samples: nat,
    current_frame: nat,
    window_size: nat,
    j: int,
) -> Option<usize> {
    if num_samples == 0 || current_frame >= frame_count(num_samples) {
        None
    } else {
        let filled = if current_frame < window_size { current_frame } else { window_size };
        let silent = window_size - filled;
        if j < silent {
            None
        } else {
            Some(((current_frame - filled + (j - silent)) * 2) as usize)
        }
    }
}

/// Law: the analysis window is the `window_size` stereo frames that end just
/// before the playhead, in order. Slot `j` holds frame
/// `current_frame - window_size + j` (its left sample at twice that index), and is
/// silent exactly when that frame would lie before the start of the audio; so no
/// slot is silent once the playhead is at least a window into the audio. A
/// playhead at or past the end of the audio gives silence throughout.
pub proof fn lemma_window_is_latest_frames(num_samples: nat, current_frame: nat, window_size: nat, j: int)
    requires
        0 <= j < window_size,
    ensures
        current_frame < frame_count(num_samples) ==> window_source(
            num_samples,
            current_frame,
            window_size,
            j,
        ) == if current_frame + j < window_size {
            None
        } else {
            Some((2 * (current_frame + j - window_size)) as usize)
        },
        current_frame >= frame_count(num_samples) ==> window_source(
            num_samples,
            current_frame,
            window_size,
            j,
        ) is None,
{
}

/// Calls `Arc::clone`. Trusted: the documentation of `Arc::clone` says it makes
/// another pointer to the same allocation, so the clone refers to the very value
/// `a` refers to.
#[verifier::external_body]
fn share<T>(a: &Arc<T>) -> (r: Arc<T>)
    ensures
        r == *a,
{
    Arc::clone(a)
}

impl AudioSync {
    /// Creates a new `AudioSync` at frame 0 in the paused state.
    pub fn new() -> (s: Self) {
        AudioSync {
            current_frame: Arc::new(AtomicUsize::new(0)),
            is_playing: Arc::new(AtomicBool::new(false)),
        }
    }

    /// The shared atomic that holds the playback frame.
    pub closed spec fn frame_cell(&self) -> Arc<AtomicUsize> {
        self.current_frame
    }

    /// The shared atomic that holds the playing flag.
    pub closed spec fn playing_cell(&self) -> Arc<AtomicBool> {
        self.is_playing
    }

    /// A shared handle to the atomic frame position, for the audio thread.
    pub fn frame_handle(&self) -> (h: Arc<AtomicUsize>)
        ensures
            h == self.frame_cell(),
    {
        share(&self.current_frame)
    }

    /// A shared handle to the atomic playing flag, for the audio thread.
    pub fn playing_handle(&self) -> (h: Arc<AtomicBool>)
        ensures
            h == self.playing_cell(),
    {
        share(&self.is_playing)
    }

    /// Loads the current playback frame position.
    pub fn get_current_frame(&self) -> usize {
        self.current_frame.load(Ordering::Relaxed)
    }

    /// Stores a new playback frame position.
    pub fn set_current_frame(&self, frame: usize) {
        self.current_frame.store(frame, Ordering::Release);
    }

    /// Loads the playing flag.
    pub fn is_playing(&self) -> bool {
        self.is_playing.load(Ordering::Relaxed)
    }

    /// Stores the playing flag.
    pub fn set_playing(&self, playing: bool) {
        self.is_playing.store(playing, Ordering::Release);
    }

    /// For each slot of an analysis window of `window_size` samples, the index of
    /// the left sample of the stereo frame it mixes down, or `None` for a silent
    /// slot (see `window_source`).
    pub fn pcm_window_layout(num_samples: usize, current_frame: usize, window_size: usize) -> (sources: Vec<Option<usize>>)
        ensures
            sources@.len() == window_size,
            forall|j: int|
                0 <= j < window_size ==> #[trigger] sources@[j] == window_source(
                    num_samples as nat,
                    current_frame as nat,
                    window_size as nat,
                    j,
                ),
            forall|j: int|
                0 <= j < window_size ==> (#[trigger] sources@[j] matches Some(k) ==> k + 1
                    < num_samples),
    {
        let mut sources: Vec<Option<usize>> = Vec::with_capacity(window_size);
        let total_frames = num_samples / 2;
        let active = num_samples != 0 && current_frame < total_frames;
        let filled: usize = if current_frame < window_size { current_frame } else { window_size };
        let silent: usize = window_size - filled;
        let start_frame: usize = current_frame - filled;
        let mut j: usize = 0;
        while j < window_size
            invariant
                j <= window_size,
                sources@.len() == j,
                total_frames == num_samples / 2,
                active == (num_samples != 0 && current_frame < total_frames),
                filled == if current_frame < window_size { current_frame } else { window_size },
                silent == window_size - filled,
                start_frame == current_frame - filled,
                forall|i: int|
                    0 <= i < j ==> #[trigger] sources@[i] == window_source(
                        num_samples as nat,
                        current_frame as nat,
                        window_size as nat,
                        i,
                    ),
            decreases window_size - j,
        {
            if active && j >= silent {
                let frame: usize = start_frame + (j - silent);
                sources.push(Some(frame * 2));
            } else {
                sources.push(None);
            }
            j = j + 1;
        }
        sources
    }
}

impl Default for AudioSync {
    fn default() -> (s: Self) {
        Self::new()
    }
}

} // verus!
