//! Deterministic frame stepping for offline video export.
//!
//! Each video frame covers `samples_per_frame` audio frames; the stepper hands
//! out the video frames one by one, in order, each with the audio frame at which
//! its analysis window ends.
use vstd::prelude::*;

verus! {

/// One step of a stepper at video frame `position` of `total` frames, each
/// `stride` audio frames long: the frame handed out (its number and the audio
/// frame its window ends at) and the position after it; past the last frame
/// nothing is handed out and the position stays.
pub open spec fn advance(position: nat, total: nat, stride: nat) -> (nat, Option<(usize, usize)>) {
    if position < total {
        (position + 1, Some((position as usize, (position * stride) as usize)))
    } else {
        (position, None)
    }
}

/// What `n` successive steps hand out, starting at `position`.
pub open spec fn run(position: nat, total: nat, stride: nat, n: nat) -> Seq<Option<(usize, usize)>>
    decreases n,
{
    if n == 0 {
        Seq::empty()
    } else {
        let (next, out) = advance(position, total, stride);
        seq![out] + run(next, total, stride, (n - 1) as nat)
    }
}

/// The frame that step `k` of an export hands out.
pub open spec fn kth_frame(total: nat, stride: nat, k: int) -> Option<(usize, usize)> {
    if k < total {
        Some((k as usize, (k * stride) as usize))
    } else {
        None
    }
}

/// Law: starting from frame `position`, step `k` hands out frame `position + k`
/// while frames remain and nothing afterwards; from the first frame, every video
/// frame is handed out exactly once, in order, none is skipped, and then the
/// stepper is exhausted.
pub proof fn lemma_run_hands_out_each_frame_once(position: nat, total: nat, stride: nat, n: nat)
    ensures
        run(position, total, stride, n).len() == n,
        forall|k: int|
            0 <= k < n ==> #[trigger] run(position, total, stride, n)[k] == kth_frame(
                total,
                stride,
                position + k,
            ),
    decreases n,
{
    if n > 0 {
        let (next, out) = advance(position, total, stride);
        lemma_run_hands_out_each_frame_once(next, total, stride, (n - 1) as nat);
        let rest = run(next, total, stride, (n - 1) as nat);
        assert forall|k: int| 0 <= k < n implies #[trigger] run(position, total, stride, n)[k]
            == kth_frame(total, stride, position + k) by {
            if k > 0 {
                assert(run(position, total, stride, n)[k] == rest[k - 1]);
                if position >= total {
                    assert(next == position);
                    assert(kth_frame(total, stride, next + k - 1) is None);
                }
            }
        }
    }
}

/// Deterministic offline stepper yielding, for every video frame, the audio
/// position its analysis window ends at.
pub struct OfflineStepper {
    fps: u32,
    samples_per_frame: usize,
    current_frame_idx: usize,
    total_video_frames: usize,
}

impl OfflineStepper {
    #[verifier::type_invariant]
    spec fn inv(&self) -> bool {
        &&& 1 <= self.total_video_frames
        &&& self.current_frame_idx <= self.total_video_frames
        &&& (self.total_video_frames - 1) * self.samples_per_frame <= usize::MAX
    }

    /// Frames per second of the video.
    pub closed spec fn frame_rate(&self) -> u32 {
        self.fps
    }

    /// Audio frames covered by one video frame.
    pub closed spec fn frame_stride(&self) -> nat {
        self.samples_per_frame as nat
    }

    /// Index of the next video frame to hand out.
    pub closed spec fn position(&self) -> nat {
        self.current_frame_idx as nat
    }

    /// Number of video frames in the export.
    pub closed spec fn frame_total(&self) -> nat {
        self.total_video_frames as nat
    }

    /// Creates a stepper at the first frame of a video at `fps` frames per second,
    /// with `samples_per_frame` audio frames per video frame and `estimated_frames`
    /// video frames (at least one frame is always produced). The audio position of
    /// the last frame must fit in a `usize`.
    pub fn new(fps: u32, samples_per_frame: usize, estimated_frames: usize) -> (s: Self)
        requires
            ((if estimated_frames < 1 { 1 } else { estimated_frames }) - 1) * samples_per_frame
                <= usize::MAX,
        ensures
            s.frame_rate() == fps,
            s.frame_stride() == samples_per_frame,
            s.position() == 0,
            s.frame_total() == if estimated_frames < 1 { 1 } else { estimated_frames },
    {
        let total_video_frames = if estimated_frames < 1 { 1 } else { estimated_frames };
        OfflineStepper { fps, samples_per_frame, current_frame_idx: 0, total_video_frames }
    }

    /// Advances one video frame: returns its number and the audio frame at which
    /// its window ends (`number * samples_per_frame`), or `None` once every frame
    /// has been handed out.
    pub fn next_step(&mut self) -> (step: Option<(usize, usize)>)
        ensures
            final(self).frame_rate() == old(self).frame_rate(),
            final(self).frame_stride() == old(self).frame_stride(),
            final(self).frame_total() == old(self).frame_total(),
            (final(self).position(), step) == advance(
                old(self).position(),
                old(self).frame_total(),
                old(self).frame_stride(),
            ),
    {
        proof {
            use_type_invariant(&*self);
        }
        if self.current_frame_idx >= self.total_video_frames {
            return None;
        }
        proof {
            assert(self.current_frame_idx * self.samples_per_frame <= (self.total_video_frames - 1)
                * self.samples_per_frame) by (nonlinear_arith)
                requires
                    self.current_frame_idx < self.total_video_frames,
            ;
        }
        let audio_frame_pos = self.current_frame_idx * self.samples_per_frame;
        let frame_num = self.current_frame_idx;
        self.current_frame_idx = self.current_frame_idx + 1;
        Some((frame_num, audio_frame_pos))
    }

    /// Total number of video frames.
    pub fn total_frames(&self) -> (n: usize)
        ensures
            n == self.frame_total(),
    {
        self.total_video_frames
    }

    /// Frames per second of the video.
    pub fn fps(&self) -> (f: u32)
        ensures
            f == self.frame_rate(),
    {
        self.fps
    }
}

} // verus!
