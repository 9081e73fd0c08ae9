//! The clock of an animation: which frame of a scripted sequence is shown
//! at which time.

use vstd::prelude::*;

verus! {

/// The schedule of an animation. Frame `i` is shown for `delays[i]`
/// milliseconds; the frames themselves are held by the caller.
pub struct Animator {
    pub delays: Vec<u64>,
    /// The frame that is shown.
    pub current: usize,
    pub is_playing: bool,
    /// After the last frame the first one follows.
    pub is_loop: bool,
    /// The time at which the current frame was shown.
    pub shown_at: u64,
}

/// The frame that follows frame `current` of `count` frames, if any.
pub open spec fn frame_after(current: int, count: int, is_loop: bool) -> Option<int> {
    if current + 1 < count {
        Some(current + 1)
    } else if is_loop && count > 0 {
        Some(0)
    } else {
        None
    }
}

impl Animator {
    /// The current frame is one of the frames, where there are any.
    pub open spec fn wf(&self) -> bool {
        self.delays@.len() == 0 || self.current < self.delays@.len()
    }

    /// The current frame has been shown for its whole delay at `now_ms`.
    pub open spec fn due(&self, now_ms: u64) -> bool {
        &&& self.is_playing
        &&& self.delays@.len() > 0
        &&& now_ms - self.shown_at >= self.delays@[self.current as int]
    }

    /// A stopped animation over the given delays, at its first frame.
    pub fn new(delays: Vec<u64>) -> (animator: Self)
        ensures
            animator.wf(),
            animator.delays == delays,
            animator.current == 0,
            !animator.is_playing,
            !animator.is_loop,
            animator.shown_at == 0,
    {
        Self { delays, current: 0, is_playing: false, is_loop: false, shown_at: 0 }
    }

    pub fn set_is_loop(&mut self, is_loop: bool)
        ensures
            *final(self) == (Animator { is_loop, ..*old(self) }),
    {
        self.is_loop = is_loop;
    }

    pub fn set_is_playing(&mut self, is_playing: bool)
        ensures
            *final(self) == (Animator { is_playing, ..*old(self) }),
    {
        self.is_playing = is_playing;
    }

    /// Starts at the first frame at `now_ms`. Returns the frame to show:
    /// the first, where there is one.
    pub fn start_playback(&mut self, now_ms: u64) -> (frame: Option<usize>)
        ensures
            final(self).wf(),
            *final(self) == (Animator {
                current: 0,
                shown_at: now_ms,
                is_playing: old(self).delays@.len() > 0,
                ..*old(self)
            }),
            frame == if old(self).delays@.len() > 0 {
                Some(0usize)
            } else {
                None
            },
    {
        self.current = 0;
        self.shown_at = now_ms;
        self.is_playing = self.delays.len() > 0;
        if self.is_playing {
            Some(0)
        } else {
            None
        }
    }

    /// One frame of the viewer at `now_ms`. Where the current frame has
    /// been shown for its delay, the next one is due: it becomes the
    /// current frame, shown at `now_ms`, and is returned for the caller to
    /// show. After the last frame the first follows where the animation
    /// loops; otherwise the animation stops. In any other case nothing
    /// changes.
    pub fn update_frame(&mut self, now_ms: u64) -> (frame: Option<usize>)
        requires
            old(self).wf(),
            now_ms >= old(self).shown_at,
        ensures
            final(self).wf(),
            final(self).delays == old(self).delays,
            final(self).is_loop == old(self).is_loop,
            !old(self).due(now_ms) ==> frame is None && *final(self) == *old(self),
            old(self).due(now_ms) ==> match frame_after(
                old(self).current as int,
                old(self).delays@.len() as int,
                old(self).is_loop,
            ) {
                Some(next) => {
                    &&& frame == Some(next as usize)
                    &&& final(self).current == next
                    &&& final(self).shown_at == now_ms
                    &&& final(self).is_playing
                },
                None => {
                    &&& frame is None
                    &&& final(self).current == old(self).current
                    &&& final(self).shown_at == old(self).shown_at
                    &&& !final(self).is_playing
                },
            },
    {
        if !self.is_playing || self.delays.len() == 0 {
            return None;
        }
        if now_ms - self.shown_at < self.delays[self.current] {
            return None;
        }
        if self.current + 1 < self.delays.len() {
            self.current = self.current + 1;
        } else if self.is_loop {
            self.current = 0;
        } else {
            self.is_playing = false;
            return None;
        }
        self.shown_at = now_ms;
        Some(self.current)
    }
}

} // verus!
