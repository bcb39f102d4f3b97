//! The playback transport: where playback is, whether it runs, and where it stops or
//! loops. The audio callback asks it, frame by frame, what to do.
use vstd::prelude::*;

verus! {

#[derive(Clone, Copy, Debug, PartialEq, Eq)]
pub struct Transport {
    pub playing: bool,
    pub position: usize,
    pub loop_enabled: bool,
    pub loop_start: usize,
    pub loop_end: Option<usize>,
    pub stop_at: Option<usize>,
}

/// What the audio callback does for one output frame.
#[derive(Clone, Copy, Debug, PartialEq, Eq)]
pub enum FrameStep {
    /// Play the edit frame it holds.
    Play(usize),
    /// The loop end was reached: playback jumped back to the loop start.
    Looped,
    /// The end was reached: playback stopped, the frame is silent.
    Ended,
}

impl Transport {
    /// The frame at which playback stops or loops: the stop point if one is set, else the
    /// loop end when looping, else the end of the timeline.
    pub open spec fn spec_boundary(self, total_frames: nat) -> int {
        match self.stop_at {
            Some(s) => s as int,
            None => match self.loop_end {
                Some(e) => if self.loop_enabled {
                    e as int
                } else {
                    total_frames as int
                },
                None => total_frames as int,
            },
        }
    }

    /// A stopped transport at frame 0 with no loop and no stop point.
    pub fn new() -> (t: Self)
        ensures
            t == (Transport {
                playing: false,
                position: 0,
                loop_enabled: false,
                loop_start: 0,
                loop_end: None,
                stop_at: None,
            }),
    {
        Transport {
            playing: false,
            position: 0,
            loop_enabled: false,
            loop_start: 0,
            loop_end: None,
            stop_at: None,
        }
    }

    /// Starts playing; from frame 0 when the position is at or past the end. A stop point
    /// set before the call is kept, so playing a selection or an in/out range ends there.
    pub fn play(&mut self, total_frames: usize)
        ensures
            *final(self) == (Transport {
                playing: true,
                position: if old(self).position >= total_frames {
                    0
                } else {
                    old(self).position
                },
                ..*old(self)
            }),
    {
        if self.position >= total_frames {
            self.position = 0;
        }
        self.playing = true;
    }

    pub fn pause(&mut self)
        ensures
            *final(self) == (Transport { playing: false, ..*old(self) }),
    {
        self.playing = false;
    }

    /// Stops and goes back to frame 0.
    pub fn stop(&mut self)
        ensures
            *final(self) == (Transport { playing: false, position: 0, ..*old(self) }),
    {
        self.playing = false;
        self.position = 0;
    }

    pub fn seek(&mut self, frame: usize)
        ensures
            *final(self) == (Transport { position: frame, ..*old(self) }),
    {
        self.position = frame;
    }

    pub fn set_loop(&mut self, enabled: bool, start: usize, end: Option<usize>)
        ensures
            *final(self) == (Transport {
                loop_enabled: enabled,
                loop_start: start,
                loop_end: end,
                ..*old(self)
            }),
    {
        self.loop_enabled = enabled;
        self.loop_start = start;
        self.loop_end = end;
    }

    pub fn set_stop_at(&mut self, frame: Option<usize>)
        ensures
            *final(self) == (Transport { stop_at: frame, ..*old(self) }),
    {
        self.stop_at = frame;
    }

    /// Follows a change of the timeline to `total_frames` frames: a position at or past the
    /// new end goes back to 0 and stops playback.
    pub fn set_total_frames(&mut self, total_frames: usize)
        ensures
            old(self).position >= total_frames ==> *final(self) == (Transport {
                position: 0,
                playing: false,
                ..*old(self)
            }),
            old(self).position < total_frames ==> *final(self) == *old(self),
    {
        if self.position >= total_frames {
            self.position = 0;
            self.playing = false;
        }
    }

    /// Decides the next output frame: past the boundary, a loop without a stop point jumps
    /// back to the loop start, and anything else stops; otherwise the current position plays.
    pub fn step(&mut self, total_frames: usize) -> (s: FrameStep)
        ensures
            old(self).position < old(self).spec_boundary(total_frames as nat) ==> s == FrameStep::Play(
                old(self).position,
            ) && *final(self) == *old(self),
            old(self).position >= old(self).spec_boundary(total_frames as nat) && old(self).loop_enabled
                && old(self).stop_at is None ==> s == FrameStep::Looped && *final(self) == (Transport {
                position: old(self).loop_start,
                ..*old(self)
            }),
            old(self).position >= old(self).spec_boundary(total_frames as nat) && !(old(self).loop_enabled
                && old(self).stop_at is None) ==> s == FrameStep::Ended && *final(self) == (Transport {
                playing: false,
                ..*old(self)
            }),
    {
        let boundary = match self.stop_at {
            Some(s) => s,
            None => match self.loop_end {
                Some(e) => if self.loop_enabled {
                    e
                } else {
                    total_frames
                },
                None => total_frames,
            },
        };
        if self.position >= boundary {
            if self.loop_enabled && self.stop_at.is_none() {
                self.position = self.loop_start;
                return FrameStep::Looped;
            }
            self.playing = false;
            return FrameStep::Ended;
        }
        FrameStep::Play(self.position)
    }

    /// Moves the position on by `frames`.
    pub fn advance(&mut self, frames: usize)
        requires
            old(self).position + frames <= usize::MAX,
        ensures
            *final(self) == (Transport { position: (old(self).position + frames) as usize, ..*old(self) }),
    {
        self.position = self.position + frames;
    }
}

} // verus!
