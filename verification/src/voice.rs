//! A playback cursor over one wavetable entry.

use vstd::prelude::*;

verus! {

/// The smaller of two integers.
pub open spec fn min_int(a: int, b: int) -> int {
    if a <= b {
        a
    } else {
        b
    }
}

/// A playback cursor: which signal it reads, how long that signal is and how
/// many frames of it were consumed so far. A slot that plays nothing holds no
/// signal.
#[derive(Clone, Copy, Debug, PartialEq, Eq, Structural)]
pub struct Voice {
    pub signal: Option<usize>,
    pub length: usize,
    pub position: usize,
}

impl Default for Voice {
    /// The content of a slot that never played.
    fn default() -> (voice: Voice)
        ensures
            voice == Voice::idle(),
    {
        Voice { signal: None, length: 0, position: 0 }
    }
}

impl Voice {
    /// The content of a slot that never played.
    pub open spec fn idle() -> Voice {
        Voice { signal: None, length: 0, position: 0 }
    }

    /// A voice at the start of `signal_index`, which is `length` frames long.
    pub open spec fn started(signal_index: usize, length: usize) -> Voice {
        Voice { signal: Some(signal_index), length, position: 0 }
    }

    /// The cursor never runs past the end of its signal.
    pub open spec fn wf(&self) -> bool {
        self.position <= self.length
    }

    /// Frames that are left to play.
    pub open spec fn frames_left(&self) -> int {
        self.length - self.position
    }

    /// Frames that one pull of `frames` frames takes from this voice.
    pub open spec fn window(&self, frames: usize) -> int {
        min_int(frames as int, self.frames_left())
    }

    /// Whether `frames` more frames bring the cursor to the end of the signal.
    pub open spec fn ends_within(&self, frames: usize) -> bool {
        self.position + frames >= self.length
    }

    /// This voice after `frames` more frames: the cursor moves on, but stops at
    /// the end of the signal.
    pub open spec fn advanced(&self, frames: usize) -> Voice {
        Voice {
            signal: self.signal,
            length: self.length,
            position: min_int(self.length as int, self.position + frames) as usize,
        }
    }

    /// This voice with its signal reference cleared.
    pub open spec fn released(&self) -> Voice {
        Voice { signal: None, length: self.length, position: self.position }
    }

    /// A voice at the start of wavetable entry `signal_index`, which is
    /// `length` frames long.
    pub fn new(signal_index: usize, length: usize) -> (voice: Voice)
        ensures
            voice == Voice::started(signal_index, length),
            voice.wf(),
    {
        Voice { signal: Some(signal_index), length, position: 0 }
    }

    /// The frames that are left to play.
    pub fn remaining(&self) -> (frames: usize)
        requires
            self.wf(),
        ensures
            frames == self.frames_left(),
    {
        self.length - self.position
    }

    /// Moves the cursor on by `l` frames, at most to the end of the signal, and
    /// says whether the end was reached.
    pub fn advance(&mut self, l: usize) -> (finished: bool)
        requires
            old(self).wf(),
        ensures
            *final(self) == old(self).advanced(l),
            final(self).wf(),
            finished == old(self).ends_within(l),
            finished == (final(self).position == final(self).length),
    {
        if l >= self.length - self.position {
            self.position = self.length;
        } else {
            self.position = self.position + l;
        }
        self.position >= self.length
    }
}

} // verus!
