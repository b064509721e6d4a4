//! Playing a sequence of frames as a looping animation.

use vstd::prelude::*;
use crate::frame::Frame;
use crate::line::{Command, HardwareFault};
use crate::scan::{Action, ScanEngine, ScanRequest, ScanState};

verus! {

/// Microseconds in one second.
pub const MICROS_PER_SECOND: u32 = 1_000_000;

/// An animation: its frames in playing order, how many of them to show per
/// second, and the pulse width, in microseconds, to scan each with. The
/// frames are borrowed; playing never changes or reorders them.
#[derive(Clone, Copy, Debug)]
pub struct AnimationSequence<'a> {
    pub frames: &'a [Frame],
    pub fps: u32,
    pub min_pulse_us: u32,
}

/// An animation as plain values.
pub struct Animation {
    pub frames: Seq<Frame>,
    pub fps: u32,
    pub min_pulse_us: u32,
}

impl Animation {
    /// There is at least one frame, and the rate is at least one per second.
    pub open spec fn playable(self) -> bool {
        self.frames.len() > 0 && self.fps >= 1
    }

    /// Microseconds that each frame is shown for: a second divided by the
    /// rate, rounded down.
    pub open spec fn frame_budget(self) -> nat {
        MICROS_PER_SECOND as nat / self.fps as nat
    }

    /// The render that shows the frame at `index`.
    pub open spec fn request(self, index: int) -> ScanRequest {
        ScanRequest {
            frame: self.frames[index],
            total_duration_us: self.frame_budget() as u32,
            min_pulse_us: self.min_pulse_us,
        }
    }

    /// Index of the frame that follows the one at `index`: the next one, and
    /// the first one after the last.
    pub open spec fn successor(self, index: int) -> int {
        if index + 1 == self.frames.len() {
            0
        } else {
            index + 1
        }
    }
}

impl<'a> View for AnimationSequence<'a> {
    type V = Animation;

    open spec fn view(&self) -> Animation {
        Animation { frames: self.frames@, fps: self.fps, min_pulse_us: self.min_pulse_us }
    }
}

impl<'a> AnimationSequence<'a> {
    /// Microseconds that each frame is shown for.
    pub fn frame_budget_us(&self) -> (budget: u32)
        requires
            self.fps >= 1,
        ensures
            budget == self@.frame_budget(),
    {
        MICROS_PER_SECOND / self.fps
    }

    /// The render that shows the frame at `index`.
    pub fn request(&self, index: usize) -> (request: ScanRequest)
        requires
            self@.playable(),
            index < self.frames@.len(),
        ensures
            request == self@.request(index as int),
    {
        ScanRequest {
            frame: self.frames[index],
            total_duration_us: self.frame_budget_us(),
            min_pulse_us: self.min_pulse_us,
        }
    }
}

/// What the caller of the player is to do next. There is no end: an
/// animation loops until a line fails.
#[derive(Clone, Copy, Debug, PartialEq, Eq, Structural)]
pub enum PlayerAction {
    /// Carry out the command, then report how it went.
    Perform(Command),
    /// The frame on show is done; the frame at this index is up next.
    NextFrame(usize),
    /// A line has failed: stop for good.
    Halt(HardwareFault),
}

/// Where a playback stands: which frame is on show, and how far its render
/// has come.
pub struct PlayerState {
    pub animation: Animation,
    pub current: int,
    pub scan: ScanState,
}

impl PlayerState {
    /// The playback at the moment the frame at `index` comes on show.
    pub open spec fn showing(animation: Animation, index: int) -> PlayerState {
        PlayerState { animation, current: index, scan: ScanState::fresh(animation.request(index)) }
    }

    /// One step of the playback. `last` says how the command handed out by
    /// the step before went (`Ok` where there was none).
    ///
    /// The frame on show is rendered step by step. When its render is
    /// finished the following frame comes on show, the first one after the
    /// last, with a render of its own that starts from nothing.
    pub open spec fn step(self, last: Result<(), HardwareFault>) -> (PlayerState, PlayerAction) {
        match self.scan.step(last) {
            (scan, Action::Perform(command)) => (
                PlayerState { scan, ..self },
                PlayerAction::Perform(command),
            ),
            (scan, Action::Halt(fault)) => (PlayerState { scan, ..self }, PlayerAction::Halt(fault)),
            (_, Action::Finished) => (
                PlayerState::showing(self.animation, self.animation.successor(self.current)),
                PlayerAction::NextFrame(self.animation.successor(self.current) as usize),
            ),
        }
    }
}

/// A playback in progress. Like the scan engine it touches no hardware
/// itself.
pub struct AnimationPlayer<'a> {
    sequence: AnimationSequence<'a>,
    current: usize,
    engine: ScanEngine,
}

impl<'a> View for AnimationPlayer<'a> {
    type V = PlayerState;

    closed spec fn view(&self) -> PlayerState {
        PlayerState { animation: self.sequence@, current: self.current as int, scan: self.engine@ }
    }
}

impl<'a> AnimationPlayer<'a> {
    /// The player is consistent with the animation it plays.
    #[verifier::type_invariant]
    spec fn wf(self) -> bool {
        &&& self.sequence@.playable()
        &&& self.current < self.sequence.frames@.len()
        &&& self.engine@.request == self.sequence@.request(self.current as int)
    }

    /// Begins a playback with the first frame.
    pub fn play(sequence: AnimationSequence<'a>) -> (player: AnimationPlayer<'a>)
        requires
            sequence@.playable(),
        ensures
            player@ == PlayerState::showing(sequence@, 0),
    {
        let engine = ScanEngine::render(sequence.request(0));
        AnimationPlayer { sequence, current: 0, engine }
    }

    /// Takes one step of the playback: see [`PlayerState::step`].
    pub fn step(&mut self, last: Result<(), HardwareFault>) -> (action: PlayerAction)
        ensures
            (final(self)@, action) == old(self)@.step(last),
    {
        proof {
            use_type_invariant(&*self);
        }
        match self.engine.step(last) {
            Action::Perform(command) => PlayerAction::Perform(command),
            Action::Halt(fault) => PlayerAction::Halt(fault),
            Action::Finished => {
                let count: usize = self.sequence.frames.len();
                let next: usize = if self.current + 1 == count {
                    0
                } else {
                    self.current + 1
                };
                let engine = ScanEngine::render(self.sequence.request(next));
                *self = AnimationPlayer { sequence: self.sequence, current: next, engine };
                PlayerAction::NextFrame(next)
            },
        }
    }
}

} // verus!
