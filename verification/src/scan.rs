//! The scan engine: renders one frame within a time budget.

use vstd::prelude::*;
use crate::frame::{Frame, SIDE};
use crate::line::{Command, HardwareFault, Line};
use crate::trace::{
    lemma_pass_len, lemma_repeated_index, lemma_repeated_len, pass_count, pass_duration,
    pass_trace, render_trace, repeated, row_pulses, rows_scan,
};

verus! {

/// The commands of one scan pass over `frame`, in the order they are issued.
pub fn pass_commands(frame: &Frame, min_pulse_us: u32) -> (commands: Vec<Command>)
    ensures
        commands@ == pass_trace(*frame, min_pulse_us),
{
    let mut commands: Vec<Command> = Vec::new();
    let mut row: u8 = 0;
    while row < SIDE
        invariant
            row <= SIDE,
            commands@ == rows_scan(*frame, row as int, min_pulse_us),
        decreases SIDE - row,
    {
        let ghost done = commands@;
        commands.push(Command::Assert(Line::Row(row)));
        let mut col: u8 = 0;
        while col < SIDE
            invariant
                row < SIDE,
                col <= SIDE,
                commands@ == done + seq![Command::Assert(Line::Row(row))] + row_pulses(
                    *frame,
                    row as int,
                    col as int,
                    min_pulse_us,
                ),
            decreases SIDE - col,
        {
            if frame.is_lit(row, col) {
                commands.push(Command::Assert(Line::Column(col)));
                commands.push(Command::WaitMicros(min_pulse_us));
                commands.push(Command::Deassert(Line::Column(col)));
            }
            col = col + 1;
        }
        commands.push(Command::Deassert(Line::Row(row)));
        row = row + 1;
    }
    commands
}

/// One render: the frame to show, for how long, and the shortest pulse that
/// the LEDs are to be given. Both times are in microseconds.
#[derive(Clone, Copy, Debug, PartialEq, Eq)]
pub struct ScanRequest {
    pub frame: Frame,
    pub total_duration_us: u32,
    pub min_pulse_us: u32,
}

impl ScanRequest {
    /// Everything that serving the request does, in order.
    pub open spec fn trace(&self) -> Seq<Command> {
        render_trace(self.frame, self.total_duration_us, self.min_pulse_us)
    }

    /// Microseconds that one scan pass over the frame takes.
    pub fn pass_duration_us(&self) -> (duration: u64)
        ensures
            duration == pass_duration(self.frame, self.min_pulse_us),
    {
        let lit: u32 = self.frame.count_lit();
        assert(self.min_pulse_us * lit <= u64::MAX) by (nonlinear_arith)
            requires
                self.min_pulse_us <= u32::MAX,
                lit <= 16,
        ;
        (self.min_pulse_us as u64) * (lit as u64)
    }

    /// Number of whole scan passes that the request is served with.
    pub fn pass_count(&self) -> (count: u32)
        ensures
            count == pass_count(self.frame, self.total_duration_us, self.min_pulse_us),
    {
        let duration: u64 = self.pass_duration_us();
        if duration == 0 {
            0
        } else {
            let count: u64 = (self.total_duration_us as u64) / duration;
            assert(count <= self.total_duration_us) by (nonlinear_arith)
                requires
                    count == self.total_duration_us as int / duration as int,
                    duration >= 1,
            ;
            count as u32
        }
    }
}

/// What the caller is to do next.
#[derive(Clone, Copy, Debug, PartialEq, Eq, Structural)]
pub enum Action {
    /// Carry out the command, then report how it went.
    Perform(Command),
    /// The request is served: nothing is left to do.
    Finished,
    /// A line has failed: stop for good.
    Halt(HardwareFault),
}

/// Where a render stands: how many commands of its trace were handed out,
/// and the fault that ended it, if one did.
pub struct ScanState {
    pub request: ScanRequest,
    pub issued: nat,
    pub fault: Option<HardwareFault>,
}

impl ScanState {
    /// A render that has not begun.
    pub open spec fn fresh(request: ScanRequest) -> ScanState {
        ScanState { request, issued: 0, fault: None }
    }

    /// One step of the render. `last` says how the command handed out by the
    /// step before went (`Ok` where there was none).
    ///
    /// A fault is final: once one was reported, every step halts with it and
    /// nothing more is handed out. Otherwise the commands of the trace are
    /// handed out one by one, in order, and then the render is finished.
    pub open spec fn step(self, last: Result<(), HardwareFault>) -> (ScanState, Action) {
        if let Some(fault) = self.fault {
            (self, Action::Halt(fault))
        } else if let Err(fault) = last {
            (ScanState { fault: Some(fault), ..self }, Action::Halt(fault))
        } else if self.issued < self.request.trace().len() {
            (
                ScanState { issued: self.issued + 1, ..self },
                Action::Perform(self.request.trace()[self.issued as int]),
            )
        } else {
            (self, Action::Finished)
        }
    }
}

/// The scan engine at work on one request. It touches no hardware itself:
/// each step hands the caller the next command to carry out, and the caller
/// reports back how that went.
pub struct ScanEngine {
    request: ScanRequest,
    /// The commands that are issued over and over.
    unit: Vec<Command>,
    /// How often `unit` is issued in all.
    rounds: u32,
    /// Rounds that are complete.
    round: u32,
    /// Commands of the current round that were handed out.
    offset: usize,
    fault: Option<HardwareFault>,
}

impl View for ScanEngine {
    type V = ScanState;

    closed spec fn view(&self) -> ScanState {
        ScanState {
            request: self.request,
            issued: (self.round * self.unit@.len() + self.offset) as nat,
            fault: self.fault,
        }
    }
}

impl ScanEngine {
    /// The engine is consistent with the request it serves.
    #[verifier::type_invariant]
    spec fn wf(self) -> bool {
        &&& self.unit@.len() > 0
        &&& repeated(self.unit@, self.rounds as nat) == self.request.trace()
        &&& self.round <= self.rounds
        &&& self.offset < self.unit@.len()
        &&& self.round == self.rounds ==> self.offset == 0
    }

    /// Begins to render `request`. Nothing has been handed out yet.
    pub fn render(request: ScanRequest) -> (engine: ScanEngine)
        ensures
            engine@ == ScanState::fresh(request),
    {
        let duration: u64 = request.pass_duration_us();
        if duration == 0 {
            let mut unit: Vec<Command> = Vec::new();
            unit.push(Command::WaitMicros(request.total_duration_us));
            proof {
                assert(repeated(unit@, 0) =~= Seq::empty());
                assert(repeated(unit@, 1) =~= unit@);
                assert(unit@ =~= request.trace());
            }
            ScanEngine { request, unit, rounds: 1, round: 0, offset: 0, fault: None }
        } else {
            let unit: Vec<Command> = pass_commands(&request.frame, request.min_pulse_us);
            let rounds: u32 = request.pass_count();
            proof {
                lemma_pass_len(request.frame, request.min_pulse_us);
            }
            ScanEngine { request, unit, rounds, round: 0, offset: 0, fault: None }
        }
    }

    /// Takes one step of the render: see [`ScanState::step`].
    pub fn step(&mut self, last: Result<(), HardwareFault>) -> (action: Action)
        ensures
            (final(self)@, action) == old(self)@.step(last),
        no_unwind
    {
        proof {
            use_type_invariant(&*self);
            lemma_repeated_len(self.unit@, self.rounds as nat);
            let len = self.unit@.len() as int;
            assert(self.round * len + self.offset < self.rounds * len <==> self.round
                < self.rounds) by (nonlinear_arith)
                requires
                    0 <= self.offset < len,
                    self.round <= self.rounds,
                    self.round == self.rounds ==> self.offset == 0,
            ;
        }
        if let Some(fault) = self.fault {
            return Action::Halt(fault);
        }
        if let Err(fault) = last {
            self.fault = Some(fault);
            return Action::Halt(fault);
        }
        if self.round < self.rounds {
            proof {
                lemma_repeated_index(
                    self.unit@,
                    self.rounds as nat,
                    self.round as nat,
                    self.offset as int,
                );
            }
            let command: Command = self.unit[self.offset];
            let unit_len: usize = self.unit.len();
            let ghost len = unit_len as int;
            let ghost round = self.round as int;
            if self.offset + 1 == unit_len {
                self.offset = 0;
                self.round = self.round + 1;
                assert((round + 1) * len == round * len + len) by (nonlinear_arith);
            } else {
                self.offset = self.offset + 1;
            }
            Action::Perform(command)
        } else {
            Action::Finished
        }
    }
}

} // verus!
