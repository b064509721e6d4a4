//! Drive lines and what can be asked of them.
//!
//! The matrix is wired with four row lines and four column lines. A row is
//! enabled by pulling it low; a column lights the LED on the enabled row when
//! it is driven high. The scanning code speaks only of asserting and
//! deasserting a line: the electrical polarity is fixed here, in one place.

use vstd::prelude::*;
use crate::frame::SIDE;

verus! {

/// One of the eight drive lines, by kind and position.
#[derive(Clone, Copy, Debug, PartialEq, Eq, Structural)]
pub enum Line {
    Row(u8),
    Column(u8),
}

/// Electrical level of an output.
#[derive(Clone, Copy, Debug, PartialEq, Eq, Structural)]
pub enum Level {
    Low,
    High,
}

/// One thing the scanner asks of the hardware.
#[derive(Clone, Copy, Debug, PartialEq, Eq, Structural)]
pub enum Command {
    /// Put the line in its active state.
    Assert(Line),
    /// Put the line back in its idle state.
    Deassert(Line),
    /// Block for this many microseconds.
    WaitMicros(u32),
}

/// A drive line refused an operation. There is no recovery from this.
#[derive(Clone, Copy, Debug, PartialEq, Eq, Structural)]
pub struct HardwareFault {
    /// The line that failed.
    pub line: Line,
}

impl Line {
    /// Position of the line within its set of four.
    pub open spec fn position(&self) -> int {
        match *self {
            Line::Row(i) => i as int,
            Line::Column(i) => i as int,
        }
    }

    /// The line exists on the matrix.
    pub open spec fn in_range(&self) -> bool {
        0 <= self.position() < SIDE
    }

    /// Level that asserts a line: rows are active-low, columns active-high.
    pub open spec fn active_level(&self) -> Level {
        match *self {
            Line::Row(_) => Level::Low,
            Line::Column(_) => Level::High,
        }
    }

    /// Level of a line at rest: the opposite of its active level.
    pub open spec fn idle_level(&self) -> Level {
        match *self {
            Line::Row(_) => Level::High,
            Line::Column(_) => Level::Low,
        }
    }

    /// The row line at `index`, if there is one.
    pub fn row(index: u8) -> (line: Option<Line>)
        ensures
            line == if index < SIDE {
                Some(Line::Row(index))
            } else {
                None
            },
    {
        if index < SIDE {
            Some(Line::Row(index))
        } else {
            None
        }
    }

    /// The column line at `index`, if there is one.
    pub fn column(index: u8) -> (line: Option<Line>)
        ensures
            line == if index < SIDE {
                Some(Line::Column(index))
            } else {
                None
            },
    {
        if index < SIDE {
            Some(Line::Column(index))
        } else {
            None
        }
    }

    /// Position of the line within its set of four.
    pub fn index(&self) -> (index: u8)
        ensures
            index == self.position(),
    {
        match *self {
            Line::Row(i) => i,
            Line::Column(i) => i,
        }
    }
}

impl Command {
    /// The line that the command touches, and the level to drive it to;
    /// nothing for a wait.
    pub open spec fn drive(&self) -> Option<(Line, Level)> {
        match *self {
            Command::Assert(line) => Some((line, line.active_level())),
            Command::Deassert(line) => Some((line, line.idle_level())),
            Command::WaitMicros(_) => None,
        }
    }

    /// The command changes the state of a line.
    pub open spec fn is_toggle(&self) -> bool {
        !(*self is WaitMicros)
    }

    /// Microseconds that the command blocks for.
    pub open spec fn wait_us(&self) -> nat {
        match *self {
            Command::WaitMicros(us) => us as nat,
            _ => 0,
        }
    }

    /// The command names a line of the matrix, or none at all.
    pub open spec fn in_range(&self) -> bool {
        match *self {
            Command::Assert(line) => line.in_range(),
            Command::Deassert(line) => line.in_range(),
            Command::WaitMicros(_) => true,
        }
    }

    /// Translates the command into an electrical operation: which line to
    /// drive, and to which level. A wait drives nothing.
    pub fn output(&self) -> (out: Option<(Line, Level)>)
        ensures
            out == self.drive(),
    {
        match *self {
            Command::Assert(line) => {
                match line {
                    Line::Row(_) => Some((line, Level::Low)),
                    Line::Column(_) => Some((line, Level::High)),
                }
            },
            Command::Deassert(line) => {
                match line {
                    Line::Row(_) => Some((line, Level::High)),
                    Line::Column(_) => Some((line, Level::Low)),
                }
            },
            Command::WaitMicros(_) => None,
        }
    }
}

} // verus!
