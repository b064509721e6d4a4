//! What rendering a frame means: the sequence of commands it issues.
//!
//! A frame is shown by scanning it over and over. One pass enables each row in
//! turn and, while the row is enabled, pulses the columns of its lit cells one
//! after the other. A pass therefore lasts the pulse width times the number of
//! lit cells, and as many whole passes are made as fit in the time budget.

use vstd::prelude::*;
use crate::frame::Frame;
use crate::line::{Command, Line};

verus! {

/// Lighting one cell: column on, hold for the pulse width, column off.
pub open spec fn pulse(col: int, min_pulse_us: u32) -> Seq<Command> {
    seq![
        Command::Assert(Line::Column(col as u8)),
        Command::WaitMicros(min_pulse_us),
        Command::Deassert(Line::Column(col as u8)),
    ]
}

/// The pulses of row `row` for its lit cells among the columns before `cols`,
/// in ascending column order.
pub open spec fn row_pulses(frame: Frame, row: int, cols: int, min_pulse_us: u32) -> Seq<Command>
    decreases cols,
{
    if cols <= 0 {
        Seq::empty()
    } else if frame.lit(row, cols - 1) {
        row_pulses(frame, row, cols - 1, min_pulse_us) + pulse(cols - 1, min_pulse_us)
    } else {
        row_pulses(frame, row, cols - 1, min_pulse_us)
    }
}

/// Scanning one row: enable it, pulse its lit cells, disable it.
pub open spec fn row_scan(frame: Frame, row: int, min_pulse_us: u32) -> Seq<Command> {
    seq![Command::Assert(Line::Row(row as u8))] + row_pulses(frame, row, 4, min_pulse_us)
        + seq![Command::Deassert(Line::Row(row as u8))]
}

/// Scanning the rows before `rows`, in ascending order.
pub open spec fn rows_scan(frame: Frame, rows: int, min_pulse_us: u32) -> Seq<Command>
    decreases rows,
{
    if rows <= 0 {
        Seq::empty()
    } else {
        rows_scan(frame, rows - 1, min_pulse_us) + row_scan(frame, rows - 1, min_pulse_us)
    }
}

/// One full scan pass over the four rows.
pub open spec fn pass_trace(frame: Frame, min_pulse_us: u32) -> Seq<Command> {
    rows_scan(frame, 4, min_pulse_us)
}

/// `unit` issued `times` times over.
pub open spec fn repeated(unit: Seq<Command>, times: nat) -> Seq<Command>
    decreases times,
{
    if times == 0 {
        Seq::empty()
    } else {
        repeated(unit, (times - 1) as nat) + unit
    }
}

/// Microseconds that one pass takes: every lit cell is held for the pulse
/// width once.
pub open spec fn pass_duration(frame: Frame, min_pulse_us: u32) -> nat {
    min_pulse_us as nat * frame.lit_count()
}

/// Number of whole passes that fit in the budget. What is left of the budget
/// after them is not waited out. A pass that takes no time is never made.
pub open spec fn pass_count(frame: Frame, total_duration_us: u32, min_pulse_us: u32) -> nat {
    if pass_duration(frame, min_pulse_us) == 0 {
        0
    } else {
        total_duration_us as nat / pass_duration(frame, min_pulse_us)
    }
}

/// Everything that showing `frame` for `total_duration_us` does, in order.
///
/// Where a pass would take no time there is nothing to pulse: the whole budget
/// is spent in one wait. That is the case of the dark frame (and of a pulse
/// width of zero, which leaves nothing to time either).
pub open spec fn render_trace(frame: Frame, total_duration_us: u32, min_pulse_us: u32) -> Seq<
    Command,
> {
    if pass_duration(frame, min_pulse_us) == 0 {
        seq![Command::WaitMicros(total_duration_us)]
    } else {
        repeated(
            pass_trace(frame, min_pulse_us),
            pass_count(frame, total_duration_us, min_pulse_us),
        )
    }
}

/// Number of commands in `trace` that change the state of a line.
pub open spec fn toggle_count(trace: Seq<Command>) -> nat
    decreases trace.len(),
{
    if trace.len() == 0 {
        0
    } else if trace.last().is_toggle() {
        toggle_count(trace.drop_last()) + 1
    } else {
        toggle_count(trace.drop_last())
    }
}

/// Microseconds that `trace` spends blocked, all waits together.
pub open spec fn waited_us(trace: Seq<Command>) -> nat
    decreases trace.len(),
{
    if trace.len() == 0 {
        0
    } else {
        waited_us(trace.drop_last()) + trace.last().wait_us()
    }
}

/// Every command of `trace` names a line of the matrix, or waits.
pub open spec fn all_in_range(trace: Seq<Command>) -> bool {
    forall|i: int| 0 <= i < trace.len() ==> (#[trigger] trace[i]).in_range()
}

/// Which lines are active at one instant, as far as the scanning discipline
/// allows: at most one row, and at most one column on it.
pub struct Active {
    pub row: Option<u8>,
    pub column: Option<u8>,
}

/// All lines at rest.
pub open spec fn at_rest() -> Active {
    Active { row: None, column: None }
}

/// The lines after `command`, or nothing where the command breaks the
/// discipline: a row is enabled only while every line is at rest, a column is
/// switched on only under an enabled row and with no other column on, and a
/// line is switched off only while it is the one that is on, a row not before
/// its column. Waiting is always allowed.
pub open spec fn after(lines: Active, command: Command) -> Option<Active> {
    match command {
        Command::Assert(Line::Row(r)) => if lines.row is None && lines.column is None {
            Some(Active { row: Some(r), column: None })
        } else {
            None
        },
        Command::Deassert(Line::Row(r)) => if lines.row == Some(r) && lines.column is None {
            Some(Active { row: None, column: None })
        } else {
            None
        },
        Command::Assert(Line::Column(c)) => if lines.row is Some && lines.column is None {
            Some(Active { row: lines.row, column: Some(c) })
        } else {
            None
        },
        Command::Deassert(Line::Column(c)) => if lines.column == Some(c) {
            Some(Active { row: lines.row, column: None })
        } else {
            None
        },
        Command::WaitMicros(_) => Some(lines),
    }
}

/// The lines after the whole of `trace`, started from `lines`; nothing where
/// some command on the way breaks the discipline.
pub open spec fn after_all(lines: Active, trace: Seq<Command>) -> Option<Active>
    decreases trace.len(),
{
    if trace.len() == 0 {
        Some(lines)
    } else {
        match after_all(lines, trace.drop_last()) {
            Some(reached) => after(reached, trace.last()),
            None => None,
        }
    }
}

/// Every assertion in `trace` is undone before the next one of its kind: the
/// trace starts and ends with all lines at rest and keeps the discipline
/// throughout.
pub open spec fn well_paired(trace: Seq<Command>) -> bool {
    after_all(at_rest(), trace) == Some(at_rest())
}

/// Counting toggles distributes over concatenation.
pub proof fn lemma_toggle_count_concat(a: Seq<Command>, b: Seq<Command>)
    ensures
        toggle_count(a + b) == toggle_count(a) + toggle_count(b),
    decreases b.len(),
{
    if b.len() == 0 {
        assert(a + b =~= a);
    } else {
        assert((a + b).drop_last() =~= a + b.drop_last());
        lemma_toggle_count_concat(a, b.drop_last());
    }
}

/// Waited time distributes over concatenation.
pub proof fn lemma_waited_concat(a: Seq<Command>, b: Seq<Command>)
    ensures
        waited_us(a + b) == waited_us(a) + waited_us(b),
    decreases b.len(),
{
    if b.len() == 0 {
        assert(a + b =~= a);
    } else {
        assert((a + b).drop_last() =~= a + b.drop_last());
        lemma_waited_concat(a, b.drop_last());
    }
}

/// Running a concatenation is running its parts one after the other.
pub proof fn lemma_after_all_concat(lines: Active, a: Seq<Command>, b: Seq<Command>)
    ensures
        after_all(lines, a + b) == match after_all(lines, a) {
            Some(reached) => after_all(reached, b),
            None => None,
        },
    decreases b.len(),
{
    if b.len() == 0 {
        assert(a + b =~= a);
    } else {
        assert((a + b).drop_last() =~= a + b.drop_last());
        lemma_after_all_concat(lines, a, b.drop_last());
    }
}

/// Length of a repetition.
pub proof fn lemma_repeated_len(unit: Seq<Command>, times: nat)
    ensures
        repeated(unit, times).len() == times * unit.len(),
    decreases times,
{
    let len = unit.len() as int;
    if times > 0 {
        let before = (times - 1) as nat;
        lemma_repeated_len(unit, before);
        assert(before * len + len == times * len) by (nonlinear_arith)
            requires
                before + 1 == times,
        ;
    } else {
        assert(times * len == 0) by (nonlinear_arith)
            requires
                times == 0,
        ;
    }
}

/// The command at offset `offset` of round `round` of a repetition is the
/// command at that offset of the unit.
pub proof fn lemma_repeated_index(unit: Seq<Command>, times: nat, round: nat, offset: int)
    requires
        round < times,
        0 <= offset < unit.len(),
    ensures
        round * unit.len() + offset < repeated(unit, times).len(),
        repeated(unit, times)[round * unit.len() + offset] == unit[offset],
    decreases times,
{
    let before = (times - 1) as nat;
    let len = unit.len() as int;
    lemma_repeated_len(unit, times);
    lemma_repeated_len(unit, before);
    assert(before * len + len == times * len) by (nonlinear_arith)
        requires
            before + 1 == times,
    ;
    if round == before {
    } else {
        assert(round * len + len <= before * len) by (nonlinear_arith)
            requires
                round + 1 <= before,
                0 <= len,
        ;
        lemma_repeated_index(unit, before, round, offset);
    }
}

/// A row's pulses take three commands for each lit cell.
pub proof fn lemma_row_pulses_len(frame: Frame, row: int, cols: int, min_pulse_us: u32)
    requires
        0 <= cols,
    ensures
        row_pulses(frame, row, cols, min_pulse_us).len() == 3 * frame.lit_in_row(row, cols),
    decreases cols,
{
    if cols > 0 {
        lemma_row_pulses_len(frame, row, cols - 1, min_pulse_us);
    }
}

/// Scanning some rows takes two commands for each row and three for each lit
/// cell in them.
pub proof fn lemma_rows_scan_len(frame: Frame, rows: int, min_pulse_us: u32)
    requires
        0 <= rows,
    ensures
        rows_scan(frame, rows, min_pulse_us).len() == 2 * rows + 3 * frame.lit_in_rows(rows),
    decreases rows,
{
    if rows > 0 {
        lemma_rows_scan_len(frame, rows - 1, min_pulse_us);
        lemma_row_pulses_len(frame, rows - 1, 4, min_pulse_us);
    }
}

/// A pass takes eight commands for the rows and three for each lit cell.
pub proof fn lemma_pass_len(frame: Frame, min_pulse_us: u32)
    ensures
        pass_trace(frame, min_pulse_us).len() == 8 + 3 * frame.lit_count(),
{
    lemma_rows_scan_len(frame, 4, min_pulse_us);
}

} // verus!
