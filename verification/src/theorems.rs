//! What holds of every render, proved from the definition of its trace.

use vstd::prelude::*;
use crate::animation::{Animation, PlayerAction, PlayerState};
use crate::frame::Frame;
use crate::line::{Command, HardwareFault, Line};
use crate::scan::{Action, ScanRequest, ScanState};
use crate::trace::{
    after, after_all, all_in_range, at_rest, lemma_after_all_concat, lemma_toggle_count_concat,
    lemma_waited_concat, pass_count, pass_duration, pass_trace, pulse, render_trace, repeated,
    row_pulses, row_scan, rows_scan, toggle_count, waited_us, well_paired, Active,
};

verus! {

/// The pulses of the cell in row `row`, column `col`: one where the cell is
/// lit, none where it is dark.
pub open spec fn cell_pulses(frame: Frame, row: int, col: int, min_pulse_us: u32) -> Seq<Command> {
    if frame.lit(row, col) {
        pulse(col, min_pulse_us)
    } else {
        Seq::empty()
    }
}

/// The lines while row `row` is enabled and no column is on.
pub open spec fn row_enabled(row: int) -> Active {
    Active { row: Some(row as u8), column: None }
}

proof fn lemma_pulse_unfolded(col: int, min_pulse_us: u32)
    ensures
        pulse(col, min_pulse_us) == Seq::<Command>::empty().push(
            Command::Assert(Line::Column(col as u8)),
        ).push(Command::WaitMicros(min_pulse_us)).push(Command::Deassert(Line::Column(col as u8))),
{
    assert(pulse(col, min_pulse_us) =~= Seq::<Command>::empty().push(
        Command::Assert(Line::Column(col as u8)),
    ).push(Command::WaitMicros(min_pulse_us)).push(Command::Deassert(Line::Column(col as u8))));
}

proof fn lemma_toggle_count_push(trace: Seq<Command>, command: Command)
    ensures
        toggle_count(trace.push(command)) == toggle_count(trace) + if command.is_toggle() {
            1nat
        } else {
            0nat
        },
{
    assert(trace.push(command).drop_last() =~= trace);
}

proof fn lemma_waited_push(trace: Seq<Command>, command: Command)
    ensures
        waited_us(trace.push(command)) == waited_us(trace) + command.wait_us(),
{
    assert(trace.push(command).drop_last() =~= trace);
}

proof fn lemma_after_all_push(lines: Active, trace: Seq<Command>, command: Command)
    ensures
        after_all(lines, trace.push(command)) == match after_all(lines, trace) {
            Some(reached) => after(reached, command),
            None => None,
        },
{
    assert(trace.push(command).drop_last() =~= trace);
}

/// A pulse switches one column on and off again, holds it for exactly the
/// pulse width in between, and leaves the enabled row as it found it.
pub proof fn lemma_pulse(row: int, col: int, min_pulse_us: u32)
    ensures
        toggle_count(pulse(col, min_pulse_us)) == 2,
        waited_us(pulse(col, min_pulse_us)) == min_pulse_us,
        after_all(row_enabled(row), pulse(col, min_pulse_us)) == Some(row_enabled(row)),
{
    let on = Command::Assert(Line::Column(col as u8));
    let hold = Command::WaitMicros(min_pulse_us);
    let off = Command::Deassert(Line::Column(col as u8));
    let none = Seq::<Command>::empty();
    lemma_pulse_unfolded(col, min_pulse_us);
    lemma_toggle_count_push(none, on);
    lemma_toggle_count_push(none.push(on), hold);
    lemma_toggle_count_push(none.push(on).push(hold), off);
    lemma_waited_push(none, on);
    lemma_waited_push(none.push(on), hold);
    lemma_waited_push(none.push(on).push(hold), off);
    lemma_after_all_push(row_enabled(row), none, on);
    lemma_after_all_push(row_enabled(row), none.push(on), hold);
    lemma_after_all_push(row_enabled(row), none.push(on).push(hold), off);
}

/// Within an enabled row the pulses are those of its four cells, in ascending
/// column order: a lit cell is pulsed once, a dark cell costs nothing.
pub proof fn lemma_row_pulses_by_cell(frame: Frame, row: int, min_pulse_us: u32)
    ensures
        row_pulses(frame, row, 4, min_pulse_us) == cell_pulses(frame, row, 0, min_pulse_us)
            + cell_pulses(frame, row, 1, min_pulse_us) + cell_pulses(frame, row, 2, min_pulse_us)
            + cell_pulses(frame, row, 3, min_pulse_us),
{
    reveal_with_fuel(row_pulses, 5);
    assert(row_pulses(frame, row, 4, min_pulse_us) =~= cell_pulses(frame, row, 0, min_pulse_us)
        + cell_pulses(frame, row, 1, min_pulse_us) + cell_pulses(frame, row, 2, min_pulse_us)
        + cell_pulses(frame, row, 3, min_pulse_us));
}

/// A pass scans the four rows in ascending order.
pub proof fn lemma_pass_by_row(frame: Frame, min_pulse_us: u32)
    ensures
        pass_trace(frame, min_pulse_us) == row_scan(frame, 0, min_pulse_us) + row_scan(
            frame,
            1,
            min_pulse_us,
        ) + row_scan(frame, 2, min_pulse_us) + row_scan(frame, 3, min_pulse_us),
{
    reveal_with_fuel(rows_scan, 5);
    assert(pass_trace(frame, min_pulse_us) =~= row_scan(frame, 0, min_pulse_us) + row_scan(
        frame,
        1,
        min_pulse_us,
    ) + row_scan(frame, 2, min_pulse_us) + row_scan(frame, 3, min_pulse_us));
}

/// The pulses of a row: two toggles and one pulse width of waiting for each
/// lit cell, and the row stays enabled throughout.
pub proof fn lemma_row_pulses(frame: Frame, row: int, cols: int, min_pulse_us: u32)
    requires
        0 <= cols,
    ensures
        toggle_count(row_pulses(frame, row, cols, min_pulse_us)) == 2 * frame.lit_in_row(
            row,
            cols,
        ),
        waited_us(row_pulses(frame, row, cols, min_pulse_us)) == min_pulse_us * frame.lit_in_row(
            row,
            cols,
        ),
        after_all(row_enabled(row), row_pulses(frame, row, cols, min_pulse_us)) == Some(
            row_enabled(row),
        ),
    decreases cols,
{
    if cols > 0 {
        let before = row_pulses(frame, row, cols - 1, min_pulse_us);
        let earlier = frame.lit_in_row(row, cols - 1);
        lemma_row_pulses(frame, row, cols - 1, min_pulse_us);
        if frame.lit(row, cols - 1) {
            lemma_pulse(row, cols - 1, min_pulse_us);
            lemma_toggle_count_concat(before, pulse(cols - 1, min_pulse_us));
            lemma_waited_concat(before, pulse(cols - 1, min_pulse_us));
            lemma_after_all_concat(row_enabled(row), before, pulse(cols - 1, min_pulse_us));
            assert(min_pulse_us * (earlier + 1) == min_pulse_us * earlier + min_pulse_us)
                by (nonlinear_arith);
        }
    } else {
        assert(min_pulse_us * 0 == 0) by (nonlinear_arith);
    }
}

/// Scanning one row: it is enabled, its lit cells are pulsed, and it is
/// disabled again, so that all lines are at rest before the next row begins.
pub proof fn lemma_row_scan(frame: Frame, row: int, min_pulse_us: u32)
    ensures
        toggle_count(row_scan(frame, row, min_pulse_us)) == 2 + 2 * frame.lit_in_row(row, 4),
        waited_us(row_scan(frame, row, min_pulse_us)) == min_pulse_us * frame.lit_in_row(row, 4),
        well_paired(row_scan(frame, row, min_pulse_us)),
{
    let enable = Command::Assert(Line::Row(row as u8));
    let disable = Command::Deassert(Line::Row(row as u8));
    let none = Seq::<Command>::empty();
    let pulses = row_pulses(frame, row, 4, min_pulse_us);
    assert(seq![enable] =~= none.push(enable));
    assert(seq![disable] =~= none.push(disable));
    lemma_row_pulses(frame, row, 4, min_pulse_us);
    lemma_toggle_count_push(none, enable);
    lemma_toggle_count_push(none, disable);
    lemma_waited_push(none, enable);
    lemma_waited_push(none, disable);
    lemma_after_all_push(at_rest(), none, enable);
    lemma_after_all_push(row_enabled(row), none, disable);
    lemma_toggle_count_concat(seq![enable], pulses);
    lemma_toggle_count_concat(seq![enable] + pulses, seq![disable]);
    lemma_waited_concat(seq![enable], pulses);
    lemma_waited_concat(seq![enable] + pulses, seq![disable]);
    lemma_after_all_concat(at_rest(), seq![enable], pulses);
    lemma_after_all_concat(at_rest(), seq![enable] + pulses, seq![disable]);
}

/// Scanning the rows before `rows`: two toggles for each row and two for each
/// lit cell, one pulse width of waiting for each lit cell, and every
/// assertion undone in its turn.
pub proof fn lemma_rows_scan(frame: Frame, rows: int, min_pulse_us: u32)
    requires
        0 <= rows,
    ensures
        toggle_count(rows_scan(frame, rows, min_pulse_us)) == 2 * rows + 2 * frame.lit_in_rows(
            rows,
        ),
        waited_us(rows_scan(frame, rows, min_pulse_us)) == min_pulse_us * frame.lit_in_rows(rows),
        well_paired(rows_scan(frame, rows, min_pulse_us)),
    decreases rows,
{
    if rows > 0 {
        let before = rows_scan(frame, rows - 1, min_pulse_us);
        let row = row_scan(frame, rows - 1, min_pulse_us);
        let earlier = frame.lit_in_rows(rows - 1);
        let here = frame.lit_in_row(rows - 1, 4);
        lemma_rows_scan(frame, rows - 1, min_pulse_us);
        lemma_row_scan(frame, rows - 1, min_pulse_us);
        lemma_toggle_count_concat(before, row);
        lemma_waited_concat(before, row);
        lemma_after_all_concat(at_rest(), before, row);
        assert(min_pulse_us * (earlier + here) == min_pulse_us * earlier + min_pulse_us * here)
            by (nonlinear_arith);
    } else {
        assert(min_pulse_us * 0 == 0) by (nonlinear_arith);
    }
}

/// One pass toggles each row line twice and each lit cell's column twice,
/// spends exactly the pass duration waiting, and undoes every assertion in
/// its turn: no two rows are ever enabled together.
pub proof fn lemma_pass(frame: Frame, min_pulse_us: u32)
    ensures
        toggle_count(pass_trace(frame, min_pulse_us)) == 8 + 2 * frame.lit_count(),
        waited_us(pass_trace(frame, min_pulse_us)) == pass_duration(frame, min_pulse_us),
        well_paired(pass_trace(frame, min_pulse_us)),
{
    lemma_rows_scan(frame, 4, min_pulse_us);
}

/// Repeating a well-paired unit multiplies its toggles and its waiting and
/// keeps it well paired.
pub proof fn lemma_repeated(unit: Seq<Command>, times: nat)
    requires
        well_paired(unit),
    ensures
        toggle_count(repeated(unit, times)) == times * toggle_count(unit),
        waited_us(repeated(unit, times)) == times * waited_us(unit),
        well_paired(repeated(unit, times)),
    decreases times,
{
    let toggles = toggle_count(unit) as int;
    let waited = waited_us(unit) as int;
    if times > 0 {
        let before = (times - 1) as nat;
        lemma_repeated(unit, before);
        lemma_toggle_count_concat(repeated(unit, before), unit);
        lemma_waited_concat(repeated(unit, before), unit);
        lemma_after_all_concat(at_rest(), repeated(unit, before), unit);
        assert(before * toggles + toggles == times * toggles) by (nonlinear_arith)
            requires
                before + 1 == times,
        ;
        assert(before * waited + waited == times * waited) by (nonlinear_arith)
            requires
                before + 1 == times,
        ;
    } else {
        assert(times * toggles == 0 && times * waited == 0) by (nonlinear_arith)
            requires
                times == 0,
        ;
    }
}

/// A frame with no lit cell is shown by waiting: the whole budget in one
/// wait, and no line is touched.
pub proof fn lemma_dark_frame_only_waits(frame: Frame, total_duration_us: u32, min_pulse_us: u32)
    requires
        frame.lit_count() == 0,
    ensures
        render_trace(frame, total_duration_us, min_pulse_us) == seq![
            Command::WaitMicros(total_duration_us),
        ],
        toggle_count(render_trace(frame, total_duration_us, min_pulse_us)) == 0,
        waited_us(render_trace(frame, total_duration_us, min_pulse_us)) == total_duration_us,
{
    let wait = Command::WaitMicros(total_duration_us);
    let none = Seq::<Command>::empty();
    assert(min_pulse_us * 0 == 0) by (nonlinear_arith);
    assert(seq![wait] =~= none.push(wait));
    lemma_toggle_count_push(none, wait);
    lemma_waited_push(none, wait);
}

/// Where at least one pass fits in the budget, the render is whole passes and
/// nothing else: as many as the budget divided by the pass duration, rounded
/// down.
pub proof fn lemma_whole_passes(frame: Frame, total_duration_us: u32, min_pulse_us: u32)
    requires
        min_pulse_us > 0,
        frame.lit_count() > 0,
        total_duration_us >= min_pulse_us * frame.lit_count(),
    ensures
        pass_count(frame, total_duration_us, min_pulse_us) == total_duration_us as int / (
        min_pulse_us * frame.lit_count()),
        pass_count(frame, total_duration_us, min_pulse_us) >= 1,
        render_trace(frame, total_duration_us, min_pulse_us) == repeated(
            pass_trace(frame, min_pulse_us),
            pass_count(frame, total_duration_us, min_pulse_us),
        ),
{
    let duration = pass_duration(frame, min_pulse_us) as int;
    assert(duration > 0) by (nonlinear_arith)
        requires
            duration == min_pulse_us * frame.lit_count(),
            min_pulse_us > 0,
            frame.lit_count() > 0,
    ;
    assert(total_duration_us as int / duration >= 1) by (nonlinear_arith)
        requires
            total_duration_us >= duration,
            duration > 0,
    ;
}

/// A budget shorter than one pass buys nothing: no pass, not even part of
/// one, no toggle and no wait.
pub proof fn lemma_short_budget_does_nothing(
    frame: Frame,
    total_duration_us: u32,
    min_pulse_us: u32,
)
    requires
        total_duration_us < min_pulse_us * frame.lit_count(),
    ensures
        pass_count(frame, total_duration_us, min_pulse_us) == 0,
        render_trace(frame, total_duration_us, min_pulse_us) == Seq::<Command>::empty(),
        toggle_count(render_trace(frame, total_duration_us, min_pulse_us)) == 0,
        waited_us(render_trace(frame, total_duration_us, min_pulse_us)) == 0,
{
    let duration = pass_duration(frame, min_pulse_us) as int;
    assert(total_duration_us as int / duration == 0) by (nonlinear_arith)
        requires
            0 <= total_duration_us < duration,
    ;
}

/// What a render does in all, for a frame with a lit cell and a pulse width
/// above zero: the toggles and the waiting of one pass, times the number of
/// passes. The waiting never exceeds the budget and falls short of it by less
/// than one pass.
pub proof fn lemma_render_totals(frame: Frame, total_duration_us: u32, min_pulse_us: u32)
    requires
        min_pulse_us > 0,
        frame.lit_count() > 0,
    ensures
        toggle_count(render_trace(frame, total_duration_us, min_pulse_us)) == pass_count(
            frame,
            total_duration_us,
            min_pulse_us,
        ) * (8 + 2 * frame.lit_count()),
        waited_us(render_trace(frame, total_duration_us, min_pulse_us)) == pass_count(
            frame,
            total_duration_us,
            min_pulse_us,
        ) * pass_duration(frame, min_pulse_us),
        waited_us(render_trace(frame, total_duration_us, min_pulse_us)) <= total_duration_us,
        total_duration_us < waited_us(render_trace(frame, total_duration_us, min_pulse_us))
            + pass_duration(frame, min_pulse_us),
{
    let duration = pass_duration(frame, min_pulse_us) as int;
    let count = pass_count(frame, total_duration_us, min_pulse_us);
    assert(duration > 0) by (nonlinear_arith)
        requires
            duration == min_pulse_us * frame.lit_count(),
            min_pulse_us > 0,
            frame.lit_count() > 0,
    ;
    lemma_pass(frame, min_pulse_us);
    lemma_repeated(pass_trace(frame, min_pulse_us), count);
    assert(count * duration <= total_duration_us < count * duration + duration)
        by (nonlinear_arith)
        requires
            count == total_duration_us as int / duration,
            duration > 0,
    ;
}

/// In every render each assertion is undone in its turn: a row is enabled and
/// disabled again before the next row begins, a column is switched on and off
/// again before the next column, and at most one row is enabled at any
/// instant.
pub proof fn lemma_render_well_paired(frame: Frame, total_duration_us: u32, min_pulse_us: u32)
    ensures
        well_paired(render_trace(frame, total_duration_us, min_pulse_us)),
{
    if pass_duration(frame, min_pulse_us) == 0 {
        let wait = Command::WaitMicros(total_duration_us);
        let none = Seq::<Command>::empty();
        assert(seq![wait] =~= none.push(wait));
        lemma_after_all_push(at_rest(), none, wait);
    } else {
        lemma_pass(frame, min_pulse_us);
        lemma_repeated(
            pass_trace(frame, min_pulse_us),
            pass_count(frame, total_duration_us, min_pulse_us),
        );
    }
}

/// Two frames show the same picture: they agree on each of the sixteen cells.
pub open spec fn same_picture(first: Frame, second: Frame) -> bool {
    forall|r: int, c: int| 0 <= r < 4 && 0 <= c < 4 ==> first.lit(r, c) == second.lit(r, c)
}

proof fn lemma_same_picture_row(first: Frame, second: Frame, row: int, cols: int, min_pulse_us: u32)
    requires
        same_picture(first, second),
        0 <= row < 4,
        0 <= cols <= 4,
    ensures
        first.lit_in_row(row, cols) == second.lit_in_row(row, cols),
        row_pulses(first, row, cols, min_pulse_us) == row_pulses(second, row, cols, min_pulse_us),
    decreases cols,
{
    if cols > 0 {
        lemma_same_picture_row(first, second, row, cols - 1, min_pulse_us);
        assert(first.lit(row, cols - 1) == second.lit(row, cols - 1));
    }
}

proof fn lemma_same_picture_rows(first: Frame, second: Frame, rows: int, min_pulse_us: u32)
    requires
        same_picture(first, second),
        0 <= rows <= 4,
    ensures
        first.lit_in_rows(rows) == second.lit_in_rows(rows),
        rows_scan(first, rows, min_pulse_us) == rows_scan(second, rows, min_pulse_us),
    decreases rows,
{
    if rows > 0 {
        lemma_same_picture_rows(first, second, rows - 1, min_pulse_us);
        lemma_same_picture_row(first, second, rows - 1, 4, min_pulse_us);
    }
}

/// Rendering is repeatable: the same picture, shown with the same budget and
/// the same pulse width, gives the same commands in the same order, with the
/// same waits. Nothing else enters into a render.
pub proof fn lemma_render_repeatable(
    first: Frame,
    second: Frame,
    total_duration_us: u32,
    min_pulse_us: u32,
)
    requires
        same_picture(first, second),
    ensures
        render_trace(first, total_duration_us, min_pulse_us) == render_trace(
            second,
            total_duration_us,
            min_pulse_us,
        ),
{
    lemma_same_picture_rows(first, second, 4, min_pulse_us);
}

proof fn lemma_in_range_concat(a: Seq<Command>, b: Seq<Command>)
    requires
        all_in_range(a),
        all_in_range(b),
    ensures
        all_in_range(a + b),
{
    assert forall|i: int| 0 <= i < (a + b).len() implies (#[trigger] (a + b)[i]).in_range() by {
        if i < a.len() {
            assert((a + b)[i] == a[i]);
        } else {
            assert((a + b)[i] == b[i - a.len()]);
        }
    }
}

proof fn lemma_row_pulses_in_range(frame: Frame, row: int, cols: int, min_pulse_us: u32)
    requires
        0 <= cols <= 4,
    ensures
        all_in_range(row_pulses(frame, row, cols, min_pulse_us)),
    decreases cols,
{
    if cols > 0 {
        lemma_row_pulses_in_range(frame, row, cols - 1, min_pulse_us);
        if frame.lit(row, cols - 1) {
            lemma_in_range_concat(
                row_pulses(frame, row, cols - 1, min_pulse_us),
                pulse(cols - 1, min_pulse_us),
            );
        }
    }
}

proof fn lemma_rows_scan_in_range(frame: Frame, rows: int, min_pulse_us: u32)
    requires
        0 <= rows <= 4,
    ensures
        all_in_range(rows_scan(frame, rows, min_pulse_us)),
    decreases rows,
{
    if rows > 0 {
        let row = rows - 1;
        lemma_rows_scan_in_range(frame, row, min_pulse_us);
        lemma_row_pulses_in_range(frame, row, 4, min_pulse_us);
        lemma_in_range_concat(
            seq![Command::Assert(Line::Row(row as u8))],
            row_pulses(frame, row, 4, min_pulse_us),
        );
        lemma_in_range_concat(
            seq![Command::Assert(Line::Row(row as u8))] + row_pulses(frame, row, 4, min_pulse_us),
            seq![Command::Deassert(Line::Row(row as u8))],
        );
        lemma_in_range_concat(
            rows_scan(frame, row, min_pulse_us),
            row_scan(frame, row, min_pulse_us),
        );
    }
}

proof fn lemma_repeated_in_range(unit: Seq<Command>, times: nat)
    requires
        all_in_range(unit),
    ensures
        all_in_range(repeated(unit, times)),
    decreases times,
{
    if times > 0 {
        lemma_repeated_in_range(unit, (times - 1) as nat);
        lemma_in_range_concat(repeated(unit, (times - 1) as nat), unit);
    }
}

/// A render never names a line that the matrix does not have: every row and
/// column it touches is one of the four.
pub proof fn lemma_render_in_range(frame: Frame, total_duration_us: u32, min_pulse_us: u32)
    ensures
        all_in_range(render_trace(frame, total_duration_us, min_pulse_us)),
{
    if pass_duration(frame, min_pulse_us) != 0 {
        lemma_rows_scan_in_range(frame, 4, min_pulse_us);
        lemma_repeated_in_range(
            pass_trace(frame, min_pulse_us),
            pass_count(frame, total_duration_us, min_pulse_us),
        );
    }
}

/// The state of a render after `steps` steps on which no fault was reported.
pub open spec fn after_steps(state: ScanState, steps: nat) -> ScanState
    decreases steps,
{
    if steps == 0 {
        state
    } else {
        after_steps(state, (steps - 1) as nat).step(Ok(())).0
    }
}

/// A render that meets no fault hands out its trace, command by command and
/// in order, and is finished from then on: step number `steps` (counted from
/// zero) hands out the command at that place of the trace, or reports the end
/// where the trace has none there.
pub proof fn lemma_fault_free_run(request: ScanRequest, steps: nat)
    ensures
        after_steps(ScanState::fresh(request), steps) == (ScanState {
            request,
            issued: if steps < request.trace().len() {
                steps
            } else {
                request.trace().len()
            },
            fault: None,
        }),
        after_steps(ScanState::fresh(request), steps).step(Ok(())).1 == if steps
            < request.trace().len() {
            Action::Perform(request.trace()[steps as int])
        } else {
            Action::Finished
        },
    decreases steps,
{
    if steps > 0 {
        lemma_fault_free_run(request, (steps - 1) as nat);
    }
}

/// A fault is final: whatever is reported afterwards, the render stays as it
/// is and halts with the fault that ended it.
pub proof fn lemma_fault_is_final(
    state: ScanState,
    fault: HardwareFault,
    last: Result<(), HardwareFault>,
)
    ensures
        state.step(Err(fault)).1 is Halt,
        state.step(Err(fault)).0.fault is Some,
        state.fault is Some ==> state.step(last) == (state, Action::Halt(state.fault.unwrap())),
{
}

/// The state of a playback after `steps` steps on which no fault was
/// reported.
pub open spec fn playback_after(state: PlayerState, steps: nat) -> PlayerState
    decreases steps,
{
    if steps == 0 {
        state
    } else {
        playback_after(state, (steps - 1) as nat).step(Ok(())).0
    }
}

/// A playback that meets no fault shows each frame in full and then moves
/// on. From the moment the frame at `index` comes on show, the steps hand out
/// the trace of its render, which has the animation's budget per frame and
/// its pulse width, command by command; the step after the last command
/// brings on the following frame, the first one after the last, so that the
/// animation loops without end.
pub proof fn lemma_frame_plays_through(animation: Animation, index: int, steps: nat)
    requires
        animation.playable(),
        0 <= index < animation.frames.len(),
        steps <= animation.request(index).trace().len(),
    ensures
        playback_after(PlayerState::showing(animation, index), steps) == (PlayerState {
            animation,
            current: index,
            scan: ScanState { request: animation.request(index), issued: steps, fault: None },
        }),
        playback_after(PlayerState::showing(animation, index), steps).step(Ok(())) == if steps
            < animation.request(index).trace().len() {
            (
                PlayerState {
                    animation,
                    current: index,
                    scan: ScanState {
                        request: animation.request(index),
                        issued: steps + 1,
                        fault: None,
                    },
                },
                PlayerAction::Perform(animation.request(index).trace()[steps as int]),
            )
        } else {
            (
                PlayerState::showing(animation, animation.successor(index)),
                PlayerAction::NextFrame(animation.successor(index) as usize),
            )
        },
        0 <= animation.successor(index) < animation.frames.len(),
        index + 1 == animation.frames.len() ==> animation.successor(index) == 0,
    decreases steps,
{
    if steps > 0 {
        lemma_frame_plays_through(animation, index, (steps - 1) as nat);
    }
}

} // verus!
