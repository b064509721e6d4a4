use led_matrix::frame::Frame;
use led_matrix::line::{Command, HardwareFault, Line};
use led_matrix::scan::{pass_commands, Action, ScanEngine, ScanRequest};

const F: bool = false;
const T: bool = true;

fn dark() -> Frame {
    Frame::new([[F; 4]; 4])
}

fn full() -> Frame {
    Frame::new([[T; 4]; 4])
}

fn single() -> Frame {
    Frame::new([[F, F, F, F], [F, F, T, F], [F, F, F, F], [F, F, F, F]])
}

fn request(frame: Frame, total_duration_us: u32, min_pulse_us: u32) -> ScanRequest {
    ScanRequest { frame, total_duration_us, min_pulse_us }
}

/// Runs a render to its end with no fault and collects what it hands out.
fn run(request: ScanRequest) -> Vec<Command> {
    let mut engine = ScanEngine::render(request);
    let mut commands = Vec::new();
    loop {
        match engine.step(Ok(())) {
            Action::Perform(command) => commands.push(command),
            Action::Finished => break,
            Action::Halt(fault) => panic!("unexpected fault on {:?}", fault.line),
        }
    }
    commands
}

fn toggles(commands: &[Command]) -> usize {
    commands.iter().filter(|c| !matches!(c, Command::WaitMicros(_))).count()
}

fn waited(commands: &[Command]) -> u64 {
    let mut total: u64 = 0;
    for command in commands {
        if let Command::WaitMicros(us) = command {
            total += u64::from(*us);
        }
    }
    total
}

/// Replays the commands on a model of the lines and reports each pulse as
/// (row, column, microseconds). Panics where the scanning discipline is
/// broken.
fn pulses(commands: &[Command]) -> Vec<(u8, u8, u32)> {
    let mut row: Option<u8> = None;
    let mut column: Option<u8> = None;
    let mut out = Vec::new();
    for command in commands {
        match *command {
            Command::Assert(Line::Row(r)) => {
                assert!(r < 4);
                assert_eq!(row, None, "a second row is enabled");
                assert_eq!(column, None);
                row = Some(r);
            }
            Command::Deassert(Line::Row(r)) => {
                assert_eq!(row, Some(r));
                assert_eq!(column, None, "row disabled under a lit column");
                row = None;
            }
            Command::Assert(Line::Column(c)) => {
                assert!(c < 4);
                assert!(row.is_some(), "column on with no row enabled");
                assert_eq!(column, None, "a second column is on");
                column = Some(c);
            }
            Command::Deassert(Line::Column(c)) => {
                assert_eq!(column, Some(c));
                column = None;
            }
            Command::WaitMicros(us) => {
                if let (Some(r), Some(c)) = (row, column) {
                    out.push((r, c, us));
                } else {
                    assert_eq!((row, column), (None, None), "wait under an enabled row alone");
                }
            }
        }
    }
    assert_eq!((row, column), (None, None), "lines left active");
    out
}

#[test]
fn dark_frame_waits_whole_budget() {
    let req = request(dark(), 1000, 50);
    assert_eq!(req.pass_duration_us(), 0);
    assert_eq!(req.pass_count(), 0);
    let commands = run(req);
    assert_eq!(commands, vec![Command::WaitMicros(1000)]);
    assert_eq!(toggles(&commands), 0);
    assert_eq!(waited(&commands), 1000);
}

#[test]
fn dark_frame_with_zero_budget_still_waits_once() {
    assert_eq!(run(request(dark(), 0, 50)), vec![Command::WaitMicros(0)]);
}

#[test]
fn single_cell_is_pulsed_twenty_times() {
    let req = request(single(), 1000, 50);
    assert_eq!(req.pass_duration_us(), 50);
    assert_eq!(req.pass_count(), 20);
    let commands = run(req);
    let one_pass = vec![
        Command::Assert(Line::Row(0)),
        Command::Deassert(Line::Row(0)),
        Command::Assert(Line::Row(1)),
        Command::Assert(Line::Column(2)),
        Command::WaitMicros(50),
        Command::Deassert(Line::Column(2)),
        Command::Deassert(Line::Row(1)),
        Command::Assert(Line::Row(2)),
        Command::Deassert(Line::Row(2)),
        Command::Assert(Line::Row(3)),
        Command::Deassert(Line::Row(3)),
    ];
    assert_eq!(commands.len(), 20 * one_pass.len());
    for pass in commands.chunks(one_pass.len()) {
        assert_eq!(pass, &one_pass[..]);
    }
    assert_eq!(pulses(&commands), vec![(1, 2, 50); 20]);
    assert_eq!(waited(&commands), 1000);
}

#[test]
fn full_frame_gets_one_pass() {
    let req = request(full(), 1000, 50);
    assert_eq!(req.pass_duration_us(), 800);
    assert_eq!(req.pass_count(), 1);
    let commands = run(req);
    assert_eq!(commands.len(), 8 + 3 * 16);
    assert_eq!(toggles(&commands), 8 + 2 * 16);
    let mut expected = Vec::new();
    for r in 0..4 {
        for c in 0..4 {
            expected.push((r, c, 50));
        }
    }
    assert_eq!(pulses(&commands), expected);
    assert_eq!(waited(&commands), 800);
}

#[test]
fn budget_shorter_than_a_pass_does_nothing() {
    let req = request(full(), 799, 50);
    assert_eq!(req.pass_duration_us(), 800);
    assert_eq!(req.pass_count(), 0);
    let mut engine = ScanEngine::render(req);
    assert_eq!(engine.step(Ok(())), Action::Finished);
    assert_eq!(engine.step(Ok(())), Action::Finished);
    assert_eq!(run(request(single(), 49, 50)), vec![]);
    assert_eq!(run(request(single(), 0, 1)), vec![]);
}

#[test]
fn budget_of_exactly_one_pass_gives_one_pass() {
    let commands = run(request(full(), 800, 50));
    assert_eq!(pulses(&commands).len(), 16);
    assert_eq!(waited(&commands), 800);
}

#[test]
fn remainder_of_the_budget_is_dropped() {
    let frame = Frame::new([[T, F, F, F], [F, F, F, T], [F, F, F, F], [F, T, F, F]]);
    let req = request(frame, 1000, 100);
    assert_eq!(frame.count_lit(), 3);
    assert_eq!(req.pass_duration_us(), 300);
    assert_eq!(req.pass_count(), 3);
    let commands = run(req);
    assert_eq!(waited(&commands), 900);
    assert_eq!(toggles(&commands), 3 * (8 + 2 * 3));
    assert_eq!(
        pulses(&commands),
        vec![
            (0, 0, 100),
            (1, 3, 100),
            (3, 1, 100),
            (0, 0, 100),
            (1, 3, 100),
            (3, 1, 100),
            (0, 0, 100),
            (1, 3, 100),
            (3, 1, 100),
        ]
    );
}

#[test]
fn sparse_frames_are_scanned_more_often() {
    let sparse = request(single(), 100_000, 50);
    let busy = request(full(), 100_000, 50);
    assert_eq!(sparse.pass_count(), 2000);
    assert_eq!(busy.pass_count(), 125);
    assert_eq!(waited(&run(sparse)), 100_000);
    assert_eq!(waited(&run(busy)), 100_000);
}

#[test]
fn pass_commands_of_one_row() {
    let frame = Frame::new([[F, F, F, F], [F, F, F, F], [T, F, F, T], [F, F, F, F]]);
    assert_eq!(
        pass_commands(&frame, 7),
        vec![
            Command::Assert(Line::Row(0)),
            Command::Deassert(Line::Row(0)),
            Command::Assert(Line::Row(1)),
            Command::Deassert(Line::Row(1)),
            Command::Assert(Line::Row(2)),
            Command::Assert(Line::Column(0)),
            Command::WaitMicros(7),
            Command::Deassert(Line::Column(0)),
            Command::Assert(Line::Column(3)),
            Command::WaitMicros(7),
            Command::Deassert(Line::Column(3)),
            Command::Deassert(Line::Row(2)),
            Command::Assert(Line::Row(3)),
            Command::Deassert(Line::Row(3)),
        ]
    );
}

#[test]
fn pass_commands_of_dark_frame_toggle_rows_only() {
    let commands = pass_commands(&dark(), 50);
    assert_eq!(commands.len(), 8);
    assert_eq!(pulses(&commands), vec![]);
}

#[test]
fn every_render_keeps_the_discipline() {
    let frames = [
        dark(),
        single(),
        full(),
        Frame::new([[T, T, F, F], [F, F, F, F], [F, T, F, T], [T, F, F, F]]),
    ];
    for frame in frames {
        for (total, min) in [(0, 1), (1000, 50), (999, 7), (5000, 300), (10, 10)] {
            let commands = run(request(frame, total, min));
            let lit = u64::from(frame.count_lit());
            for (r, c, us) in pulses(&commands) {
                assert!(frame.is_lit(r, c));
                assert_eq!(us, min);
            }
            if lit == 0 {
                assert_eq!(waited(&commands), u64::from(total));
            } else {
                let pass = u64::from(min) * lit;
                assert!(waited(&commands) <= u64::from(total));
                assert!(u64::from(total) < waited(&commands) + pass);
            }
        }
    }
}

#[test]
fn rendering_twice_gives_the_same_commands() {
    let frame = Frame::new([[T, F, T, F], [F, F, F, T], [F, T, F, F], [T, T, F, F]]);
    let first = run(request(frame, 12_345, 67));
    let second = run(request(Frame::new(frame.cells), 12_345, 67));
    assert!(!first.is_empty());
    assert_eq!(first, second);
}

#[test]
fn zero_pulse_width_waits_like_a_dark_frame() {
    let req = request(full(), 1000, 0);
    assert_eq!(req.pass_duration_us(), 0);
    assert_eq!(req.pass_count(), 0);
    assert_eq!(run(req), vec![Command::WaitMicros(1000)]);
}

#[test]
fn largest_values_do_not_overflow() {
    let req = request(full(), u32::MAX, u32::MAX);
    assert_eq!(req.pass_duration_us(), 16 * u64::from(u32::MAX));
    assert_eq!(req.pass_count(), 0);
    assert_eq!(run(req), vec![]);
    let one = request(single(), u32::MAX, u32::MAX);
    assert_eq!(one.pass_count(), 1);
    assert_eq!(pulses(&run(one)), vec![(1, 2, u32::MAX)]);
    assert_eq!(request(single(), u32::MAX, 1).pass_count(), u32::MAX);
}

#[test]
fn fault_halts_the_render_for_good() {
    let mut engine = ScanEngine::render(request(single(), 1000, 50));
    assert_eq!(engine.step(Ok(())), Action::Perform(Command::Assert(Line::Row(0))));
    let fault = HardwareFault { line: Line::Row(0) };
    assert_eq!(engine.step(Err(fault)), Action::Halt(fault));
    assert_eq!(engine.step(Ok(())), Action::Halt(fault));
    let other = HardwareFault { line: Line::Column(3) };
    assert_eq!(engine.step(Err(other)), Action::Halt(fault));
    assert_eq!(engine.step(Ok(())), Action::Halt(fault));
}

#[test]
fn finished_render_stays_finished() {
    let mut engine = ScanEngine::render(request(dark(), 5, 1));
    assert_eq!(engine.step(Ok(())), Action::Perform(Command::WaitMicros(5)));
    assert_eq!(engine.step(Ok(())), Action::Finished);
    assert_eq!(engine.step(Ok(())), Action::Finished);
    let fault = HardwareFault { line: Line::Column(1) };
    assert_eq!(engine.step(Err(fault)), Action::Halt(fault));
}
