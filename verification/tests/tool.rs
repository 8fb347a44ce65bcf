use rppal_softpwm::{
    Action, DutyCycle, Outcome, Playback, RppalSoftpwmLog, RppalSoftpwmTool, Start,
};
use std::cell::RefCell;

struct Recorder {
    lines: RefCell<Vec<String>>,
}

impl Recorder {
    fn new() -> Recorder {
        Recorder { lines: RefCell::new(Vec::new()) }
    }

    fn lines(&self) -> Vec<String> {
        self.lines.borrow().clone()
    }
}

impl RppalSoftpwmLog for Recorder {
    fn output(&self, message: &str) {
        self.lines.borrow_mut().push(format!("output: {}", message));
    }

    fn warning(&self, message: &str) {
        self.lines.borrow_mut().push(format!("warning: {}", message));
    }

    fn error(&self, message: &str) {
        self.lines.borrow_mut().push(format!("error: {}", message));
    }
}

fn program(frequency: u64, numerator: u64) -> Action {
    Action::Program { frequency, duty_cycle: DutyCycle { numerator, denominator: 180_000 } }
}

fn lines(words: &[&str]) -> Vec<String> {
    words.iter().map(|line| line.to_string()).collect()
}

fn decide<L: RppalSoftpwmLog + ?Sized>(
    tool: &RppalSoftpwmTool<L>,
    playback: &mut Playback,
    outcome: Outcome,
) -> Action {
    let (action, lines) = tool.advance(playback, outcome);
    for line in &lines {
        tool.sink().output(line);
    }
    action
}

#[test]
fn basic_test() {
    let recorder = Recorder::new();
    let tool = RppalSoftpwmTool::new(&recorder);
    let refusal = clap::Command::new("rppal_softpwm")
        .try_get_matches_from(vec!["", "--help"])
        .unwrap_err();
    assert_eq!(refusal.kind(), clap::error::ErrorKind::DisplayHelp);
    let words = refusal.to_string();
    match tool.begin(Err(words.clone())) {
        Some(Start::Stop { words: shown }) => assert_eq!(shown, words),
        _ => panic!("help starts no playback"),
    }
    assert!(recorder.lines().is_empty());
}

#[test]
fn refused_command_line_stops_the_run_with_its_words() {
    let recorder = Recorder::new();
    let tool = RppalSoftpwmTool::new(&recorder);
    match tool.begin(Err("error: invalid value".to_string())) {
        Some(Start::Stop { words }) => assert_eq!(words, "error: invalid value"),
        _ => panic!("a refused line starts no playback"),
    }
    match tool.begin(Err(String::new())) {
        Some(Start::Stop { words }) => assert_eq!(words, ""),
        _ => panic!("a refused line starts no playback"),
    }
}

#[test]
fn read_command_line_starts_a_playback() {
    let recorder = Recorder::new();
    let tool = RppalSoftpwmTool::new(&recorder);
    match tool.begin(Ok((50, vec![(90, 5)]))) {
        Some(Start::Play(mut playback)) => {
            assert_eq!(tool.advance(&mut playback, Outcome::Done), (program(50, 13_500), lines(&[])));
        }
        _ => panic!("steps within the swing are played"),
    }
    assert!(tool.begin(Ok((50, vec![(90, 5), (181, 5)]))).is_none());
    assert!(matches!(tool.begin(Ok((0, Vec::new()))), Some(Start::Play(_))));
}

#[test]
fn tool_is_made_with_a_log() {
    let recorder = Recorder::new();
    let tool = RppalSoftpwmTool::new(&recorder);
    assert!(recorder.lines().is_empty());
    tool.sink().output("ready");
    tool.sink().warning("slow");
    tool.sink().error("stuck");
    assert_eq!(recorder.lines(), lines(&["output: ready", "warning: slow", "error: stuck"]));
}

#[test]
fn tool_takes_a_log_behind_a_trait_object() {
    let recorder = Recorder::new();
    let log: &dyn RppalSoftpwmLog = &recorder;
    let tool = RppalSoftpwmTool::new(log);
    let mut playback = Playback::new(50, Vec::new()).unwrap();
    assert_eq!(decide(&tool, &mut playback, Outcome::Done), Action::Clear);
    assert_eq!(recorder.lines(), lines(&["output: Done"]));
}

#[test]
fn two_steps_are_played_in_the_order_given() {
    let recorder = Recorder::new();
    let tool = RppalSoftpwmTool::new(&recorder);
    let mut playback = Playback::new(50, vec![(0, 1000), (180, 250)]).unwrap();

    assert_eq!(tool.advance(&mut playback, Outcome::Done), (program(50, 4500), lines(&[])));
    assert_eq!(
        tool.advance(&mut playback, Outcome::Done),
        (Action::Hold { millis: 1000 }, lines(&[]))
    );
    assert_eq!(
        tool.advance(&mut playback, Outcome::Done),
        (program(50, 22_500), lines(&["0° for 1000 ms"]))
    );
    assert_eq!(
        tool.advance(&mut playback, Outcome::Done),
        (Action::Hold { millis: 250 }, lines(&[]))
    );
    assert_eq!(
        tool.advance(&mut playback, Outcome::Done),
        (Action::Clear, lines(&["180° for 250 ms", "Done"]))
    );
    assert_eq!(tool.advance(&mut playback, Outcome::Done), (Action::Finish, lines(&[])));
    assert_eq!(tool.advance(&mut playback, Outcome::Done), (Action::Finish, lines(&[])));
}

#[test]
fn each_step_is_reported_after_its_hold() {
    let recorder = Recorder::new();
    let tool = RppalSoftpwmTool::new(&recorder);
    let mut playback = Playback::new(50, vec![(0, 1000), (180, 250)]).unwrap();

    assert_eq!(decide(&tool, &mut playback, Outcome::Done), program(50, 4500));
    assert_eq!(decide(&tool, &mut playback, Outcome::Done), Action::Hold { millis: 1000 });
    assert_eq!(recorder.lines(), lines(&[]));
    assert_eq!(decide(&tool, &mut playback, Outcome::Done), program(50, 22_500));
    assert_eq!(recorder.lines(), lines(&["output: 0° for 1000 ms"]));
    assert_eq!(decide(&tool, &mut playback, Outcome::Done), Action::Hold { millis: 250 });
    assert_eq!(recorder.lines(), lines(&["output: 0° for 1000 ms"]));
    assert_eq!(decide(&tool, &mut playback, Outcome::Done), Action::Clear);
    assert_eq!(decide(&tool, &mut playback, Outcome::Done), Action::Finish);
    assert_eq!(
        recorder.lines(),
        lines(&["output: 0° for 1000 ms", "output: 180° for 250 ms", "output: Done"])
    );
}

#[test]
fn held_time_is_at_least_the_time_asked_for() {
    let recorder = Recorder::new();
    let tool = RppalSoftpwmTool::new(&recorder);
    let steps = vec![(45, 300), (135, 700)];
    let mut playback = Playback::new(100, steps.clone()).unwrap();
    let mut programmed: Vec<DutyCycle> = Vec::new();
    let mut held: Vec<u64> = Vec::new();
    loop {
        match decide(&tool, &mut playback, Outcome::Done) {
            Action::Program { frequency, duty_cycle } => {
                assert_eq!(frequency, 100);
                assert_eq!(programmed.len(), held.len());
                programmed.push(duty_cycle);
            }
            Action::Hold { millis } => {
                assert_eq!(programmed.len(), held.len() + 1);
                held.push(millis);
            }
            Action::Clear => assert_eq!(held.len(), steps.len()),
            Action::Finish => break,
            Action::Abort => panic!("nothing failed"),
        }
        let reported = recorder.lines().iter().filter(|line| line.ends_with(" ms")).count();
        assert!(reported <= held.len());
    }
    assert_eq!(held, vec![300, 700]);
    assert_eq!(
        programmed,
        vec![
            DutyCycle { numerator: 9000, denominator: 180_000 },
            DutyCycle { numerator: 18_000, denominator: 180_000 },
        ]
    );
    assert_eq!(
        recorder.lines(),
        lines(&["output: 45° for 300 ms", "output: 135° for 700 ms", "output: Done"])
    );
}

#[test]
fn empty_sequence_only_clears_the_pin() {
    let recorder = Recorder::new();
    let tool = RppalSoftpwmTool::new(&recorder);
    let mut playback = Playback::new(50, Vec::new()).unwrap();
    assert_eq!(tool.advance(&mut playback, Outcome::Done), (Action::Clear, lines(&["Done"])));
    assert_eq!(tool.advance(&mut playback, Outcome::Done), (Action::Finish, lines(&[])));
    assert_eq!(tool.advance(&mut playback, Outcome::Done), (Action::Finish, lines(&[])));
}

#[test]
fn failure_to_program_the_pin_aborts_the_rest() {
    let recorder = Recorder::new();
    let tool = RppalSoftpwmTool::new(&recorder);
    let mut playback = Playback::new(50, vec![(10, 1), (20, 2), (30, 3)]).unwrap();
    assert_eq!(decide(&tool, &mut playback, Outcome::Done), program(50, 5500));
    assert_eq!(decide(&tool, &mut playback, Outcome::Done), Action::Hold { millis: 1 });
    assert_eq!(decide(&tool, &mut playback, Outcome::Done), program(50, 6500));
    assert_eq!(tool.advance(&mut playback, Outcome::Failed), (Action::Abort, lines(&[])));
    assert_eq!(tool.advance(&mut playback, Outcome::Done), (Action::Abort, lines(&[])));
    assert_eq!(tool.advance(&mut playback, Outcome::Done), (Action::Abort, lines(&[])));
    assert_eq!(recorder.lines(), lines(&["output: 10° for 1 ms"]));
}

#[test]
fn failure_to_program_the_first_step_reports_nothing() {
    let recorder = Recorder::new();
    let tool = RppalSoftpwmTool::new(&recorder);
    let mut playback = Playback::new(50, vec![(10, 1)]).unwrap();
    assert_eq!(decide(&tool, &mut playback, Outcome::Done), program(50, 5500));
    assert_eq!(decide(&tool, &mut playback, Outcome::Failed), Action::Abort);
    assert_eq!(recorder.lines(), lines(&[]));
}

#[test]
fn failure_to_clear_the_pin_aborts() {
    let recorder = Recorder::new();
    let tool = RppalSoftpwmTool::new(&recorder);
    let mut playback = Playback::new(50, vec![(90, 5)]).unwrap();
    assert_eq!(decide(&tool, &mut playback, Outcome::Done), program(50, 13_500));
    assert_eq!(decide(&tool, &mut playback, Outcome::Done), Action::Hold { millis: 5 });
    assert_eq!(decide(&tool, &mut playback, Outcome::Done), Action::Clear);
    assert_eq!(decide(&tool, &mut playback, Outcome::Failed), Action::Abort);
    assert_eq!(decide(&tool, &mut playback, Outcome::Done), Action::Abort);
    assert_eq!(recorder.lines(), lines(&["output: 90° for 5 ms", "output: Done"]));
}

#[test]
fn playback_of_an_angle_above_180_does_not_exist() {
    assert!(Playback::new(50, vec![(181, 1)]).is_none());
    assert!(Playback::new(50, vec![(0, 1), (180, 1), (u64::MAX, 1)]).is_none());
    assert!(Playback::new(50, vec![(180, u64::MAX)]).is_some());
    assert!(Playback::new(0, Vec::new()).is_some());
}

#[test]
fn frequency_is_handed_on_unchanged() {
    let recorder = Recorder::new();
    let tool = RppalSoftpwmTool::new(&recorder);
    for frequency in [0u64, 1, 50, 333, u64::MAX] {
        let mut playback = Playback::new(frequency, vec![(90, 1)]).unwrap();
        assert_eq!(decide(&tool, &mut playback, Outcome::Done), program(frequency, 13_500));
    }
}

#[test]
fn report_is_due_after_each_hold_and_at_the_end() {
    let recorder = Recorder::new();
    let tool = RppalSoftpwmTool::new(&recorder);
    let mut playback = Playback::new(50, vec![(90, 1000)]).unwrap();
    assert_eq!(playback.report(), lines(&[]));
    assert_eq!(decide(&tool, &mut playback, Outcome::Done), program(50, 13_500));
    assert_eq!(playback.report(), lines(&[]));
    assert_eq!(decide(&tool, &mut playback, Outcome::Done), Action::Hold { millis: 1000 });
    assert_eq!(playback.report(), lines(&["90° for 1000 ms", "Done"]));
    assert_eq!(decide(&tool, &mut playback, Outcome::Done), Action::Clear);
    assert_eq!(playback.report(), lines(&[]));
    assert_eq!(decide(&tool, &mut playback, Outcome::Done), Action::Finish);
    assert_eq!(playback.report(), lines(&[]));
    assert_eq!(recorder.lines(), lines(&["output: 90° for 1000 ms", "output: Done"]));
}
