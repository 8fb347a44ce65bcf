//! The tool that plays a sequence of servo angles on one pin.
//!
//! The tool touches neither the pin nor the terminal. It decides, one
//! action at a time, what is to be done to the pin next and what is to be
//! reported before that, and whoever owns the pin does both and says how
//! the action went. A [`Playback`] keeps the place in the sequence between
//! two such decisions.

use crate::duty::{degrees_to_duty_cycle, duty_cycle_of, DutyCycle, MAX_DEGREES};
use crate::message::{progress_message, progress_text};
use vstd::prelude::*;

verus! {

/// Where the reports of a tool go.
pub trait RppalSoftpwmLog {
    /// Takes a line of ordinary output.
    fn output(&self, message: &str);

    /// Takes a warning.
    fn warning(&self, message: &str);

    /// Takes the report of an error.
    fn error(&self, message: &str);
}

/// What is to be done next in a playback.
#[derive(Clone, Copy, Debug, PartialEq, Eq, Structural)]
pub enum Action {
    /// Set the PWM signal of the pin to `frequency` hertz at `duty_cycle`.
    Program { frequency: u64, duty_cycle: DutyCycle },
    /// Leave the pin as it is for `millis` milliseconds.
    Hold { millis: u64 },
    /// Clear the PWM signal of the pin.
    Clear,
    /// Nothing is left to do: the playback has ended well.
    Finish,
    /// Do nothing more to the pin, and hand on the failure that was met.
    Abort,
}

/// How the action that was asked for last went.
#[derive(Clone, Copy, Debug, PartialEq, Eq, Structural)]
pub enum Outcome {
    /// It was done, or nothing had been asked for yet.
    Done,
    /// The pin refused it.
    Failed,
}

/// Every angle of `steps` lies within the swing of a servo.
pub open spec fn steps_in_range(steps: Seq<(u64, u64)>) -> bool {
    forall|i: int| 0 <= i < steps.len() ==> (#[trigger] steps[i]).0 <= MAX_DEGREES
}

/// What a playback does to the pin while nothing fails: for each step in
/// turn the pin is programmed to the duty cycle of the angle and then held
/// for the time; after the last step the signal is cleared.
pub open spec fn plan_of(frequency: u64, steps: Seq<(u64, u64)>) -> Seq<Action> {
    Seq::new(
        2 * steps.len() + 1,
        |at: int|
            if at == 2 * steps.len() {
                Action::Clear
            } else if at % 2 == 0 {
                Action::Program { frequency, duty_cycle: duty_cycle_of(steps[at / 2].0) }
            } else {
                Action::Hold { millis: steps[at / 2].1 }
            },
    )
}

/// The views of a run of lines.
pub open spec fn lines_of(lines: Seq<String>) -> Seq<Seq<char>> {
    lines.map_values(|line: String| line@)
}

/// What is reported with the decision at `position` of the plan. A step is
/// reported once its hold is over, with the decision that follows it; the
/// end of the sequence is reported after the last step, with the decision
/// to clear the signal. Nothing is reported with any other decision.
pub open spec fn reports_of(steps: Seq<(u64, u64)>, position: nat) -> Seq<Seq<char>> {
    let of_step = if 2 <= position <= 2 * steps.len() && position % 2 == 0 {
        seq![
            progress_text(
                steps[position as int / 2 - 1].0,
                steps[position as int / 2 - 1].1,
            ),
        ]
    } else {
        Seq::empty()
    };
    let of_end = if position == 2 * steps.len() {
        seq!["Done"@]
    } else {
        Seq::empty()
    };
    of_step + of_end
}

/// One decision: the place in the plan and the failure mark after it, and
/// the action that it asks for. A failure, once reported, ends the playback
/// for good; else the plan is followed to its end.
pub open spec fn next_of(plan: Seq<Action>, position: nat, aborted: bool, outcome: Outcome) -> (
    nat,
    bool,
    Action,
) {
    if aborted || outcome == Outcome::Failed {
        (position, true, Action::Abort)
    } else if position < plan.len() {
        (position + 1, false, plan[position as int])
    } else {
        (position, false, Action::Finish)
    }
}

/// The actions that a run of decisions asks for, one for each outcome
/// reported.
pub open spec fn actions_of(
    plan: Seq<Action>,
    position: nat,
    aborted: bool,
    outcomes: Seq<Outcome>,
) -> Seq<Action>
    decreases outcomes.len(),
{
    if outcomes.len() == 0 {
        Seq::empty()
    } else {
        let (then_at, then_aborted, action) = next_of(plan, position, aborted, outcomes[0]);
        seq![action] + actions_of(plan, then_at, then_aborted, outcomes.drop_first())
    }
}

/// The place of a tool's user in a sequence of steps.
pub struct Playback {
    frequency: u64,
    steps: Vec<(u64, u64)>,
    index: usize,
    holding: bool,
    cleared: bool,
    aborted: bool,
}

impl Playback {
    /// The frequency of the PWM signal, in hertz.
    pub closed spec fn frequency(self) -> u64 {
        self.frequency
    }

    /// The steps to play: angles in degrees, each with its time in
    /// milliseconds.
    pub closed spec fn steps(self) -> Seq<(u64, u64)> {
        self.steps@
    }

    /// How many actions of the plan have been asked for.
    pub closed spec fn position(self) -> nat {
        (2 * self.index + if self.holding {
            1nat
        } else {
            0nat
        } + if self.cleared {
            1nat
        } else {
            0nat
        }) as nat
    }

    /// Whether a failure has ended the playback.
    pub closed spec fn aborted(self) -> bool {
        self.aborted
    }

    /// The plan that the playback follows.
    pub open spec fn plan(self) -> Seq<Action> {
        plan_of(self.frequency(), self.steps())
    }

    /// The playback is within its plan, and every angle within the swing.
    pub closed spec fn wf(self) -> bool {
        &&& self.index <= self.steps@.len()
        &&& self.holding ==> self.index < self.steps@.len()
        &&& self.cleared ==> self.index == self.steps@.len()
        &&& steps_in_range(self.steps@)
    }

    /// A playback that is well formed has its angles within the swing and
    /// its place within the plan.
    pub proof fn lemma_within_plan(self)
        requires
            self.wf(),
        ensures
            steps_in_range(self.steps()),
            self.position() <= self.plan().len(),
    {
    }

    /// The lines to report with the next decision of the plan.
    pub fn report(&self) -> (lines: Vec<String>)
        requires
            self.wf(),
        ensures
            lines_of(lines@) == reports_of(self.steps(), self.position()),
    {
        let mut lines: Vec<String> = Vec::new();
        if !self.cleared && !self.holding {
            if self.index > 0 {
                let (degrees, millis) = self.steps[self.index - 1];
                lines.push(progress_message(degrees, millis));
            }
            if self.index == self.steps.len() {
                lines.push("Done".to_owned());
            }
        }
        assert(lines_of(lines@) =~= reports_of(self.steps(), self.position()));
        lines
    }

    /// Starts a playback of `steps` at `frequency` hertz. There is none for
    /// steps with an angle above 180 degrees.
    pub fn new(frequency: u64, steps: Vec<(u64, u64)>) -> (playback: Option<Playback>)
        ensures
            playback is Some <==> steps_in_range(steps@),
            playback matches Some(fresh) ==> {
                &&& fresh.wf()
                &&& fresh.frequency() == frequency
                &&& fresh.steps() == steps@
                &&& fresh.position() == 0
                &&& !fresh.aborted()
            },
    {
        let mut i: usize = 0;
        while i < steps.len()
            invariant
                i <= steps@.len(),
                steps_in_range(steps@.take(i as int)),
            decreases steps@.len() - i,
        {
            if steps[i].0 > MAX_DEGREES {
                return None;
            }
            proof {
                let seen = steps@.take(i as int);
                let more = steps@.take(i + 1);
                assert forall|k: int| 0 <= k < more.len() implies (#[trigger] more[k]).0
                    <= MAX_DEGREES by {
                    if k < i {
                        assert(seen[k] == more[k]);
                    }
                }
            }
            i += 1;
        }
        assert(steps@.take(i as int) == steps@);
        Some(Playback { frequency, steps, index: 0, holding: false, cleared: false, aborted: false })
    }
}

/// How a run starts.
pub enum Start {
    /// The sequence is played.
    Play(Playback),
    /// Nothing is played: `words` go to the output and the run ends well.
    Stop { words: String },
}

/// The tool: it plays sequences and says what is to be reported to its log.
pub struct RppalSoftpwmTool<'a, L: RppalSoftpwmLog + ?Sized> {
    log: &'a L,
}

impl<'a, L: RppalSoftpwmLog + ?Sized> RppalSoftpwmTool<'a, L> {
    /// The log that the tool reports to.
    pub closed spec fn log(self) -> &'a L {
        self.log
    }

    /// Create a new instance of the tool.
    pub fn new(log: &'a L) -> (tool: RppalSoftpwmTool<'a, L>)
        ensures
            tool.log() == log,
    {
        RppalSoftpwmTool { log }
    }

    /// The log that the tool reports to.
    pub fn sink(&self) -> (log: &'a L)
        ensures
            log == self.log(),
    {
        self.log
    }

    /// Decides what is to be done next, given how the last action went,
    /// and what is to be reported to the output of the log before it is
    /// done.
    ///
    /// A step is reported when its hold is over, and the end of the
    /// sequence before the signal is cleared. A failure is followed by no
    /// report from here.
    pub fn advance(&self, playback: &mut Playback, outcome: Outcome) -> (step: (
        Action,
        Vec<String>,
    ))
        requires
            old(playback).wf(),
        ensures
            final(playback).wf(),
            final(playback).frequency() == old(playback).frequency(),
            final(playback).steps() == old(playback).steps(),
            (final(playback).position(), final(playback).aborted(), step.0) == next_of(
                old(playback).plan(),
                old(playback).position(),
                old(playback).aborted(),
                outcome,
            ),
            lines_of(step.1@) == if old(playback).aborted() || outcome == Outcome::Failed {
                Seq::<Seq<char>>::empty()
            } else {
                reports_of(old(playback).steps(), old(playback).position())
            },
    {
        if playback.aborted || outcome == Outcome::Failed {
            playback.aborted = true;
            let silent: Vec<String> = Vec::new();
            assert(lines_of(silent@) =~= Seq::<Seq<char>>::empty());
            return (Action::Abort, silent);
        }
        let lines = playback.report();
        if playback.cleared {
            return (Action::Finish, lines);
        }
        if playback.index == playback.steps.len() {
            playback.cleared = true;
            return (Action::Clear, lines);
        }
        let (degrees, millis) = playback.steps[playback.index];
        if playback.holding {
            playback.holding = false;
            playback.index = playback.index + 1;
            (Action::Hold { millis }, lines)
        } else {
            playback.holding = true;
            (
                Action::Program {
                    frequency: playback.frequency,
                    duty_cycle: degrees_to_duty_cycle(degrees),
                },
                lines,
            )
        }
    }

    /// Decides how a run starts, given what the command line was read as:
    /// its frequency and steps, or the words of the reader where it
    /// refused the line or was only asked for help. After such words the
    /// run stops at once, and well: there is no playback, so nothing is
    /// asked of any pin. There is no start at all for steps with an angle
    /// above 180 degrees.
    pub fn begin(&self, parsed: Result<(u64, Vec<(u64, u64)>), String>) -> (start: Option<Start>)
        ensures
            parsed matches Err(text) ==> start == Some(Start::Stop { words: text }),
            parsed matches Ok(read) ==> {
                &&& start is Some <==> steps_in_range(read.1@)
                &&& start matches Some(made) ==> {
                    &&& made matches Start::Play(fresh)
                    &&& fresh.wf()
                    &&& fresh.frequency() == read.0
                    &&& fresh.steps() == read.1@
                    &&& fresh.position() == 0
                    &&& !fresh.aborted()
                }
            },
    {
        match parsed {
            Err(text) => Some(Start::Stop { words: text }),
            Ok((frequency, steps)) => match Playback::new(frequency, steps) {
                Some(fresh) => Some(Start::Play(fresh)),
                None => None,
            },
        }
    }
}

/// No outcome in `outcomes` is a failure.
pub open spec fn all_done(outcomes: Seq<Outcome>) -> bool {
    forall|i: int| 0 <= i < outcomes.len() ==> #[trigger] outcomes[i] == Outcome::Done
}

/// The plan takes the steps in the order given: each angle is programmed at
/// its duty cycle, then held for its own time, before the next is touched,
/// and the signal is cleared after the last.
pub proof fn lemma_plan_in_order(frequency: u64, steps: Seq<(u64, u64)>, index: int)
    requires
        0 <= index < steps.len(),
    ensures
        plan_of(frequency, steps).len() == 2 * steps.len() + 1,
        plan_of(frequency, steps)[2 * index] == (Action::Program {
            frequency,
            duty_cycle: duty_cycle_of(steps[index].0),
        }),
        plan_of(frequency, steps)[2 * index + 1] == (Action::Hold { millis: steps[index].1 }),
        plan_of(frequency, steps).last() == Action::Clear,
{
}

/// Each step is reported once, with the decision that follows its hold, and
/// with no other: nothing is reported before the first step is programmed,
/// nothing while a step is held, and the end of the sequence is the last
/// thing reported with the decision to clear the signal.
pub proof fn lemma_reported_after_hold(steps: Seq<(u64, u64)>, index: int)
    requires
        0 <= index < steps.len(),
    ensures
        reports_of(steps, 0).len() == 0,
        reports_of(steps, (2 * index + 1) as nat).len() == 0,
        reports_of(steps, (2 * index + 2) as nat)[0] == progress_text(
            steps[index].0,
            steps[index].1,
        ),
        reports_of(steps, (2 * index + 2) as nat).len() == if index + 1 == steps.len() {
            2nat
        } else {
            1nat
        },
        reports_of(steps, 2 * steps.len()).last() == "Done"@,
        reports_of(steps, 2 * steps.len() + 1).len() == 0,
{
}

/// One action is asked for with each outcome reported.
pub proof fn lemma_actions_len(
    plan: Seq<Action>,
    position: nat,
    aborted: bool,
    outcomes: Seq<Outcome>,
)
    ensures
        actions_of(plan, position, aborted, outcomes).len() == outcomes.len(),
    decreases outcomes.len(),
{
    if outcomes.len() > 0 {
        let (then_at, then_aborted, action) = next_of(plan, position, aborted, outcomes[0]);
        lemma_actions_len(plan, then_at, then_aborted, outcomes.drop_first());
    }
}

/// While nothing fails, the actions asked for are those of the plan, each
/// once and in the order of the plan.
pub proof fn lemma_unbroken_run(plan: Seq<Action>, position: nat, outcomes: Seq<Outcome>)
    requires
        position + outcomes.len() <= plan.len(),
        all_done(outcomes),
    ensures
        actions_of(plan, position, false, outcomes) == plan.subrange(
            position as int,
            (position + outcomes.len()) as int,
        ),
    decreases outcomes.len(),
{
    let actions = actions_of(plan, position, false, outcomes);
    let part = plan.subrange(position as int, (position + outcomes.len()) as int);
    if outcomes.len() == 0 {
        assert(actions =~= part);
    } else {
        let rest = outcomes.drop_first();
        assert(outcomes[0] == Outcome::Done);
        assert forall|i: int| 0 <= i < rest.len() implies #[trigger] rest[i] == Outcome::Done by {
            assert(rest[i] == outcomes[i + 1]);
        }
        lemma_unbroken_run(plan, (position + 1) as nat, rest);
        assert(actions =~= part);
    }
}

/// Once the plan is through, every further decision is that nothing is left
/// to do.
pub proof fn lemma_finished_run(plan: Seq<Action>, outcomes: Seq<Outcome>, at: int)
    requires
        all_done(outcomes),
        0 <= at < outcomes.len(),
    ensures
        actions_of(plan, plan.len(), false, outcomes)[at] == Action::Finish,
    decreases outcomes.len(),
{
    let rest = outcomes.drop_first();
    assert(outcomes[0] == Outcome::Done);
    lemma_actions_len(plan, plan.len(), false, rest);
    if at > 0 {
        assert forall|i: int| 0 <= i < rest.len() implies #[trigger] rest[i] == Outcome::Done by {
            assert(rest[i] == outcomes[i + 1]);
        }
        lemma_finished_run(plan, rest, at - 1);
    }
}

/// A failure ends the playback: from the decision that learns of it on,
/// every decision is to abort, whatever is reported later.
pub proof fn lemma_failure_aborts(
    plan: Seq<Action>,
    position: nat,
    aborted: bool,
    outcomes: Seq<Outcome>,
    failed: int,
    at: int,
)
    requires
        0 <= failed <= at < outcomes.len(),
        aborted || outcomes[failed] == Outcome::Failed,
    ensures
        actions_of(plan, position, aborted, outcomes)[at] == Action::Abort,
    decreases outcomes.len(),
{
    let rest = outcomes.drop_first();
    let (then_at, then_aborted, action) = next_of(plan, position, aborted, outcomes[0]);
    lemma_actions_len(plan, then_at, then_aborted, rest);
    if at > 0 {
        if failed == 0 {
            lemma_failure_aborts(plan, then_at, then_aborted, rest, 0, at - 1);
        } else {
            assert(rest[failed - 1] == outcomes[failed]);
            lemma_failure_aborts(plan, then_at, then_aborted, rest, failed - 1, at - 1);
        }
    }
}

} // verus!
