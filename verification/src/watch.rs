//! The refresh loop: what the program does, step by step, in single-shot
//! mode and in watch mode.
//!
//! The loop itself runs outside this library, which only decides. After
//! each step the caller reports whether the step succeeded and is told the
//! next one.

use vstd::prelude::*;
use vstd::arithmetic::power2::*;
use crossterm::cursor::MoveTo;
use crossterm::terminal::{Clear, ClearType};
use crossterm::Command;
use crate::binary64::{exponent, fraction, gt, is_nan, magnitude, scaled, whole};
use crate::render::ESCAPE;

verus! {

/// How the program runs.
#[derive(Clone, Copy, Debug, PartialEq, Eq, Structural)]
pub enum Mode {
    /// One pass over the sensors, then the end.
    Idle,
    /// One pass after the other, without end, a pause between them.
    Watching,
}

/// One thing for the program to do.
#[derive(Clone, Copy, Debug, PartialEq, Eq, Structural)]
pub enum Step {
    /// Clear the terminal.
    ClearScreen,
    /// Move the cursor to the top left corner.
    MoveHome,
    /// Enumerate the sensors, render them and write the result out.
    RunPass,
    /// Pause for the refresh interval.
    Sleep,
    /// Leave, with a failure or without.
    Exit { failed: bool },
}

/// Why the program cannot start.
#[derive(Clone, Copy, Debug, PartialEq, Eq, Structural)]
pub enum StartupError {
    /// The refresh interval is no number, is negative, or is longer than
    /// any pause can be.
    InvalidInterval,
}

/// The state of the loop: its mode and the step that was last handed out.
#[derive(Clone, Copy, Debug, PartialEq, Eq, Structural)]
pub struct WatchLoop {
    pub mode: Mode,
    pub current: Option<Step>,
}

/// The word of two to the 64th, the first number of seconds that is too
/// long for a pause.
pub const PAUSE_LIMIT: u64 = 0x43f0_0000_0000_0000;

/// The sequence that clears the whole terminal.
pub open spec fn clear_sequence() -> Seq<char> {
    seq![ESCAPE, '[', '2', 'J']
}

/// The sequence that moves the cursor to the first row and first column.
pub open spec fn home_sequence() -> Seq<char> {
    seq![ESCAPE, '[', '1', ';', '1', 'H']
}

/// The control sequence that belongs to a step: clearing and moving the
/// cursor are done by writing one, the other steps write none.
pub open spec fn control_sequence(step: Step) -> Seq<char> {
    match step {
        Step::ClearScreen => clear_sequence(),
        Step::MoveHome => home_sequence(),
        _ => Seq::empty(),
    }
}

/// Whether a number of seconds, given as its binary64 word, can be paused
/// for: it is a number, not negative, and below two to the 64th.
pub open spec fn is_valid_interval(seconds: u64) -> bool {
    !is_nan(seconds) && 0 <= scaled(seconds) < whole(0x1_0000_0000_0000_0000)
}

/// The step that follows `current`, which succeeded or not. `None` stands
/// for the start, before any step.
///
/// Any failure ends the program, and so does the one pass of single-shot
/// mode. In watch mode the steps go round: clear, home, pass, sleep.
pub open spec fn successor(mode: Mode, current: Option<Step>, succeeded: bool) -> Step {
    match current {
        Some(Step::Exit { failed }) => Step::Exit { failed },
        _ => if !succeeded {
            Step::Exit { failed: true }
        } else {
            match (mode, current) {
                (Mode::Idle, None) => Step::RunPass,
                (Mode::Idle, _) => Step::Exit { failed: false },
                (Mode::Watching, None) => Step::ClearScreen,
                (Mode::Watching, Some(Step::ClearScreen)) => Step::MoveHome,
                (Mode::Watching, Some(Step::MoveHome)) => Step::RunPass,
                (Mode::Watching, Some(Step::RunPass)) => Step::Sleep,
                (Mode::Watching, _) => Step::ClearScreen,
            }
        },
    }
}

/// The `index`-th step of a run in which every step succeeds.
pub open spec fn step_at(mode: Mode, index: nat) -> Step
    decreases index,
{
    if index == 0 {
        successor(mode, None, true)
    } else {
        successor(mode, Some(step_at(mode, (index - 1) as nat)), true)
    }
}

/// The step at a position of the round of watch mode: clear, home, pass,
/// sleep, and again from the start.
pub open spec fn round_step(index: nat) -> Step {
    if index % 4 == 0 {
        Step::ClearScreen
    } else if index % 4 == 1 {
        Step::MoveHome
    } else if index % 4 == 2 {
        Step::RunPass
    } else {
        Step::Sleep
    }
}

/// How many of the first `count` steps of such a run are `step`.
pub open spec fn occurrences(mode: Mode, step: Step, count: nat) -> nat
    decreases count,
{
    if count == 0 {
        0
    } else {
        let before = occurrences(mode, step, (count - 1) as nat);
        if step_at(mode, (count - 1) as nat) == step {
            before + 1
        } else {
            before
        }
    }
}

/// The sequence with which crossterm clears the whole terminal: what
/// `Command::write_ansi` writes for `Clear(ClearType::All)`.
///
/// Claimed of crossterm: the four characters `ESC [ 2 J`.
#[verifier::external_body]
fn clear_all() -> (sequence: String)
    ensures
        sequence@ == clear_sequence(),
{
    let mut sequence = String::new();
    let _ = Clear(ClearType::All).write_ansi(&mut sequence);
    sequence
}

/// The sequence with which crossterm moves the cursor to the top left
/// corner: what `Command::write_ansi` writes for `MoveTo(0, 0)`.
///
/// Claimed of crossterm: `ESC [ 1 ; 1 H`, row and column counted from one.
#[verifier::external_body]
fn move_home() -> (sequence: String)
    ensures
        sequence@ == home_sequence(),
{
    let mut sequence = String::new();
    let _ = MoveTo(0, 0).write_ansi(&mut sequence);
    sequence
}

/// What a step writes to the terminal before anything else.
pub fn control_text(step: Step) -> (text: String)
    ensures
        text@ == control_sequence(step),
{
    match step {
        Step::ClearScreen => clear_all(),
        Step::MoveHome => move_home(),
        _ => String::new(),
    }
}

/// The word of `PAUSE_LIMIT` encodes two to the 64th.
proof fn lemma_pause_limit()
    ensures
        !is_nan(PAUSE_LIMIT),
        scaled(PAUSE_LIMIT) == whole(0x1_0000_0000_0000_0000),
{
    lemma2_to64();
    lemma2_to64_rest();
    assert(exponent(PAUSE_LIMIT) == 1087);
    assert(fraction(PAUSE_LIMIT) == 0);
    lemma_pow2_adds(52, 1086);
    lemma_pow2_adds(64, 1074);
    assert(magnitude(PAUSE_LIMIT) == pow2(52) * pow2(1086));
}

/// Whether a refresh interval, in seconds and given as its binary64 word,
/// can be used.
pub fn interval_is_valid(seconds: u64) -> (valid: bool)
    ensures
        valid == is_valid_interval(seconds),
{
    proof {
        lemma_pause_limit();
    }
    gt(PAUSE_LIMIT, seconds) && !gt(0, seconds)
}

/// Chooses the mode from the refresh interval that was asked for, if any.
pub fn mode_for(interval: Option<u64>) -> (result: Result<Mode, StartupError>)
    ensures
        result == match interval {
            None => Ok::<Mode, StartupError>(Mode::Idle),
            Some(seconds) => if is_valid_interval(seconds) {
                Ok(Mode::Watching)
            } else {
                Err(StartupError::InvalidInterval)
            },
        },
{
    match interval {
        None => Ok(Mode::Idle),
        Some(seconds) => if interval_is_valid(seconds) {
            Ok(Mode::Watching)
        } else {
            Err(StartupError::InvalidInterval)
        },
    }
}

impl WatchLoop {
    /// A loop in the given mode, before its first step.
    pub fn new(mode: Mode) -> (watch: WatchLoop)
        ensures
            watch == (WatchLoop { mode, current: None }),
    {
        WatchLoop { mode, current: None }
    }

    /// Hands out the next step. `succeeded` says how the step that was
    /// handed out before has ended; before the first step it is `true`.
    pub fn advance(&mut self, succeeded: bool) -> (step: Step)
        ensures
            step == successor(old(self).mode, old(self).current, succeeded),
            final(self).mode == old(self).mode,
            final(self).current == Some(step),
    {
        let step: Step = match self.current {
            Some(Step::Exit { failed }) => Step::Exit { failed },
            _ => if !succeeded {
                Step::Exit { failed: true }
            } else {
                match self.mode {
                    Mode::Idle => match self.current {
                        None => Step::RunPass,
                        _ => Step::Exit { failed: false },
                    },
                    Mode::Watching => match self.current {
                        None => Step::ClearScreen,
                        Some(Step::ClearScreen) => Step::MoveHome,
                        Some(Step::MoveHome) => Step::RunPass,
                        Some(Step::RunPass) => Step::Sleep,
                        _ => Step::ClearScreen,
                    },
                }
            },
        };
        self.current = Some(step);
        step
    }
}

/// In single-shot mode a run is one pass and then the end.
pub proof fn lemma_idle_runs_one_pass(index: nat)
    ensures
        step_at(Mode::Idle, 0) == Step::RunPass,
        index > 0 ==> step_at(Mode::Idle, index) == (Step::Exit { failed: false }),
    decreases index,
{
    if index > 0 {
        lemma_idle_runs_one_pass((index - 1) as nat);
    }
}

/// In watch mode the steps go round without end: clear, home, pass, sleep.
pub proof fn lemma_watch_cycle(index: nat)
    ensures
        step_at(Mode::Watching, index) == round_step(index),
    decreases index,
{
    if index > 0 {
        lemma_watch_cycle((index - 1) as nat);
    }
}

/// In watch mode every pass comes directly after a clear and a home.
pub proof fn lemma_pass_follows_clear_and_home(index: nat)
    requires
        step_at(Mode::Watching, index) == Step::RunPass,
    ensures
        index >= 2,
        step_at(Mode::Watching, (index - 2) as nat) == Step::ClearScreen,
        step_at(Mode::Watching, (index - 1) as nat) == Step::MoveHome,
{
    lemma_watch_cycle(index);
    if index >= 2 {
        lemma_watch_cycle((index - 2) as nat);
        lemma_watch_cycle((index - 1) as nat);
    }
}

/// In watch mode there is exactly one pass per pause: when the `ticks`-th
/// pause has ended, after four steps for each, `ticks` passes have been
/// made and `ticks` pauses, and the last of these steps was a pause.
pub proof fn lemma_one_pass_per_tick(ticks: nat)
    ensures
        occurrences(Mode::Watching, Step::RunPass, 4 * ticks) == ticks,
        occurrences(Mode::Watching, Step::Sleep, 4 * ticks) == ticks,
        ticks > 0 ==> step_at(Mode::Watching, (4 * ticks - 1) as nat) == Step::Sleep,
    decreases ticks,
{
    if ticks > 0 {
        let start: nat = (4 * (ticks - 1)) as nat;
        lemma_one_pass_per_tick((ticks - 1) as nat);
        lemma_watch_cycle(start);
        lemma_watch_cycle(start + 1);
        lemma_watch_cycle(start + 2);
        lemma_watch_cycle(start + 3);
        reveal_with_fuel(occurrences, 5);
        assert(occurrences(Mode::Watching, Step::RunPass, start + 4) == occurrences(
            Mode::Watching,
            Step::RunPass,
            start,
        ) + 1);
        assert(occurrences(Mode::Watching, Step::Sleep, start + 4) == occurrences(
            Mode::Watching,
            Step::Sleep,
            start,
        ) + 1);
    }
}

} // verus!
