//! How a child process is brought to its end.

use vstd::prelude::*;

verus! {

/// How long a child process is given to end, in milliseconds.
pub const PATIENCE_MILLIS: u128 = 5000;

/// How long to wait between two looks at a child process, in milliseconds.
pub const POLL_PAUSE_MILLIS: u64 = 100;

/// What is to be done next to end a child process.
#[derive(Debug, Clone, Copy, PartialEq, Eq, Structural)]
pub enum Step {
    /// Kill it.
    Kill,
    /// Kill it, after a first failure.
    KillAgain,
    /// See how much time has passed since the first kill.
    CheckTime,
    /// See whether it has ended.
    Poll,
    /// Pause before the next look.
    Pause,
    /// Kill it, to be sure.
    ForceKill,
    /// Wait for its end.
    Wait,
    /// Nothing.
    Done,
}

/// What came of a step.
#[derive(Debug, Clone, Copy, PartialEq, Eq, Structural)]
pub enum Outcome {
    /// It worked.
    Worked,
    /// It failed.
    Failed,
    /// This many milliseconds have passed.
    Elapsed(u128),
    /// The process has ended.
    Ended,
    /// The process has not ended.
    Alive,
}

impl Step {
    /// The step after this one.
    pub open spec fn then_step(self, outcome: Outcome) -> Step {
        match self {
            Step::Kill => if outcome == Outcome::Failed {
                Step::KillAgain
            } else {
                Step::CheckTime
            },
            Step::KillAgain => Step::CheckTime,
            Step::CheckTime => match outcome {
                Outcome::Elapsed(millis) if millis < PATIENCE_MILLIS => Step::Poll,
                _ => Step::ForceKill,
            },
            Step::Poll => if outcome == Outcome::Alive {
                Step::Pause
            } else {
                Step::ForceKill
            },
            Step::Pause => Step::CheckTime,
            Step::ForceKill => Step::Wait,
            Step::Wait => Step::Done,
            Step::Done => Step::Done,
        }
    }

    /// The step after this one.
    pub fn next(self, outcome: Outcome) -> (r: Step)
        ensures
            r == self.then_step(outcome),
    {
        match self {
            Step::Kill => match outcome {
                Outcome::Failed => Step::KillAgain,
                _ => Step::CheckTime,
            },
            Step::KillAgain => Step::CheckTime,
            Step::CheckTime => match outcome {
                Outcome::Elapsed(millis) => if millis < PATIENCE_MILLIS {
                    Step::Poll
                } else {
                    Step::ForceKill
                },
                _ => Step::ForceKill,
            },
            Step::Poll => match outcome {
                Outcome::Alive => Step::Pause,
                _ => Step::ForceKill,
            },
            Step::Pause => Step::CheckTime,
            Step::ForceKill => Step::Wait,
            Step::Wait => Step::Done,
            Step::Done => Step::Done,
        }
    }
}

/// The step after a run of outcomes, from the beginning.
pub open spec fn step_after(outcomes: Seq<Outcome>) -> Step
    decreases outcomes.len(),
{
    if outcomes.len() == 0 {
        Step::Kill
    } else {
        step_after(outcomes.drop_last()).then_step(outcomes.last())
    }
}

/// Whether the process was killed to be sure, waited for and done with, one after the other, at
/// `n`.
pub open spec fn ended_at(outcomes: Seq<Outcome>, n: int) -> bool {
    &&& 0 <= n < outcomes.len() - 1
    &&& step_after(outcomes.take(n)) == Step::ForceKill
    &&& step_after(outcomes.take(n + 1)) == Step::Wait
    &&& step_after(outcomes.take(n + 2)) == Step::Done
}

/// Whatever comes of the steps, no child process is done with unless it was killed to be sure and
/// waited for.
pub proof fn lemma_no_end_without_wait(outcomes: Seq<Outcome>)
    requires
        step_after(outcomes) == Step::Done,
    ensures
        exists|n: int| ended_at(outcomes, n),
    decreases outcomes.len(),
{
    let before = outcomes.drop_last();
    if step_after(before) == Step::Done {
        lemma_no_end_without_wait(before);
        let k = choose|k: int| ended_at(before, k);
        assert(outcomes.take(k) =~= before.take(k));
        assert(outcomes.take(k + 1) =~= before.take(k + 1));
        assert(outcomes.take(k + 2) =~= before.take(k + 2));
        assert(ended_at(outcomes, k));
    } else {
        assert(step_after(before) == Step::Wait);
        assert(step_after(before.drop_last()) == Step::ForceKill);
        let n = outcomes.len() - 2;
        assert(outcomes.take(n + 2) =~= outcomes);
        assert(outcomes.take(n + 1) =~= before);
        assert(outcomes.take(n) =~= before.drop_last());
        assert(ended_at(outcomes, n));
    }
}

/// A child process that does not end is not waited for beyond its time: once that has passed, the
/// next look at the clock leads to the forced kill.
pub proof fn lemma_patience_is_limited(millis: u128)
    ensures
        millis >= 5000 ==> Step::CheckTime.then_step(Outcome::Elapsed(millis))
            == Step::ForceKill,
        millis < 5000 ==> Step::CheckTime.then_step(Outcome::Elapsed(millis))
            == Step::Poll,
{
}

/// The first kill is repeated once, where it fails, and then the clock runs whatever came of it.
/// A process that is alive is paused for and looked at again as long as there is time. One that
/// has ended, or that cannot be looked at, is killed to be sure and waited for, and that is all.
pub proof fn lemma_course(millis: u128, any: Outcome)
    requires
        millis < 5000,
    ensures
        step_after(Seq::empty()) == Step::Kill,
        any != Outcome::Failed ==> Step::Kill.then_step(any) == Step::CheckTime,
        Step::Kill.then_step(Outcome::Failed).then_step(any) == Step::CheckTime,
        Step::Kill.then_step(Outcome::Failed) == Step::KillAgain,
        Step::CheckTime.then_step(Outcome::Elapsed(millis)) == Step::Poll,
        Step::Poll.then_step(Outcome::Alive) == Step::Pause,
        Step::Pause.then_step(any) == Step::CheckTime,
        any != Outcome::Alive ==> Step::Poll.then_step(any) == Step::ForceKill,
        Step::ForceKill.then_step(any) == Step::Wait,
        Step::Wait.then_step(any) == Step::Done,
        Step::Done.then_step(any) == Step::Done,
{
}

} // verus!
