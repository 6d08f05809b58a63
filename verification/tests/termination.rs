use dev_dashboard::termination::{Outcome, Step, PATIENCE_MILLIS, POLL_PAUSE_MILLIS};

fn run(outcomes: &[Outcome]) -> Vec<Step> {
    let mut step = Step::Kill;
    let mut steps = vec![step];
    for outcome in outcomes {
        step = step.next(*outcome);
        steps.push(step);
    }
    steps
}

#[test]
fn process_that_ends_at_once() {
    let steps = run(&[
        Outcome::Worked,
        Outcome::Elapsed(0),
        Outcome::Ended,
        Outcome::Failed,
        Outcome::Worked,
    ]);
    assert_eq!(
        steps,
        vec![Step::Kill, Step::CheckTime, Step::Poll, Step::ForceKill, Step::Wait, Step::Done]
    );
}

#[test]
fn kill_is_tried_twice() {
    let steps = run(&[Outcome::Failed, Outcome::Failed, Outcome::Elapsed(1)]);
    assert_eq!(steps, vec![Step::Kill, Step::KillAgain, Step::CheckTime, Step::Poll]);
}

#[test]
fn process_that_does_not_end_is_given_up_on() {
    assert_eq!(PATIENCE_MILLIS, 5000);
    assert_eq!(POLL_PAUSE_MILLIS, 100);
    let steps = run(&[
        Outcome::Worked,
        Outcome::Elapsed(4999),
        Outcome::Alive,
        Outcome::Worked,
        Outcome::Elapsed(5000),
        Outcome::Worked,
        Outcome::Worked,
        Outcome::Worked,
    ]);
    assert_eq!(
        steps,
        vec![
            Step::Kill,
            Step::CheckTime,
            Step::Poll,
            Step::Pause,
            Step::CheckTime,
            Step::ForceKill,
            Step::Wait,
            Step::Done,
            Step::Done,
        ]
    );
}

#[test]
fn failed_look_ends_the_waiting() {
    assert_eq!(Step::Poll.next(Outcome::Failed), Step::ForceKill);
}
