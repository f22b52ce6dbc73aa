//! The life of a run: start, wait for the interrupt, stop.
//!
//! The decisions are made here; what has to be done between them (calling
//! the service, waiting for the interrupt) is done by whoever drives the run.
//! The driver hands in what happened as an [`Event`] and is told what to do
//! next as an [`Action`].

use crate::error::{message_of, MyError, MyErrorView};
use vstd::prelude::*;
use vstd::string::StringExecFns;

verus! {

/// Where a run stands.
#[derive(Debug, Clone, Copy, PartialEq, Eq)]
pub enum Phase {
    /// Nothing is running: a run has not begun yet, or it is over.
    Stopped,
    /// The service has been asked to start and has not answered yet.
    Starting,
    /// The service runs; the run waits for the interrupt.
    Running,
    /// The service has been asked to stop and has not answered yet.
    Stopping,
}

/// What the driver reports.
#[derive(Debug, PartialEq, Eq)]
pub enum Event {
    /// A run is asked for.
    Launch,
    /// Starting the service has ended, well or with an error.
    StartReturned(Result<(), MyError>),
    /// The wait for the interrupt has ended: the interrupt arrived, or the
    /// wait itself failed.
    InterruptArrived(Result<(), MyError>),
    /// Stopping the service has ended, well or with an error.
    StopReturned(Result<(), MyError>),
}

/// What the driver is told to do next.
#[derive(Debug, PartialEq, Eq)]
pub enum Action {
    /// Start the service and report how it went.
    Start,
    /// Wait for the interrupt and report how the wait ended.
    AwaitInterrupt,
    /// Stop the service and report how it went.
    Stop,
    /// The run is over with this outcome; there is nothing more to do.
    Finish(Result<(), MyError>),
}

/// The transitions of a run. An event moves the run on only in the phase
/// that waits for it:
///
/// * stopped, and a run is asked for: start the service;
/// * starting, and the start went well: wait for the interrupt;
/// * running, and the interrupt arrived: stop the service;
/// * stopping, and the stop has ended: the run is over with the outcome of
///   the stop;
/// * starting or running, and the start or the wait failed: the run is over
///   with that error, and what would have followed is skipped.
///
/// For any other pair there is no transition. In particular nothing is laid
/// down for an interrupt that arrives a second time or for a stop that is
/// reported twice: what these should lead to is an open question, and here
/// they lead nowhere.
pub open spec fn next(phase: Phase, event: Event) -> Option<(Phase, Action)> {
    match (phase, event) {
        (Phase::Stopped, Event::Launch) => Some((Phase::Starting, Action::Start)),
        (Phase::Starting, Event::StartReturned(Ok(_))) => Some(
            (Phase::Running, Action::AwaitInterrupt),
        ),
        (Phase::Starting, Event::StartReturned(Err(error))) => Some(
            (Phase::Stopped, Action::Finish(Err(error))),
        ),
        (Phase::Running, Event::InterruptArrived(Ok(_))) => Some((Phase::Stopping, Action::Stop)),
        (Phase::Running, Event::InterruptArrived(Err(error))) => Some(
            (Phase::Stopped, Action::Finish(Err(error))),
        ),
        (Phase::Stopping, Event::StopReturned(outcome)) => Some(
            (Phase::Stopped, Action::Finish(outcome)),
        ),
        _ => None,
    }
}

/// Takes one step of a run: the phase it moves to and the action to take,
/// or `None` where the event is not the one that the phase waits for.
pub fn step(phase: Phase, event: Event) -> (moved: Option<(Phase, Action)>)
    ensures
        moved == next(phase, event),
{
    match phase {
        Phase::Stopped => match event {
            Event::Launch => Some((Phase::Starting, Action::Start)),
            _ => None,
        },
        Phase::Starting => match event {
            Event::StartReturned(Ok(_)) => Some((Phase::Running, Action::AwaitInterrupt)),
            Event::StartReturned(Err(error)) => Some((Phase::Stopped, Action::Finish(Err(error)))),
            _ => None,
        },
        Phase::Running => match event {
            Event::InterruptArrived(Ok(_)) => Some((Phase::Stopping, Action::Stop)),
            Event::InterruptArrived(Err(error)) => Some(
                (Phase::Stopped, Action::Finish(Err(error))),
            ),
            _ => None,
        },
        Phase::Stopping => match event {
            Event::StopReturned(outcome) => Some((Phase::Stopped, Action::Finish(outcome))),
            _ => None,
        },
    }
}

/// The actions that a sequence of events draws, one per event, when the
/// events are handed in one after the other from `phase` on; `None` if one of
/// them finds no transition.
pub open spec fn actions(phase: Phase, events: Seq<Event>) -> Option<Seq<Action>>
    decreases events.len(),
{
    if events.len() == 0 {
        Some(Seq::empty())
    } else {
        match next(phase, events[0]) {
            None => None,
            Some((then, action)) => match actions(then, events.skip(1)) {
                None => None,
                Some(rest) => Some(seq![action] + rest),
            },
        }
    }
}

/// A run from beginning to end: events that, handed in from the stopped
/// phase on, all find their transition, and of which the last one, and no
/// earlier one, ends the run.
pub open spec fn is_run(events: Seq<Event>) -> bool {
    &&& events.len() > 0
    &&& actions(Phase::Stopped, events) matches Some(drawn)
    &&& drawn.last() is Finish
    &&& forall|k: int| 0 <= k < drawn.len() - 1 ==> !(#[trigger] drawn[k] is Finish)
}

/// The run in which the start fails with `error`.
pub open spec fn failed_start(error: MyError) -> Seq<Event> {
    seq![Event::Launch, Event::StartReturned(Err(error))]
}

/// The run in which the service starts and the wait for the interrupt fails
/// with `error`.
pub open spec fn failed_wait(error: MyError) -> Seq<Event> {
    seq![Event::Launch, Event::StartReturned(Ok(())), Event::InterruptArrived(Err(error))]
}

/// The run in which the service starts, the interrupt arrives, and the stop
/// ends with `outcome`.
pub open spec fn interrupted(outcome: Result<(), MyError>) -> Seq<Event> {
    seq![
        Event::Launch,
        Event::StartReturned(Ok(())),
        Event::InterruptArrived(Ok(())),
        Event::StopReturned(outcome),
    ]
}

/// How often `action` occurs among `drawn`.
pub open spec fn occurrences(drawn: Seq<Action>, action: Action) -> nat
    decreases drawn.len(),
{
    if drawn.len() == 0 {
        0
    } else {
        occurrences(drawn.drop_last(), action) + if drawn.last() == action {
            1nat
        } else {
            0nat
        }
    }
}

/// The service is told to stop in exactly one situation: it runs, and the
/// interrupt has arrived. It is told to start in exactly one situation: it is
/// stopped, and a run is asked for.
pub proof fn lemma_stop_follows_the_interrupt(phase: Phase, event: Event)
    ensures
        (next(phase, event) matches Some((_, action)) && action == Action::Stop) <==> (phase
            == Phase::Running && event == Event::InterruptArrived(Ok(()))),
        (next(phase, event) matches Some((_, action)) && action == Action::Start) <==> (phase
            == Phase::Stopped && event == Event::Launch),
{
    if let Event::InterruptArrived(Ok(unit)) = event {
        assert(unit == ());
    }
}

/// A step ends the run exactly when it leads to the stopped phase, and the
/// outcome it ends with is the one that the event reported.
pub proof fn lemma_finish_reports_the_event(phase: Phase, event: Event)
    ensures
        next(phase, event) matches Some((then, action)) ==> (action is Finish <==> then
            == Phase::Stopped),
        next(phase, event) matches Some((_, Action::Finish(outcome))) ==> ({
            ||| event == Event::StartReturned(outcome) && outcome is Err
            ||| event == Event::InterruptArrived(outcome) && outcome is Err
            ||| event == Event::StopReturned(outcome)
        }),
{
}

/// However long the driver goes on and wherever it begins: whenever the
/// service is told to stop, the event that drew this was the arrival of the
/// interrupt, the action before it was to wait for the interrupt, and the
/// action before that was to start the service. Counted from the stopped
/// phase, a stop is therefore never among the first two actions.
pub proof fn lemma_stop_is_earned(phase: Phase, events: Seq<Event>, k: int)
    requires
        actions(phase, events) matches Some(drawn) && 0 <= k < drawn.len() && drawn[k]
            == Action::Stop,
    ensures
        k < events.len(),
        events[k] == Event::InterruptArrived(Ok(())),
        k == 0 ==> phase == Phase::Running,
        k == 1 ==> phase == Phase::Starting,
        phase == Phase::Stopped ==> k >= 2,
        k >= 1 ==> actions(phase, events)->0[k - 1] == Action::AwaitInterrupt,
        k >= 2 ==> actions(phase, events)->0[k - 2] == Action::Start,
    decreases events.len(),
{
    let drawn = actions(phase, events)->0;
    if events.len() == 0 {
        assert(drawn.len() == 0);
    } else {
        let after = next(phase, events[0])->0;
        let rest = actions(after.0, events.skip(1))->0;
        assert(drawn =~= seq![after.1] + rest);
        lemma_stop_follows_the_interrupt(phase, events[0]);
        if k > 0 {
            assert(rest[k - 1] == drawn[k]);
            lemma_stop_is_earned(after.0, events.skip(1), k - 1);
            assert(events.skip(1)[k - 1] == events[k]);
            if k >= 2 {
                assert(rest[k - 2] == drawn[k - 1]);
            }
            if k >= 3 {
                assert(rest[k - 3] == drawn[k - 2]);
            }
        }
    }
}

/// Every run has one of three shapes: the start fails; the start succeeds
/// and the wait fails; or the start succeeds, the interrupt arrives, and the
/// service is stopped. The actions are then fixed: the service is started
/// exactly once, first of all; it is stopped at most once, and only after it
/// was started and the interrupt arrived; and the run ends with the first
/// error, or else with the outcome of the stop.
pub proof fn lemma_shape_of_a_run(events: Seq<Event>)
    requires
        is_run(events),
    ensures
        ({
            ||| exists|error: MyError| #[trigger]
                failed_start(error) == events && actions(Phase::Stopped, events) == Some(
                    seq![Action::Start, Action::Finish(Err(error))],
                )
            ||| exists|error: MyError| #[trigger]
                failed_wait(error) == events && actions(Phase::Stopped, events) == Some(
                    seq![Action::Start, Action::AwaitInterrupt, Action::Finish(Err(error))],
                )
            ||| exists|outcome: Result<(), MyError>| #[trigger]
                interrupted(outcome) == events && actions(Phase::Stopped, events) == Some(
                    seq![
                        Action::Start,
                        Action::AwaitInterrupt,
                        Action::Stop,
                        Action::Finish(outcome),
                    ],
                )
        }),
{
    let drawn = actions(Phase::Stopped, events)->0;
    let e0 = events[0];
    assert(e0 == Event::Launch);
    let rest1 = events.skip(1);
    let drawn1 = actions(Phase::Starting, rest1)->0;
    assert(drawn =~= seq![Action::Start] + drawn1);
    if rest1.len() == 0 {
        assert(drawn.last() == Action::Start);
    } else {
        let e1 = rest1[0];
        let rest2 = rest1.skip(1);
        match e1 {
            Event::StartReturned(Ok(started)) => {
                assert(started == ());
                let drawn2 = actions(Phase::Running, rest2)->0;
                assert(drawn1 =~= seq![Action::AwaitInterrupt] + drawn2);
                if rest2.len() == 0 {
                    assert(drawn.last() == Action::AwaitInterrupt);
                } else {
                    let e2 = rest2[0];
                    let rest3 = rest2.skip(1);
                    match e2 {
                        Event::InterruptArrived(Ok(arrived)) => {
                            assert(arrived == ());
                            let drawn3 = actions(Phase::Stopping, rest3)->0;
                            assert(drawn2 =~= seq![Action::Stop] + drawn3);
                            if rest3.len() == 0 {
                                assert(drawn.last() == Action::Stop);
                            } else {
                                let e3 = rest3[0];
                                let rest4 = rest3.skip(1);
                                match e3 {
                                    Event::StopReturned(outcome) => {
                                        let drawn4 = actions(Phase::Stopped, rest4)->0;
                                        assert(drawn3 =~= seq![Action::Finish(outcome)] + drawn4);
                                        assert(drawn[3] == Action::Finish(outcome));
                                        assert(rest4.len() == 0) by {
                                            if rest4.len() > 0 {
                                                assert(drawn.len() > 4);
                                                assert(drawn[3] is Finish);
                                            }
                                        }
                                        assert(drawn4 =~= Seq::<Action>::empty());
                                        assert(events =~= interrupted(outcome));
                                        assert(drawn =~= seq![
                                            Action::Start,
                                            Action::AwaitInterrupt,
                                            Action::Stop,
                                            Action::Finish(outcome),
                                        ]);
                                    },
                                    _ => {},
                                }
                            }
                        },
                        Event::InterruptArrived(Err(error)) => {
                            let drawn3 = actions(Phase::Stopped, rest3)->0;
                            assert(drawn2 =~= seq![Action::Finish(Err(error))] + drawn3);
                            assert(drawn[2] == Action::Finish(Err(error)));
                            assert(rest3.len() == 0) by {
                                if rest3.len() > 0 {
                                    assert(drawn.len() > 3);
                                    assert(drawn[2] is Finish);
                                }
                            }
                            assert(drawn3 =~= Seq::<Action>::empty());
                            assert(events =~= failed_wait(error));
                            assert(drawn =~= seq![
                                Action::Start,
                                Action::AwaitInterrupt,
                                Action::Finish(Err(error)),
                            ]);
                        },
                        _ => {},
                    }
                }
            },
            Event::StartReturned(Err(error)) => {
                let drawn2 = actions(Phase::Stopped, rest2)->0;
                assert(drawn1 =~= seq![Action::Finish(Err(error))] + drawn2);
                assert(drawn[1] == Action::Finish(Err(error)));
                assert(rest2.len() == 0) by {
                    if rest2.len() > 0 {
                        assert(drawn.len() > 2);
                        assert(drawn[1] is Finish);
                    }
                }
                assert(drawn2 =~= Seq::<Action>::empty());
                assert(events =~= failed_start(error));
                assert(drawn =~= seq![Action::Start, Action::Finish(Err(error))]);
            },
            _ => {},
        }
    }
}

/// The outcome that a run ends with: what its last action reports.
pub open spec fn outcome_of(events: Seq<Event>) -> Result<(), MyError>
    recommends
        is_run(events),
{
    match actions(Phase::Stopped, events) {
        Some(drawn) => match drawn.last() {
            Action::Finish(outcome) => outcome,
            _ => Ok(()),
        },
        None => Ok(()),
    }
}

/// In every run the service is started exactly once, with the first action.
/// It is stopped at most once, never before it was started, and only by the
/// step that reports the arrival of the interrupt; and it is stopped in every
/// run in which the interrupt arrives.
pub proof fn lemma_started_once_stopped_after_interrupt(events: Seq<Event>)
    requires
        is_run(events),
    ensures
        actions(Phase::Stopped, events) matches Some(drawn) && {
            &&& drawn.len() == events.len()
            &&& drawn[0] == Action::Start
            &&& occurrences(drawn, Action::Start) == 1
            &&& occurrences(drawn, Action::Stop) <= 1
            &&& forall|k: int|
                0 <= k < drawn.len() && #[trigger] drawn[k] == Action::Stop ==> k > 0 && events[k]
                    == Event::InterruptArrived(Ok(()))
            &&& forall|k: int|
                0 <= k < events.len() && #[trigger] events[k] == Event::InterruptArrived(Ok(()))
                    ==> drawn[k] == Action::Stop
        },
{
    lemma_shape_of_a_run(events);
    let drawn = actions(Phase::Stopped, events)->0;
    reveal_with_fuel(occurrences, 5);
    if exists|error: MyError| #[trigger] failed_start(error) == events {
        let error = choose|error: MyError| #[trigger] failed_start(error) == events;
        let fixed = seq![Action::Start, Action::Finish(Err(error))];
        assert(fixed.drop_last() =~= seq![Action::Start]);
        assert(seq![Action::Start].drop_last() =~= Seq::<Action>::empty());
    } else if exists|error: MyError| #[trigger] failed_wait(error) == events {
        let error = choose|error: MyError| #[trigger] failed_wait(error) == events;
        let fixed = seq![Action::Start, Action::AwaitInterrupt, Action::Finish(Err(error))];
        assert(fixed.drop_last() =~= seq![Action::Start, Action::AwaitInterrupt]);
        assert(seq![Action::Start, Action::AwaitInterrupt].drop_last() =~= seq![Action::Start]);
        assert(seq![Action::Start].drop_last() =~= Seq::<Action>::empty());
    } else {
        let outcome = choose|outcome: Result<(), MyError>| #[trigger]
            interrupted(outcome) == events;
        let fixed = seq![
            Action::Start,
            Action::AwaitInterrupt,
            Action::Stop,
            Action::Finish(outcome),
        ];
        assert(fixed.drop_last() =~= seq![Action::Start, Action::AwaitInterrupt, Action::Stop]);
        assert(seq![Action::Start, Action::AwaitInterrupt, Action::Stop].drop_last() =~= seq![
            Action::Start,
            Action::AwaitInterrupt,
        ]);
        assert(seq![Action::Start, Action::AwaitInterrupt].drop_last() =~= seq![Action::Start]);
        assert(seq![Action::Start].drop_last() =~= Seq::<Action>::empty());
    }
}

/// Each of the three shapes is a run.
pub proof fn lemma_the_three_runs(error: MyError, outcome: Result<(), MyError>)
    ensures
        is_run(failed_start(error)),
        is_run(failed_wait(error)),
        is_run(interrupted(outcome)),
{
    reveal_with_fuel(actions, 5);
    let first = failed_start(error);
    assert(first.skip(1) =~= seq![Event::StartReturned(Err(error))]);
    assert(first.skip(1).skip(1) =~= Seq::<Event>::empty());
    assert(actions(Phase::Stopped, first)->0 =~= seq![Action::Start, Action::Finish(Err(error))]);
    let second = failed_wait(error);
    assert(second.skip(1) =~= seq![
        Event::StartReturned(Ok(())),
        Event::InterruptArrived(Err(error)),
    ]);
    assert(second.skip(1).skip(1) =~= seq![Event::InterruptArrived(Err(error))]);
    assert(second.skip(1).skip(1).skip(1) =~= Seq::<Event>::empty());
    assert(actions(Phase::Stopped, second)->0 =~= seq![
        Action::Start,
        Action::AwaitInterrupt,
        Action::Finish(Err(error)),
    ]);
    let third = interrupted(outcome);
    assert(third.skip(1) =~= seq![
        Event::StartReturned(Ok(())),
        Event::InterruptArrived(Ok(())),
        Event::StopReturned(outcome),
    ]);
    assert(third.skip(1).skip(1) =~= seq![
        Event::InterruptArrived(Ok(())),
        Event::StopReturned(outcome),
    ]);
    assert(third.skip(1).skip(1).skip(1) =~= seq![Event::StopReturned(outcome)]);
    assert(third.skip(1).skip(1).skip(1).skip(1) =~= Seq::<Event>::empty());
    assert(actions(Phase::Stopped, third)->0 =~= seq![
        Action::Start,
        Action::AwaitInterrupt,
        Action::Stop,
        Action::Finish(outcome),
    ]);
}

/// A run ends well, with exit code 0, exactly when the service started, the
/// interrupt arrived, and the stop went well. Every other run ends with exit
/// code 1 and with the first error that an event reported: the error of the
/// start or of the wait, after which the service is never told to stop, or
/// else the error of the stop.
pub proof fn lemma_exit_code_of_a_run(events: Seq<Event>)
    requires
        is_run(events),
    ensures
        exit_code_of(outcome_of(events)) == 0 <==> events == interrupted(Ok(())),
        exit_code_of(outcome_of(events)) != 0 ==> exit_code_of(outcome_of(events)) == 1
            && outcome_of(events) is Err,
        forall|error: MyError| #[trigger]
            failed_start(error) == events ==> outcome_of(events) == Err::<(), MyError>(error)
                && occurrences(actions(Phase::Stopped, events)->0, Action::Stop) == 0,
        forall|error: MyError| #[trigger]
            failed_wait(error) == events ==> outcome_of(events) == Err::<(), MyError>(error)
                && occurrences(actions(Phase::Stopped, events)->0, Action::Stop) == 0,
        forall|outcome: Result<(), MyError>| #[trigger]
            interrupted(outcome) == events ==> outcome_of(events) == outcome,
{
    lemma_shape_of_a_run(events);
    reveal_with_fuel(occurrences, 5);
    if exists|error: MyError| #[trigger] failed_start(error) == events {
        let error = choose|error: MyError| #[trigger] failed_start(error) == events;
        let fixed = seq![Action::Start, Action::Finish(Err(error))];
        assert(fixed.drop_last() =~= seq![Action::Start]);
        assert(seq![Action::Start].drop_last() =~= Seq::<Action>::empty());
        assert(interrupted(Ok(())).len() == 4);
        assert forall|other: MyError| #[trigger] failed_start(other) == events implies other
            == error by {
            assert(failed_start(other)[1] == failed_start(error)[1]);
        }
        assert forall|other: MyError| !(#[trigger] failed_wait(other) == events) by {
            assert(failed_wait(other).len() == 3);
        }
        assert forall|other: Result<(), MyError>| !(#[trigger] interrupted(other) == events) by {
            assert(interrupted(other).len() == 4);
        }
    } else if exists|error: MyError| #[trigger] failed_wait(error) == events {
        let error = choose|error: MyError| #[trigger] failed_wait(error) == events;
        let fixed = seq![Action::Start, Action::AwaitInterrupt, Action::Finish(Err(error))];
        assert(fixed.drop_last() =~= seq![Action::Start, Action::AwaitInterrupt]);
        assert(seq![Action::Start, Action::AwaitInterrupt].drop_last() =~= seq![Action::Start]);
        assert(seq![Action::Start].drop_last() =~= Seq::<Action>::empty());
        assert(interrupted(Ok(())).len() == 4);
        assert forall|other: MyError| #[trigger] failed_wait(other) == events implies other
            == error by {
            assert(failed_wait(other)[2] == failed_wait(error)[2]);
        }
        assert forall|other: Result<(), MyError>| !(#[trigger] interrupted(other) == events) by {
            assert(interrupted(other).len() == 4);
        }
    } else {
        let outcome = choose|outcome: Result<(), MyError>| #[trigger]
            interrupted(outcome) == events;
        if let Ok(unit) = outcome {
            assert(unit == ());
        }
        assert(interrupted(Ok(()))[3] == Event::StopReturned(Ok(())));
        assert forall|other: Result<(), MyError>| #[trigger]
            interrupted(other) == events implies other == outcome by {
            assert(interrupted(other)[3] == interrupted(outcome)[3]);
        }
        assert forall|other: MyError| !(#[trigger] failed_wait(other) == events) by {
            assert(failed_wait(other).len() == 3);
        }
    }
}

/// The exit code that a run's outcome stands for: 0 for a run that ended
/// well, 1 for one that ended with an error.
pub open spec fn exit_code_of(outcome: Result<(), MyError>) -> i32 {
    match outcome {
        Ok(_) => 0,
        Err(_) => 1,
    }
}

/// The line that reports a failed run: a fixed prefix and the text of the
/// error.
pub open spec fn report_of(error: MyErrorView) -> Seq<char> {
    "Application error: "@ + message_of(error)
}

/// The exit code of the process for the outcome of its run.
pub fn exit_code(outcome: &Result<(), MyError>) -> (code: i32)
    ensures
        code == exit_code_of(*outcome),
{
    match outcome {
        Ok(_) => 0,
        Err(_) => 1,
    }
}

/// The line to report a failed run with.
pub fn failure_report(error: &MyError) -> (line: String)
    ensures
        line@ == report_of(error@),
{
    let text = error.message();
    String::from_str("Application error: ").concat(text.as_str())
}

} // verus!
