//! What holds of every session, whatever events reach it.

use crate::codec::{decode_spec, TelemetryFrame};
use crate::gatt::END_WEIGHT_MEASUREMENT;
use crate::session::{
    end_command,
    transition,
    outcome_of,
    rank,
    Action,
    Event,
    Session,
    Step,
};
use vstd::prelude::*;

verus! {

/// The session after a run of events.
pub open spec fn run(session: Session, events: Seq<Event>) -> Session
    decreases events.len(),
{
    if events.len() == 0 {
        session
    } else {
        run(transition(session, events[0]).0, events.drop_first())
    }
}

/// Whether an action writes the command that ends the measurement.
pub open spec fn ends_measurement(action: Action) -> bool {
    action matches Action::WriteControl { opcode, .. } && opcode == END_WEIGHT_MEASUREMENT
}

/// How often a run of events has the session ask for the command that ends
/// the measurement.
pub open spec fn end_commands(session: Session, events: Seq<Event>) -> nat
    decreases events.len(),
{
    if events.len() == 0 {
        0
    } else {
        let made = transition(session, events[0]);
        let here: nat = if ends_measurement(made.1) {
            1
        } else {
            0
        };
        here + end_commands(made.0, events.drop_first())
    }
}

/// A session never goes back: an event leaves it at its step or takes it to
/// a later one, and it stays where it is only while streaming and once it is
/// over.
pub proof fn lemma_forward_only(session: Session, event: Event)
    ensures
        rank(transition(session, event).0.step) >= rank(session.step),
        rank(transition(session, event).0.step) == rank(session.step) ==> session.step is Streaming
            || session.step is Finished,
        session.step is Finished ==> transition(session, event).0 == session,
{
}

/// The first failure of a session is the one it keeps and reports.
pub proof fn lemma_first_failure_kept(session: Session, event: Event)
    requires
        session.failure is Some,
    ensures
        transition(session, event).0.failure == session.failure,
{
}

/// A session is over exactly when it says so, and what it says is its first
/// failure, or success if it met none.
pub proof fn lemma_finish_reports(session: Session, event: Event)
    ensures
        transition(session, event).1 is Finish <==> transition(session, event).0.step is Finished,
        transition(session, event).1 matches Action::Finish { outcome } ==> outcome == outcome_of(
            transition(session, event).0.failure,
        ),
        transition(session, event).0.failure is None ==> session.failure is None,
{
}

/// A weight is stored for exactly the notifications that arrive while the
/// session streams and runs and that hold a weight measurement, and what is
/// stored is the measured value. Storing leaves the session where it is.
pub proof fn lemma_weight_stored(session: Session, event: Event, weight: u32)
    ensures
        transition(session, event).1 == (Action::StoreWeight { weight }) <==> session.step is Streaming
            && (event matches Event::Notification { running, value } && running && (decode_spec(
            value@,
        ) matches Some(TelemetryFrame::WeightMeasurement(sample)) && sample.value == weight)),
        transition(session, event).1 is StoreWeight ==> transition(session, event).0 == session,
{
}

/// Once the running flag is down, the next notification ends the stream:
/// whatever it holds, nothing is stored and the command that ends the
/// measurement goes to the control characteristic.
pub proof fn lemma_stop_exits(session: Session, event: Event)
    requires
        session.step is Streaming,
        event matches Event::Notification { running, .. } && !running,
    ensures
        transition(session, event).0.step == Step::EndingMeasurement,
        transition(session, event).0.failure == session.failure,
        transition(session, event).1 == end_command(session.step->Streaming_0),
        ends_measurement(transition(session, event).1),
{
}

/// From the step that ends the measurement on, the command that ends it is
/// not asked for again.
pub proof fn lemma_no_second_end_command(session: Session, events: Seq<Event>)
    requires
        rank(session.step) >= rank(Step::EndingMeasurement),
    ensures
        end_commands(session, events) == 0,
    decreases events.len(),
{
    if events.len() > 0 {
        lemma_forward_only(session, events[0]);
        lemma_no_second_end_command(transition(session, events[0]).0, events.drop_first());
    }
}

/// No run of events has a session ask more than once for the command that
/// ends the measurement.
pub proof fn lemma_end_command_at_most_once(session: Session, events: Seq<Event>)
    ensures
        end_commands(session, events) <= 1,
    decreases events.len(),
{
    if events.len() > 0 {
        let made = transition(session, events[0]);
        if ends_measurement(made.1) {
            assert(made.0.step == Step::EndingMeasurement);
            lemma_no_second_end_command(made.0, events.drop_first());
        } else {
            lemma_end_command_at_most_once(made.0, events.drop_first());
        }
    }
}

/// Shutdown: when a streaming session takes up a notification with the
/// running flag down, the command that ends the measurement is asked for
/// exactly once, then and never after, whatever events follow.
pub proof fn lemma_stop_writes_end_command_once(session: Session, events: Seq<Event>)
    requires
        session.step is Streaming,
        events.len() > 0,
        events[0] matches Event::Notification { running, .. } && !running,
    ensures
        end_commands(session, events) == 1,
        rank(run(session, events).step) >= rank(Step::EndingMeasurement),
{
    lemma_stop_exits(session, events[0]);
    let after = transition(session, events[0]).0;
    lemma_no_second_end_command(after, events.drop_first());
    lemma_run_forward(after, events.drop_first());
}

/// A run of events never takes a session back.
pub proof fn lemma_run_forward(session: Session, events: Seq<Event>)
    ensures
        rank(run(session, events).step) >= rank(session.step),
    decreases events.len(),
{
    if events.len() > 0 {
        lemma_forward_only(session, events[0]);
        lemma_run_forward(transition(session, events[0]).0, events.drop_first());
    }
}

/// A session that is over reaches no device again: every further event gets
/// the same answer.
pub proof fn lemma_finished_is_final(session: Session, events: Seq<Event>)
    requires
        session.step is Finished,
    ensures
        run(session, events) == session,
    decreases events.len(),
{
    if events.len() > 0 {
        lemma_forward_only(session, events[0]);
        lemma_finished_is_final(session, events.drop_first());
    }
}

} // verus!
