//! The telemetry session with the strain gauge, as a state machine.
//!
//! The session itself does no radio work. It is told what came of the last
//! request and answers with the next one: whoever drives it performs the
//! request, waits for its outcome and hands that back as the next event.
//! The session goes through its steps once, in order; a failure skips ahead
//! to whatever teardown the device can still take.

use crate::codec::{decode, decode_spec, TelemetryFrame};
use crate::gatt::{
    resolve,
    resolve_spec,
    Endpoints,
    Missing,
    ServiceRecord,
    END_WEIGHT_MEASUREMENT,
    SERVICE_UUID,
    START_WEIGHT_MEASUREMENT,
};
use vstd::prelude::*;

verus! {

/// Why a session failed.
#[derive(Clone, Copy, Debug, PartialEq, Eq, Structural)]
pub enum SessionError {
    /// An event came before the session was started.
    NotStarted,
    /// No radio adapter could be opened.
    AdapterUnavailable,
    /// The scan could not be started.
    ScanFailed,
    /// The scan ended without a matching device.
    DeviceNotFound,
    /// The device refused the connection.
    ConnectFailed,
    /// The device's services could not be listed.
    DiscoveryFailed,
    /// The device lacks the gauge's service.
    ServiceNotFound,
    /// The gauge's service lacks the control characteristic.
    ControlCharacteristicNotFound,
    /// The gauge's service lacks the data characteristic.
    DataCharacteristicNotFound,
    /// Notifications could not be switched on.
    SubscribeFailed,
    /// A command could not be written.
    WriteFailed,
    /// The stream of notifications broke.
    NotificationsFailed,
    /// The device could not be disconnected.
    DisconnectFailed,
}

/// The stages of a session, in the order in which it passes them.
#[derive(Clone, Copy, Debug, PartialEq, Eq, Structural)]
pub enum Stage {
    Idle,
    Scanning,
    Connecting,
    DiscoveringServices,
    Subscribing,
    Streaming,
    Unsubscribing,
    Disconnected,
}

/// Which request a session is waiting on. The steps between subscribing and
/// streaming know where the gauge's characteristics are.
#[derive(Clone, Copy, Debug, PartialEq, Eq)]
pub enum Step {
    Idle,
    OpeningAdapter,
    StartingScan,
    AwaitingDevice,
    Connecting,
    DiscoveringServices,
    Subscribing(Endpoints),
    StartingMeasurement(Endpoints),
    Streaming(Endpoints),
    EndingMeasurement,
    Disconnecting,
    Finished,
}

/// A session: the step it is at and the first failure it met, if any.
#[derive(Clone, Copy, Debug, PartialEq, Eq)]
pub struct Session {
    pub step: Step,
    pub failure: Option<SessionError>,
}

/// What came of the last request.
#[derive(Debug)]
pub enum Event {
    /// The session is to begin.
    Start,
    /// The request succeeded.
    Completed,
    /// The request failed.
    Failed,
    /// The device listed its services.
    ServicesDiscovered(Vec<ServiceRecord>),
    /// A notification arrived; `running` is the running flag as it stood
    /// when the notification was taken up.
    Notification { running: bool, value: Vec<u8> },
    /// The stream of notifications came to its end.
    NotificationsEnded,
}

/// What the driver is to do next.
#[derive(Clone, Copy, Debug, PartialEq, Eq)]
pub enum Action {
    /// Open the first radio adapter.
    OpenAdapter,
    /// Scan for devices that offer this service.
    StartScan { service_uuid: u128 },
    /// Wait for the first device that the scan discovers.
    AwaitDevice,
    Connect,
    DiscoverServices,
    /// Switch on notifications for this characteristic of this service, both
    /// given by their places in the lists that the device sent.
    Subscribe { service: usize, characteristic: usize },
    /// Write the command with this opcode to this characteristic, and wait
    /// for the response.
    WriteControl { service: usize, characteristic: usize, opcode: u8 },
    /// Wait for the next notification.
    AwaitNotification,
    /// Put this weight into the shared cell, then wait for the next
    /// notification.
    StoreWeight { weight: u32 },
    Disconnect,
    /// The session is over, with this outcome.
    Finish { outcome: Result<(), SessionError> },
}

/// The stage that a step belongs to.
pub open spec fn stage_of(step: Step) -> Stage {
    match step {
        Step::Idle => Stage::Idle,
        Step::OpeningAdapter | Step::StartingScan | Step::AwaitingDevice => Stage::Scanning,
        Step::Connecting => Stage::Connecting,
        Step::DiscoveringServices => Stage::DiscoveringServices,
        Step::Subscribing(_) | Step::StartingMeasurement(_) => Stage::Subscribing,
        Step::Streaming(_) => Stage::Streaming,
        Step::EndingMeasurement | Step::Disconnecting => Stage::Unsubscribing,
        Step::Finished => Stage::Disconnected,
    }
}

/// The place of a step in the order of a session.
pub open spec fn rank(step: Step) -> nat {
    match step {
        Step::Idle => 0,
        Step::OpeningAdapter => 1,
        Step::StartingScan => 2,
        Step::AwaitingDevice => 3,
        Step::Connecting => 4,
        Step::DiscoveringServices => 5,
        Step::Subscribing(_) => 6,
        Step::StartingMeasurement(_) => 7,
        Step::Streaming(_) => 8,
        Step::EndingMeasurement => 9,
        Step::Disconnecting => 10,
        Step::Finished => 11,
    }
}

/// The failure that a step ends in when its request does not succeed.
pub open spec fn error_of(step: Step) -> SessionError {
    match step {
        Step::Idle => SessionError::NotStarted,
        Step::OpeningAdapter => SessionError::AdapterUnavailable,
        Step::StartingScan => SessionError::ScanFailed,
        Step::AwaitingDevice => SessionError::DeviceNotFound,
        Step::Connecting => SessionError::ConnectFailed,
        Step::DiscoveringServices => SessionError::DiscoveryFailed,
        Step::Subscribing(_) => SessionError::SubscribeFailed,
        Step::StartingMeasurement(_) => SessionError::WriteFailed,
        Step::Streaming(_) => SessionError::NotificationsFailed,
        Step::EndingMeasurement => SessionError::WriteFailed,
        Step::Disconnecting => SessionError::DisconnectFailed,
        Step::Finished => SessionError::DisconnectFailed,
    }
}

/// The failure that stands for something missing on the device.
pub open spec fn missing_error(missing: Missing) -> SessionError {
    match missing {
        Missing::Service => SessionError::ServiceNotFound,
        Missing::ControlCharacteristic => SessionError::ControlCharacteristicNotFound,
        Missing::DataCharacteristic => SessionError::DataCharacteristicNotFound,
    }
}

/// The outcome of a session that met this failure, or none.
pub open spec fn outcome_of(failure: Option<SessionError>) -> Result<(), SessionError> {
    match failure {
        Some(error) => Err(error),
        None => Ok(()),
    }
}

/// The command that ends the measurement.
pub open spec fn end_command(at: Endpoints) -> Action {
    Action::WriteControl {
        service: at.service,
        characteristic: at.control,
        opcode: END_WEIGHT_MEASUREMENT,
    }
}

/// The command that starts the measurement.
pub open spec fn start_command(at: Endpoints) -> Action {
    Action::WriteControl {
        service: at.service,
        characteristic: at.control,
        opcode: START_WEIGHT_MEASUREMENT,
    }
}

/// The session moved on to `step`, with its failure as it was.
pub open spec fn at_step(session: Session, step: Step) -> Session {
    Session { step, failure: session.failure }
}

/// What a failure leads to. The first failure of a session is the one it
/// keeps. Teardown is whatever the device can still take: the command that
/// ends the measurement where the characteristics are known, a disconnect
/// where the device is connected, nothing before that.
pub open spec fn abort(session: Session, error: SessionError) -> (Session, Action) {
    let kept = match session.failure {
        Some(first) => first,
        None => error,
    };
    let failure = Some(kept);
    match session.step {
        Step::Subscribing(at) | Step::StartingMeasurement(at) | Step::Streaming(at) => (
            Session { step: Step::EndingMeasurement, failure },
            end_command(at),
        ),
        Step::DiscoveringServices | Step::EndingMeasurement => (
            Session { step: Step::Disconnecting, failure },
            Action::Disconnect,
        ),
        _ => (Session { step: Step::Finished, failure }, Action::Finish { outcome: Err(kept) }),
    }
}

/// What a notification leads to while streaming: the end of the measurement
/// when the running flag is down, whatever the notification holds; else the
/// weight to store when it holds one; else nothing but the next wait.
pub open spec fn on_notification(session: Session, at: Endpoints, running: bool, value: Seq<u8>) -> (
    Session,
    Action,
) {
    if !running {
        (at_step(session, Step::EndingMeasurement), end_command(at))
    } else {
        match decode_spec(value) {
            Some(TelemetryFrame::WeightMeasurement(sample)) => (
                session,
                Action::StoreWeight { weight: sample.value },
            ),
            _ => (session, Action::AwaitNotification),
        }
    }
}

/// The session's rule: the state after an event, and the next request. An
/// event that is not the success of the request that the session waits on
/// counts as that request's failure.
pub open spec fn transition(session: Session, event: Event) -> (Session, Action) {
    match session.step {
        Step::Finished => (session, Action::Finish { outcome: outcome_of(session.failure) }),
        Step::Idle => match event {
            Event::Start => (at_step(session, Step::OpeningAdapter), Action::OpenAdapter),
            _ => abort(session, error_of(session.step)),
        },
        Step::OpeningAdapter => match event {
            Event::Completed => (
                at_step(session, Step::StartingScan),
                Action::StartScan { service_uuid: SERVICE_UUID },
            ),
            _ => abort(session, error_of(session.step)),
        },
        Step::StartingScan => match event {
            Event::Completed => (at_step(session, Step::AwaitingDevice), Action::AwaitDevice),
            _ => abort(session, error_of(session.step)),
        },
        Step::AwaitingDevice => match event {
            Event::Completed => (at_step(session, Step::Connecting), Action::Connect),
            _ => abort(session, error_of(session.step)),
        },
        Step::Connecting => match event {
            Event::Completed => (
                at_step(session, Step::DiscoveringServices),
                Action::DiscoverServices,
            ),
            _ => abort(session, error_of(session.step)),
        },
        Step::DiscoveringServices => match event {
            Event::ServicesDiscovered(services) => match resolve_spec(services@) {
                Ok(at) => (
                    at_step(session, Step::Subscribing(at)),
                    Action::Subscribe { service: at.service, characteristic: at.data },
                ),
                Err(missing) => abort(session, missing_error(missing)),
            },
            _ => abort(session, error_of(session.step)),
        },
        Step::Subscribing(at) => match event {
            Event::Completed => (
                at_step(session, Step::StartingMeasurement(at)),
                start_command(at),
            ),
            _ => abort(session, error_of(session.step)),
        },
        Step::StartingMeasurement(at) => match event {
            Event::Completed => (at_step(session, Step::Streaming(at)), Action::AwaitNotification),
            _ => abort(session, error_of(session.step)),
        },
        Step::Streaming(at) => match event {
            Event::Notification { running, value } => on_notification(session, at, running, value@),
            Event::NotificationsEnded => (
                at_step(session, Step::EndingMeasurement),
                end_command(at),
            ),
            _ => abort(session, error_of(session.step)),
        },
        Step::EndingMeasurement => match event {
            Event::Completed => (at_step(session, Step::Disconnecting), Action::Disconnect),
            _ => abort(session, error_of(session.step)),
        },
        Step::Disconnecting => match event {
            Event::Completed => (
                at_step(session, Step::Finished),
                Action::Finish { outcome: outcome_of(session.failure) },
            ),
            _ => abort(session, error_of(session.step)),
        },
    }
}

impl SessionError {
    /// The failure in words.
    pub open spec fn message_spec(self) -> Seq<char> {
        match self {
            SessionError::NotStarted => "session not started"@,
            SessionError::AdapterUnavailable => "no adapters"@,
            SessionError::ScanFailed => "scan failed"@,
            SessionError::DeviceNotFound => "device not found"@,
            SessionError::ConnectFailed => "connection failed"@,
            SessionError::DiscoveryFailed => "service discovery failed"@,
            SessionError::ServiceNotFound => "service not found"@,
            SessionError::ControlCharacteristicNotFound => "control characteristic not found"@,
            SessionError::DataCharacteristicNotFound => "data characteristic not found"@,
            SessionError::SubscribeFailed => "subscribe failed"@,
            SessionError::WriteFailed => "write failed"@,
            SessionError::NotificationsFailed => "notifications failed"@,
            SessionError::DisconnectFailed => "disconnect failed"@,
        }
    }

    /// The failure in words, for whoever reports it.
    pub fn message(&self) -> (text: &'static str)
        ensures
            text@ == self.message_spec(),
    {
        match self {
            SessionError::NotStarted => "session not started",
            SessionError::AdapterUnavailable => "no adapters",
            SessionError::ScanFailed => "scan failed",
            SessionError::DeviceNotFound => "device not found",
            SessionError::ConnectFailed => "connection failed",
            SessionError::DiscoveryFailed => "service discovery failed",
            SessionError::ServiceNotFound => "service not found",
            SessionError::ControlCharacteristicNotFound => "control characteristic not found",
            SessionError::DataCharacteristicNotFound => "data characteristic not found",
            SessionError::SubscribeFailed => "subscribe failed",
            SessionError::WriteFailed => "write failed",
            SessionError::NotificationsFailed => "notifications failed",
            SessionError::DisconnectFailed => "disconnect failed",
        }
    }
}

impl Session {
    /// A session that has not begun.
    pub fn new() -> (session: Session)
        ensures
            session == (Session { step: Step::Idle, failure: None }),
    {
        Session { step: Step::Idle, failure: None }
    }

    /// The stage that the session is in.
    pub fn stage(&self) -> (stage: Stage)
        ensures
            stage == stage_of(self.step),
    {
        match self.step {
            Step::Idle => Stage::Idle,
            Step::OpeningAdapter | Step::StartingScan | Step::AwaitingDevice => Stage::Scanning,
            Step::Connecting => Stage::Connecting,
            Step::DiscoveringServices => Stage::DiscoveringServices,
            Step::Subscribing(_) | Step::StartingMeasurement(_) => Stage::Subscribing,
            Step::Streaming(_) => Stage::Streaming,
            Step::EndingMeasurement | Step::Disconnecting => Stage::Unsubscribing,
            Step::Finished => Stage::Disconnected,
        }
    }

    /// The outcome, once the session is over.
    pub fn outcome(&self) -> (outcome: Option<Result<(), SessionError>>)
        ensures
            outcome == if self.step is Finished {
                Some(outcome_of(self.failure))
            } else {
                None
            },
    {
        match self.step {
            Step::Finished => Some(outcome_for(self.failure)),
            _ => None,
        }
    }
}

fn outcome_for(failure: Option<SessionError>) -> (outcome: Result<(), SessionError>)
    ensures
        outcome == outcome_of(failure),
{
    match failure {
        Some(error) => Err(error),
        None => Ok(()),
    }
}

fn failure_of(step: Step) -> (error: SessionError)
    ensures
        error == error_of(step),
{
    match step {
        Step::Idle => SessionError::NotStarted,
        Step::OpeningAdapter => SessionError::AdapterUnavailable,
        Step::StartingScan => SessionError::ScanFailed,
        Step::AwaitingDevice => SessionError::DeviceNotFound,
        Step::Connecting => SessionError::ConnectFailed,
        Step::DiscoveringServices => SessionError::DiscoveryFailed,
        Step::Subscribing(_) => SessionError::SubscribeFailed,
        Step::StartingMeasurement(_) => SessionError::WriteFailed,
        Step::Streaming(_) => SessionError::NotificationsFailed,
        Step::EndingMeasurement => SessionError::WriteFailed,
        Step::Disconnecting => SessionError::DisconnectFailed,
        Step::Finished => SessionError::DisconnectFailed,
    }
}

fn end_measurement(at: Endpoints) -> (action: Action)
    ensures
        action == end_command(at),
{
    Action::WriteControl {
        service: at.service,
        characteristic: at.control,
        opcode: END_WEIGHT_MEASUREMENT,
    }
}

fn fail(session: Session, error: SessionError) -> (made: (Session, Action))
    ensures
        made == abort(session, error),
{
    let kept = match session.failure {
        Some(first) => first,
        None => error,
    };
    let failure = Some(kept);
    match session.step {
        Step::Subscribing(at) | Step::StartingMeasurement(at) | Step::Streaming(at) => (
            Session { step: Step::EndingMeasurement, failure },
            end_measurement(at),
        ),
        Step::DiscoveringServices | Step::EndingMeasurement => (
            Session { step: Step::Disconnecting, failure },
            Action::Disconnect,
        ),
        _ => (Session { step: Step::Finished, failure }, Action::Finish { outcome: Err(kept) }),
    }
}

/// Takes one event to the session and says what to do next.
pub fn interaction(session: Session, event: &Event) -> (made: (Session, Action))
    ensures
        made == transition(session, *event),
{
    let failure = session.failure;
    match (session.step, event) {
        (Step::Finished, _) => (session, Action::Finish { outcome: outcome_for(failure) }),
        (Step::Idle, Event::Start) => (
            Session { step: Step::OpeningAdapter, failure },
            Action::OpenAdapter,
        ),
        (Step::OpeningAdapter, Event::Completed) => (
            Session { step: Step::StartingScan, failure },
            Action::StartScan { service_uuid: SERVICE_UUID },
        ),
        (Step::StartingScan, Event::Completed) => (
            Session { step: Step::AwaitingDevice, failure },
            Action::AwaitDevice,
        ),
        (Step::AwaitingDevice, Event::Completed) => (
            Session { step: Step::Connecting, failure },
            Action::Connect,
        ),
        (Step::Connecting, Event::Completed) => (
            Session { step: Step::DiscoveringServices, failure },
            Action::DiscoverServices,
        ),
        (Step::DiscoveringServices, Event::ServicesDiscovered(services)) => match resolve(
            services,
        ) {
            Ok(at) => (
                Session { step: Step::Subscribing(at), failure },
                Action::Subscribe { service: at.service, characteristic: at.data },
            ),
            Err(Missing::Service) => fail(session, SessionError::ServiceNotFound),
            Err(Missing::ControlCharacteristic) => fail(
                session,
                SessionError::ControlCharacteristicNotFound,
            ),
            Err(Missing::DataCharacteristic) => fail(
                session,
                SessionError::DataCharacteristicNotFound,
            ),
        },
        (Step::Subscribing(at), Event::Completed) => (
            Session { step: Step::StartingMeasurement(at), failure },
            Action::WriteControl {
                service: at.service,
                characteristic: at.control,
                opcode: START_WEIGHT_MEASUREMENT,
            },
        ),
        (Step::StartingMeasurement(at), Event::Completed) => (
            Session { step: Step::Streaming(at), failure },
            Action::AwaitNotification,
        ),
        (Step::Streaming(at), Event::Notification { running, value }) => {
            if !*running {
                (Session { step: Step::EndingMeasurement, failure }, end_measurement(at))
            } else {
                match decode(value.as_slice()) {
                    Some(TelemetryFrame::WeightMeasurement(sample)) => (
                        session,
                        Action::StoreWeight { weight: sample.value },
                    ),
                    _ => (session, Action::AwaitNotification),
                }
            }
        },
        (Step::Streaming(at), Event::NotificationsEnded) => (
            Session { step: Step::EndingMeasurement, failure },
            end_measurement(at),
        ),
        (Step::EndingMeasurement, Event::Completed) => (
            Session { step: Step::Disconnecting, failure },
            Action::Disconnect,
        ),
        (Step::Disconnecting, Event::Completed) => (
            Session { step: Step::Finished, failure },
            Action::Finish { outcome: outcome_for(failure) },
        ),
        (step, _) => fail(session, failure_of(step)),
    }
}

} // verus!
