//! The journal event model: the twenty event kinds and their payloads.

use vstd::prelude::*;

use crate::execution_error::{ExecErrorV, ExecutionError};
use crate::join_set::JoinSetId;
use crate::payload::{Payload, PayloadV};
use crate::promise_id::{clone_pids, PidView, PromiseId};
use crate::time::{TimeDelta, Timestamp};

verus! {

/// Categorizes the type of side-effect invocation.
///
/// Extensible: new side-effect types are added as variants here, not as new
/// event types; all share the Scheduled -> Started -> Completed structure.
#[derive(Clone, Copy, Debug, PartialEq, Eq, Structural)]
pub enum InvokeKind {
    /// Function, task or workflow invocation.
    Function,
    /// HTTP request to an external service.
    Http,
}

/// Retry policy for invocations; its fields are not yet fixed.
#[derive(Clone, Copy, Debug, PartialEq, Eq, Structural)]
pub struct RetryPolicy {}

/// Monotonic per-signal-name delivery counter.
pub type SignalDeliveryId = u64;

/// Mathematical value of an [`AwaitKind`].
#[verifier::ext_equal]
pub enum AwaitKindV {
    Single,
    Any,
    All,
    Signal { name: Seq<char>, promise_id: PidView },
}

/// Determines the wait satisfaction condition for `ExecutionAwaiting`.
#[derive(Debug, PartialEq, Eq)]
pub enum AwaitKind {
    /// Wait for a single promise.
    Single,
    /// Wait for any one of the promises.
    Any,
    /// Wait for all promises.
    All,
    /// Wait for a named signal, consumed through the given promise.
    Signal { name: String, promise_id: PromiseId },
}

impl View for AwaitKind {
    type V = AwaitKindV;

    open spec fn view(&self) -> AwaitKindV {
        match self {
            AwaitKind::Single => AwaitKindV::Single,
            AwaitKind::Any => AwaitKindV::Any,
            AwaitKind::All => AwaitKindV::All,
            AwaitKind::Signal { name, promise_id } => AwaitKindV::Signal {
                name: name@,
                promise_id: promise_id@,
            },
        }
    }
}

impl DeepView for AwaitKind {
    type V = AwaitKindV;

    open spec fn deep_view(&self) -> AwaitKindV {
        self.view()
    }
}

impl Clone for AwaitKind {
    fn clone(&self) -> (r: Self)
        ensures
            r@ == self@,
    {
        match self {
            AwaitKind::Single => AwaitKind::Single,
            AwaitKind::Any => AwaitKind::Any,
            AwaitKind::All => AwaitKind::All,
            AwaitKind::Signal { name, promise_id } => AwaitKind::Signal {
                name: name.clone(),
                promise_id: promise_id.clone(),
            },
        }
    }
}

/// Mathematical value of an [`EventType`].
#[allow(inconsistent_fields)]
#[verifier::ext_equal]
pub enum EventV {
    ExecutionStarted {
        component_digest: Seq<u8>,
        input: PayloadV,
        parent_id: Option<PidView>,
        idempotency_key: Seq<char>,
    },
    ExecutionCompleted { result: PayloadV },
    ExecutionFailed { error: ExecErrorV },
    CancelRequested { reason: Seq<char> },
    ExecutionCancelled { reason: Seq<char> },
    InvokeScheduled {
        promise_id: PidView,
        kind: InvokeKind,
        function_name: Seq<char>,
        input: PayloadV,
        retry_policy: Option<RetryPolicy>,
    },
    InvokeStarted { promise_id: PidView, attempt: u32 },
    InvokeCompleted { promise_id: PidView, result: PayloadV, attempt: u32 },
    InvokeRetrying {
        promise_id: PidView,
        failed_attempt: u32,
        error: ExecErrorV,
        retry_at: Timestamp,
    },
    RandomGenerated { promise_id: PidView, value: Seq<u8> },
    TimeRecorded { promise_id: PidView, time: Timestamp },
    TimerScheduled { promise_id: PidView, duration: TimeDelta, fire_at: Timestamp },
    TimerFired { promise_id: PidView },
    SignalDelivered { signal_name: Seq<char>, payload: PayloadV, delivery_id: u64 },
    SignalReceived {
        promise_id: PidView,
        signal_name: Seq<char>,
        payload: PayloadV,
        delivery_id: u64,
    },
    ExecutionAwaiting { waiting_on: Seq<PidView>, kind: AwaitKindV },
    ExecutionResumed,
    JoinSetCreated { join_set_id: PidView },
    JoinSetSubmitted { join_set_id: PidView, promise_id: PidView },
    JoinSetAwaited { join_set_id: PidView, promise_id: PidView, result: PayloadV },
}

/// All twenty journal event types: lifecycle, side effects, nondeterminism
/// capture, control flow and concurrency.
#[allow(inconsistent_fields)]
#[derive(Debug, PartialEq, Eq)]
pub enum EventType {
    /// Always the first event. Pins the execution to a component version.
    ExecutionStarted {
        component_digest: Vec<u8>,
        input: Payload,
        parent_id: Option<PromiseId>,
        idempotency_key: String,
    },
    /// Function returned successfully (terminal).
    ExecutionCompleted { result: Payload },
    /// Function returned an error or trapped (terminal).
    ExecutionFailed { error: ExecutionError },
    /// External cancel signal arrived; transitions to Cancelling.
    CancelRequested { reason: String },
    /// Cancellation finalized after cleanup (terminal); requires a preceding
    /// `CancelRequested`.
    ExecutionCancelled { reason: String },
    /// Intent to invoke; enables exactly-once via replay matching.
    InvokeScheduled {
        promise_id: PromiseId,
        kind: InvokeKind,
        function_name: String,
        input: Payload,
        retry_policy: Option<RetryPolicy>,
    },
    /// Invocation is in flight; enables timeout detection.
    InvokeStarted { promise_id: PromiseId, attempt: u32 },
    /// Invocation result, cached for replay.
    InvokeCompleted { promise_id: PromiseId, result: Payload, attempt: u32 },
    /// Transient failure; the invocation will retry.
    InvokeRetrying {
        promise_id: PromiseId,
        failed_attempt: u32,
        error: ExecutionError,
        retry_at: Timestamp,
    },
    /// A random value was drawn and captured for deterministic replay.
    RandomGenerated { promise_id: PromiseId, value: Vec<u8> },
    /// Wall-clock time was read and captured for deterministic replay.
    TimeRecorded { promise_id: PromiseId, time: Timestamp },
    /// A sleep was requested: the duration and the computed fire time.
    TimerScheduled { promise_id: PromiseId, duration: TimeDelta, fire_at: Timestamp },
    /// The timer's duration elapsed; resolves the timer's promise.
    TimerFired { promise_id: PromiseId },
    /// External signal arrived at the execution. Durable buffer; carries no
    /// promise id.
    SignalDelivered { signal_name: String, payload: Payload, delivery_id: SignalDeliveryId },
    /// Workflow consumed a signal; carries a promise id for the replay cache.
    SignalReceived {
        promise_id: PromiseId,
        signal_name: String,
        payload: Payload,
        delivery_id: SignalDeliveryId,
    },
    /// Workflow blocks on pending promises (explicit suspend).
    ExecutionAwaiting { waiting_on: Vec<PromiseId>, kind: AwaitKind },
    /// Blocked -> Running: the wait condition was satisfied.
    ExecutionResumed,
    /// Opens a concurrent region; allocates a child position in the call
    /// tree.
    JoinSetCreated { join_set_id: JoinSetId },
    /// Adds a scheduled promise to the set; no submits after the first await.
    JoinSetSubmitted { join_set_id: JoinSetId, promise_id: PromiseId },
    /// Records which result was consumed at this point: a replay marker.
    JoinSetAwaited { join_set_id: JoinSetId, promise_id: PromiseId, result: Payload },
}

impl View for EventType {
    type V = EventV;

    open spec fn view(&self) -> EventV {
        match self {
            EventType::ExecutionStarted { component_digest, input, parent_id, idempotency_key } => {
                EventV::ExecutionStarted {
                    component_digest: component_digest@,
                    input: input@,
                    parent_id: parent_id.deep_view(),
                    idempotency_key: idempotency_key@,
                }
            },
            EventType::ExecutionCompleted { result } => EventV::ExecutionCompleted {
                result: result@,
            },
            EventType::ExecutionFailed { error } => EventV::ExecutionFailed { error: error@ },
            EventType::CancelRequested { reason } => EventV::CancelRequested { reason: reason@ },
            EventType::ExecutionCancelled { reason } => EventV::ExecutionCancelled {
                reason: reason@,
            },
            EventType::InvokeScheduled { promise_id, kind, function_name, input, retry_policy } => {
                EventV::InvokeScheduled {
                    promise_id: promise_id@,
                    kind: *kind,
                    function_name: function_name@,
                    input: input@,
                    retry_policy: *retry_policy,
                }
            },
            EventType::InvokeStarted { promise_id, attempt } => EventV::InvokeStarted {
                promise_id: promise_id@,
                attempt: *attempt,
            },
            EventType::InvokeCompleted { promise_id, result, attempt } => EventV::InvokeCompleted {
                promise_id: promise_id@,
                result: result@,
                attempt: *attempt,
            },
            EventType::InvokeRetrying { promise_id, failed_attempt, error, retry_at } => {
                EventV::InvokeRetrying {
                    promise_id: promise_id@,
                    failed_attempt: *failed_attempt,
                    error: error@,
                    retry_at: *retry_at,
                }
            },
            EventType::RandomGenerated { promise_id, value } => EventV::RandomGenerated {
                promise_id: promise_id@,
                value: value@,
            },
            EventType::TimeRecorded { promise_id, time } => EventV::TimeRecorded {
                promise_id: promise_id@,
                time: *time,
            },
            EventType::TimerScheduled { promise_id, duration, fire_at } => EventV::TimerScheduled {
                promise_id: promise_id@,
                duration: *duration,
                fire_at: *fire_at,
            },
            EventType::TimerFired { promise_id } => EventV::TimerFired { promise_id: promise_id@ },
            EventType::SignalDelivered { signal_name, payload, delivery_id } => {
                EventV::SignalDelivered {
                    signal_name: signal_name@,
                    payload: payload@,
                    delivery_id: *delivery_id,
                }
            },
            EventType::SignalReceived { promise_id, signal_name, payload, delivery_id } => {
                EventV::SignalReceived {
                    promise_id: promise_id@,
                    signal_name: signal_name@,
                    payload: payload@,
                    delivery_id: *delivery_id,
                }
            },
            EventType::ExecutionAwaiting { waiting_on, kind } => EventV::ExecutionAwaiting {
                waiting_on: waiting_on.deep_view(),
                kind: kind@,
            },
            EventType::ExecutionResumed => EventV::ExecutionResumed,
            EventType::JoinSetCreated { join_set_id } => EventV::JoinSetCreated {
                join_set_id: join_set_id@,
            },
            EventType::JoinSetSubmitted { join_set_id, promise_id } => EventV::JoinSetSubmitted {
                join_set_id: join_set_id@,
                promise_id: promise_id@,
            },
            EventType::JoinSetAwaited { join_set_id, promise_id, result } => {
                EventV::JoinSetAwaited {
                    join_set_id: join_set_id@,
                    promise_id: promise_id@,
                    result: result@,
                }
            },
        }
    }
}

impl DeepView for EventType {
    type V = EventV;

    open spec fn deep_view(&self) -> EventV {
        self.view()
    }
}

/// The stable variant name of an event.
pub open spec fn event_name(e: EventV) -> Seq<char> {
    match e {
        EventV::ExecutionStarted { .. } => "ExecutionStarted"@,
        EventV::ExecutionCompleted { .. } => "ExecutionCompleted"@,
        EventV::ExecutionFailed { .. } => "ExecutionFailed"@,
        EventV::CancelRequested { .. } => "CancelRequested"@,
        EventV::ExecutionCancelled { .. } => "ExecutionCancelled"@,
        EventV::InvokeScheduled { .. } => "InvokeScheduled"@,
        EventV::InvokeStarted { .. } => "InvokeStarted"@,
        EventV::InvokeCompleted { .. } => "InvokeCompleted"@,
        EventV::InvokeRetrying { .. } => "InvokeRetrying"@,
        EventV::RandomGenerated { .. } => "RandomGenerated"@,
        EventV::TimeRecorded { .. } => "TimeRecorded"@,
        EventV::TimerScheduled { .. } => "TimerScheduled"@,
        EventV::TimerFired { .. } => "TimerFired"@,
        EventV::SignalDelivered { .. } => "SignalDelivered"@,
        EventV::SignalReceived { .. } => "SignalReceived"@,
        EventV::ExecutionAwaiting { .. } => "ExecutionAwaiting"@,
        EventV::ExecutionResumed => "ExecutionResumed"@,
        EventV::JoinSetCreated { .. } => "JoinSetCreated"@,
        EventV::JoinSetSubmitted { .. } => "JoinSetSubmitted"@,
        EventV::JoinSetAwaited { .. } => "JoinSetAwaited"@,
    }
}

/// Whether an event ends the execution: `ExecutionCompleted`,
/// `ExecutionFailed` or `ExecutionCancelled`.
pub open spec fn is_terminal_event(e: EventV) -> bool {
    match e {
        EventV::ExecutionCompleted { .. } => true,
        EventV::ExecutionFailed { .. } => true,
        EventV::ExecutionCancelled { .. } => true,
        _ => false,
    }
}

impl EventType {
    /// The variant name as a static string, for diagnostics and logging.
    pub fn name(&self) -> (r: &'static str)
        ensures
            r@ == event_name(self@),
    {
        match self {
            EventType::ExecutionStarted { .. } => "ExecutionStarted",
            EventType::ExecutionCompleted { .. } => "ExecutionCompleted",
            EventType::ExecutionFailed { .. } => "ExecutionFailed",
            EventType::CancelRequested { .. } => "CancelRequested",
            EventType::ExecutionCancelled { .. } => "ExecutionCancelled",
            EventType::InvokeScheduled { .. } => "InvokeScheduled",
            EventType::InvokeStarted { .. } => "InvokeStarted",
            EventType::InvokeCompleted { .. } => "InvokeCompleted",
            EventType::InvokeRetrying { .. } => "InvokeRetrying",
            EventType::RandomGenerated { .. } => "RandomGenerated",
            EventType::TimeRecorded { .. } => "TimeRecorded",
            EventType::TimerScheduled { .. } => "TimerScheduled",
            EventType::TimerFired { .. } => "TimerFired",
            EventType::SignalDelivered { .. } => "SignalDelivered",
            EventType::SignalReceived { .. } => "SignalReceived",
            EventType::ExecutionAwaiting { .. } => "ExecutionAwaiting",
            EventType::ExecutionResumed => "ExecutionResumed",
            EventType::JoinSetCreated { .. } => "JoinSetCreated",
            EventType::JoinSetSubmitted { .. } => "JoinSetSubmitted",
            EventType::JoinSetAwaited { .. } => "JoinSetAwaited",
        }
    }

    /// Whether this event ends the execution (Completed, Failed or
    /// Cancelled).
    pub fn is_terminal(&self) -> (r: bool)
        ensures
            r == is_terminal_event(self@),
    {
        match self {
            EventType::ExecutionCompleted { .. } => true,
            EventType::ExecutionFailed { .. } => true,
            EventType::ExecutionCancelled { .. } => true,
            _ => false,
        }
    }
}

/// Copy an await kind and the promise list it guards.
pub fn clone_await(waiting_on: &Vec<PromiseId>, kind: &AwaitKind) -> (r: (Vec<PromiseId>, AwaitKind))
    ensures
        r.0.deep_view() == waiting_on.deep_view(),
        r.1@ == kind@,
{
    (clone_pids(waiting_on), kind.clone())
}

} // verus!
