//! The closed set of journal invariant violations.

use vstd::prelude::*;

use crate::join_set::JoinSetId;
use crate::promise_id::{PidView, PromiseId};
use crate::text::u64_to_string;

verus! {

use vstd::string::StringExecFns;

/// Mathematical value of a [`JournalViolation`].
#[verifier::ext_equal]
pub enum ViolationV {
    NonMonotonicSequence { entry_index: usize, expected: u64, actual: u64 },
    MissingExecutionStarted { first_event: Seq<char> },
    MultipleTerminalEvents { first_at: u64, second_at: u64 },
    TerminalNotLast { terminal_seq: u64, journal_len: usize },
    CancelledWithoutRequest { cancelled_seq: u64 },
    StartedWithoutScheduled { promise_id: PidView, started_seq: u64 },
    CompletedWithoutStarted { promise_id: PidView, completed_seq: u64 },
    RetryingWithoutStarted { promise_id: PidView, failed_attempt: u32, retrying_seq: u64 },
    EventAfterCompleted { promise_id: PidView, offending_seq: u64, offending_event: Seq<char> },
    TimerFiredWithoutScheduled { promise_id: PidView, fired_seq: u64 },
    SignalReceivedWithoutDelivery { signal_name: Seq<char>, delivery_id: u64, received_seq: u64 },
    SignalConsumedTwice { signal_name: Seq<char>, delivery_id: u64, second_seq: u64 },
    AwaitWaitingOnDuplicate { awaiting_seq: u64, promise_id: PidView },
    AwaitSignalInconsistent { awaiting_seq: u64, waiting_on_count: usize },
    SubmitWithoutCreate { join_set_id: PidView, submitted_seq: u64 },
    SubmitAfterAwait { join_set_id: PidView, submitted_seq: u64 },
    AwaitedNotMember { join_set_id: PidView, promise_id: PidView, awaited_seq: u64 },
    AwaitedNotCompleted { promise_id: PidView, awaited_seq: u64 },
    DoubleConsume { join_set_id: PidView, promise_id: PidView, second_seq: u64 },
    ConsumeExceedsSubmit { join_set_id: PidView, submitted: u32, awaited: u32 },
    PromiseInMultipleJoinSets { promise_id: PidView, first_js: PidView, second_js: PidView },
}

/// Describes a specific journal invariant violation.
///
/// Each variant maps 1:1 to a formal invariant, grouped into structural
/// (S-1..S-5), side-effect (SE-1..SE-4), control-flow (CF-1..CF-4) and
/// join-set (JS-1..JS-7) families, plus the duplicate-wait check.
/// Violations carry full context and never wrap each other.
#[derive(Debug, PartialEq, Eq)]
pub enum JournalViolation {
    /// S-1: sequence numbers must equal their 0-based array index.
    NonMonotonicSequence { entry_index: usize, expected: u64, actual: u64 },
    /// S-2: the first event in every journal must be `ExecutionStarted`.
    MissingExecutionStarted { first_event: String },
    /// S-3: at most one terminal event per journal.
    MultipleTerminalEvents { first_at: u64, second_at: u64 },
    /// S-4: a terminal event must be the last entry in the journal.
    TerminalNotLast { terminal_seq: u64, journal_len: usize },
    /// S-5: `ExecutionCancelled` requires a preceding `CancelRequested`.
    CancelledWithoutRequest { cancelled_seq: u64 },
    /// SE-1: `InvokeStarted` requires a preceding `InvokeScheduled` for the
    /// same promise.
    StartedWithoutScheduled { promise_id: PromiseId, started_seq: u64 },
    /// SE-2: `InvokeCompleted` requires a preceding `InvokeStarted` for the
    /// same promise.
    CompletedWithoutStarted { promise_id: PromiseId, completed_seq: u64 },
    /// SE-3: `InvokeRetrying` requires a preceding `InvokeStarted` with the
    /// same `(promise, attempt)` pair.
    RetryingWithoutStarted { promise_id: PromiseId, failed_attempt: u32, retrying_seq: u64 },
    /// SE-4: no `InvokeStarted`, `InvokeRetrying` or duplicate
    /// `InvokeCompleted` after `InvokeCompleted` for the same promise.
    EventAfterCompleted { promise_id: PromiseId, offending_seq: u64, offending_event: String },
    /// CF-1: `TimerFired` requires a preceding `TimerScheduled` for the same
    /// promise.
    TimerFiredWithoutScheduled { promise_id: PromiseId, fired_seq: u64 },
    /// CF-2: `SignalReceived` requires a preceding `SignalDelivered` with
    /// matching name, delivery id and payload.
    SignalReceivedWithoutDelivery {
        signal_name: String,
        delivery_id: u64,
        received_seq: u64,
    },
    /// CF-3: each `(signal_name, delivery_id)` pair may be consumed at most
    /// once.
    SignalConsumedTwice { signal_name: String, delivery_id: u64, second_seq: u64 },
    /// The `waiting_on` list of an `ExecutionAwaiting` must be duplicate-free.
    AwaitWaitingOnDuplicate { awaiting_seq: u64, promise_id: PromiseId },
    /// CF-4: `ExecutionAwaiting` with `Signal` kind must wait on exactly the
    /// signal's one promise.
    AwaitSignalInconsistent { awaiting_seq: u64, waiting_on_count: usize },
    /// JS-1: `JoinSetSubmitted` requires a preceding `JoinSetCreated` for the
    /// same set.
    SubmitWithoutCreate { join_set_id: JoinSetId, submitted_seq: u64 },
    /// JS-2: no `JoinSetSubmitted` after any `JoinSetAwaited` for the same
    /// set.
    SubmitAfterAwait { join_set_id: JoinSetId, submitted_seq: u64 },
    /// JS-3: an awaited promise must have been submitted to the same set.
    AwaitedNotMember { join_set_id: JoinSetId, promise_id: PromiseId, awaited_seq: u64 },
    /// JS-4: an awaited promise must have a prior `InvokeCompleted`.
    AwaitedNotCompleted { promise_id: PromiseId, awaited_seq: u64 },
    /// JS-5: no two `JoinSetAwaited` for the same `(set, promise)` pair.
    DoubleConsume { join_set_id: JoinSetId, promise_id: PromiseId, second_seq: u64 },
    /// JS-6: per set, awaits must not exceed submissions.
    ConsumeExceedsSubmit { join_set_id: JoinSetId, submitted: u32, awaited: u32 },
    /// JS-7: a promise may be submitted to at most one join set.
    PromiseInMultipleJoinSets { promise_id: PromiseId, first_js: JoinSetId, second_js: JoinSetId },
}

impl View for JournalViolation {
    type V = ViolationV;

    open spec fn view(&self) -> ViolationV {
        match self {
            JournalViolation::NonMonotonicSequence { entry_index, expected, actual } => {
                ViolationV::NonMonotonicSequence {
                    entry_index: *entry_index,
                    expected: *expected,
                    actual: *actual,
                }
            },
            JournalViolation::MissingExecutionStarted { first_event } => {
                ViolationV::MissingExecutionStarted { first_event: first_event@ }
            },
            JournalViolation::MultipleTerminalEvents { first_at, second_at } => {
                ViolationV::MultipleTerminalEvents { first_at: *first_at, second_at: *second_at }
            },
            JournalViolation::TerminalNotLast { terminal_seq, journal_len } => {
                ViolationV::TerminalNotLast {
                    terminal_seq: *terminal_seq,
                    journal_len: *journal_len,
                }
            },
            JournalViolation::CancelledWithoutRequest { cancelled_seq } => {
                ViolationV::CancelledWithoutRequest { cancelled_seq: *cancelled_seq }
            },
            JournalViolation::StartedWithoutScheduled { promise_id, started_seq } => {
                ViolationV::StartedWithoutScheduled {
                    promise_id: promise_id@,
                    started_seq: *started_seq,
                }
            },
            JournalViolation::CompletedWithoutStarted { promise_id, completed_seq } => {
                ViolationV::CompletedWithoutStarted {
                    promise_id: promise_id@,
                    completed_seq: *completed_seq,
                }
            },
            JournalViolation::RetryingWithoutStarted {
                promise_id,
                failed_attempt,
                retrying_seq,
            } => ViolationV::RetryingWithoutStarted {
                promise_id: promise_id@,
                failed_attempt: *failed_attempt,
                retrying_seq: *retrying_seq,
            },
            JournalViolation::EventAfterCompleted {
                promise_id,
                offending_seq,
                offending_event,
            } => ViolationV::EventAfterCompleted {
                promise_id: promise_id@,
                offending_seq: *offending_seq,
                offending_event: offending_event@,
            },
            JournalViolation::TimerFiredWithoutScheduled { promise_id, fired_seq } => {
                ViolationV::TimerFiredWithoutScheduled {
                    promise_id: promise_id@,
                    fired_seq: *fired_seq,
                }
            },
            JournalViolation::SignalReceivedWithoutDelivery {
                signal_name,
                delivery_id,
                received_seq,
            } => ViolationV::SignalReceivedWithoutDelivery {
                signal_name: signal_name@,
                delivery_id: *delivery_id,
                received_seq: *received_seq,
            },
            JournalViolation::SignalConsumedTwice { signal_name, delivery_id, second_seq } => {
                ViolationV::SignalConsumedTwice {
                    signal_name: signal_name@,
                    delivery_id: *delivery_id,
                    second_seq: *second_seq,
                }
            },
            JournalViolation::AwaitWaitingOnDuplicate { awaiting_seq, promise_id } => {
                ViolationV::AwaitWaitingOnDuplicate {
                    awaiting_seq: *awaiting_seq,
                    promise_id: promise_id@,
                }
            },
            JournalViolation::AwaitSignalInconsistent { awaiting_seq, waiting_on_count } => {
                ViolationV::AwaitSignalInconsistent {
                    awaiting_seq: *awaiting_seq,
                    waiting_on_count: *waiting_on_count,
                }
            },
            JournalViolation::SubmitWithoutCreate { join_set_id, submitted_seq } => {
                ViolationV::SubmitWithoutCreate {
                    join_set_id: join_set_id@,
                    submitted_seq: *submitted_seq,
                }
            },
            JournalViolation::SubmitAfterAwait { join_set_id, submitted_seq } => {
                ViolationV::SubmitAfterAwait {
                    join_set_id: join_set_id@,
                    submitted_seq: *submitted_seq,
                }
            },
            JournalViolation::AwaitedNotMember { join_set_id, promise_id, awaited_seq } => {
                ViolationV::AwaitedNotMember {
                    join_set_id: join_set_id@,
                    promise_id: promise_id@,
                    awaited_seq: *awaited_seq,
                }
            },
            JournalViolation::AwaitedNotCompleted { promise_id, awaited_seq } => {
                ViolationV::AwaitedNotCompleted {
                    promise_id: promise_id@,
                    awaited_seq: *awaited_seq,
                }
            },
            JournalViolation::DoubleConsume { join_set_id, promise_id, second_seq } => {
                ViolationV::DoubleConsume {
                    join_set_id: join_set_id@,
                    promise_id: promise_id@,
                    second_seq: *second_seq,
                }
            },
            JournalViolation::ConsumeExceedsSubmit { join_set_id, submitted, awaited } => {
                ViolationV::ConsumeExceedsSubmit {
                    join_set_id: join_set_id@,
                    submitted: *submitted,
                    awaited: *awaited,
                }
            },
            JournalViolation::PromiseInMultipleJoinSets { promise_id, first_js, second_js } => {
                ViolationV::PromiseInMultipleJoinSets {
                    promise_id: promise_id@,
                    first_js: first_js@,
                    second_js: second_js@,
                }
            },
        }
    }
}

impl DeepView for JournalViolation {
    type V = ViolationV;

    open spec fn deep_view(&self) -> ViolationV {
        self.view()
    }
}

/// The stable rule tag that every diagnostic message of a violation begins
/// with, so that log greps remain stable across releases.
pub open spec fn violation_tag(v: ViolationV) -> Seq<char> {
    match v {
        ViolationV::NonMonotonicSequence { .. } => "S-1:"@,
        ViolationV::MissingExecutionStarted { .. } => "S-2:"@,
        ViolationV::MultipleTerminalEvents { .. } => "S-3:"@,
        ViolationV::TerminalNotLast { .. } => "S-4:"@,
        ViolationV::CancelledWithoutRequest { .. } => "S-5:"@,
        ViolationV::StartedWithoutScheduled { .. } => "SE-1:"@,
        ViolationV::CompletedWithoutStarted { .. } => "SE-2:"@,
        ViolationV::RetryingWithoutStarted { .. } => "SE-3:"@,
        ViolationV::EventAfterCompleted { .. } => "SE-4:"@,
        ViolationV::TimerFiredWithoutScheduled { .. } => "CF-1:"@,
        ViolationV::SignalReceivedWithoutDelivery { .. } => "CF-2:"@,
        ViolationV::SignalConsumedTwice { .. } => "CF-3:"@,
        ViolationV::AwaitWaitingOnDuplicate { .. } => "CF-4:"@,
        ViolationV::AwaitSignalInconsistent { .. } => "CF-4:"@,
        ViolationV::SubmitWithoutCreate { .. } => "JS-1:"@,
        ViolationV::SubmitAfterAwait { .. } => "JS-2:"@,
        ViolationV::AwaitedNotMember { .. } => "JS-3:"@,
        ViolationV::AwaitedNotCompleted { .. } => "JS-4:"@,
        ViolationV::DoubleConsume { .. } => "JS-5:"@,
        ViolationV::ConsumeExceedsSubmit { .. } => "JS-6:"@,
        ViolationV::PromiseInMultipleJoinSets { .. } => "JS-7:"@,
    }
}

impl JournalViolation {
    /// The rule tag of this violation (`S-1:`, `SE-4:`, ...).
    pub fn tag(&self) -> (r: &'static str)
        ensures
            r@ == violation_tag(self@),
    {
        match self {
            JournalViolation::NonMonotonicSequence { .. } => "S-1:",
            JournalViolation::MissingExecutionStarted { .. } => "S-2:",
            JournalViolation::MultipleTerminalEvents { .. } => "S-3:",
            JournalViolation::TerminalNotLast { .. } => "S-4:",
            JournalViolation::CancelledWithoutRequest { .. } => "S-5:",
            JournalViolation::StartedWithoutScheduled { .. } => "SE-1:",
            JournalViolation::CompletedWithoutStarted { .. } => "SE-2:",
            JournalViolation::RetryingWithoutStarted { .. } => "SE-3:",
            JournalViolation::EventAfterCompleted { .. } => "SE-4:",
            JournalViolation::TimerFiredWithoutScheduled { .. } => "CF-1:",
            JournalViolation::SignalReceivedWithoutDelivery { .. } => "CF-2:",
            JournalViolation::SignalConsumedTwice { .. } => "CF-3:",
            JournalViolation::AwaitWaitingOnDuplicate { .. } => "CF-4:",
            JournalViolation::AwaitSignalInconsistent { .. } => "CF-4:",
            JournalViolation::SubmitWithoutCreate { .. } => "JS-1:",
            JournalViolation::SubmitAfterAwait { .. } => "JS-2:",
            JournalViolation::AwaitedNotMember { .. } => "JS-3:",
            JournalViolation::AwaitedNotCompleted { .. } => "JS-4:",
            JournalViolation::DoubleConsume { .. } => "JS-5:",
            JournalViolation::ConsumeExceedsSubmit { .. } => "JS-6:",
            JournalViolation::PromiseInMultipleJoinSets { .. } => "JS-7:",
        }
    }

    /// Stable diagnostic message. It always begins with the violation's rule
    /// tag (`S-1:`, `SE-4:`, ...), so log greps remain stable.
    pub fn message(&self) -> (r: String)
        ensures
            violation_tag(self@).is_prefix_of(r@),
    {
        let mut rest = String::new();
        let out = {
            match self {
            JournalViolation::NonMonotonicSequence { entry_index, expected, actual } => {
                rest.append(" non-monotonic sequence at index ");
                rest.append(u64_to_string(*entry_index as u64).as_str());
                rest.append(": expected ");
                rest.append(u64_to_string(*expected).as_str());
                rest.append(", got ");
                rest.append(u64_to_string(*actual).as_str());
            },
            JournalViolation::MissingExecutionStarted { first_event } => {
                rest.append(" first event must be ExecutionStarted, got ");
                rest.append(first_event.as_str());
            },
            JournalViolation::MultipleTerminalEvents { first_at, second_at } => {
                rest.append(" multiple terminal events at seq ");
                rest.append(u64_to_string(*first_at).as_str());
                rest.append(" and ");
                rest.append(u64_to_string(*second_at).as_str());
            },
            JournalViolation::TerminalNotLast { terminal_seq, journal_len } => {
                rest.append(" terminal event at seq ");
                rest.append(u64_to_string(*terminal_seq).as_str());
                rest.append(" is not last (journal len ");
                rest.append(u64_to_string(*journal_len as u64).as_str());
                rest.append(")");
            },
            JournalViolation::CancelledWithoutRequest { cancelled_seq } => {
                rest.append(" ExecutionCancelled at seq ");
                rest.append(u64_to_string(*cancelled_seq).as_str());
                rest.append(" without prior CancelRequested");
            },
            JournalViolation::StartedWithoutScheduled { promise_id, started_seq } => {
                rest.append(" InvokeStarted at seq ");
                rest.append(u64_to_string(*started_seq).as_str());
                rest.append(" for ");
                rest.append(promise_id.display_string().as_str());
                rest.append(" without prior InvokeScheduled");
            },
            JournalViolation::CompletedWithoutStarted { promise_id, completed_seq } => {
                rest.append(" InvokeCompleted at seq ");
                rest.append(u64_to_string(*completed_seq).as_str());
                rest.append(" for ");
                rest.append(promise_id.display_string().as_str());
                rest.append(" without prior InvokeStarted");
            },
            JournalViolation::RetryingWithoutStarted {
                promise_id,
                failed_attempt,
                retrying_seq,
            } => {
                rest.append(" InvokeRetrying at seq ");
                rest.append(u64_to_string(*retrying_seq).as_str());
                rest.append(" for ");
                rest.append(promise_id.display_string().as_str());
                rest.append(" without prior InvokeStarted of attempt ");
                rest.append(u64_to_string(*failed_attempt as u64).as_str());
            },
            JournalViolation::EventAfterCompleted {
                promise_id,
                offending_seq,
                offending_event,
            } => {
                rest.append(" ");
                rest.append(offending_event.as_str());
                rest.append(" at seq ");
                rest.append(u64_to_string(*offending_seq).as_str());
                rest.append(" for ");
                rest.append(promise_id.display_string().as_str());
                rest.append(" after InvokeCompleted");
            },
            JournalViolation::TimerFiredWithoutScheduled { promise_id, fired_seq } => {
                rest.append(" TimerFired at seq ");
                rest.append(u64_to_string(*fired_seq).as_str());
                rest.append(" for ");
                rest.append(promise_id.display_string().as_str());
                rest.append(" without prior TimerScheduled");
            },
            JournalViolation::SignalReceivedWithoutDelivery {
                signal_name,
                delivery_id,
                received_seq,
            } => {
                rest.append(" SignalReceived at seq ");
                rest.append(u64_to_string(*received_seq).as_str());
                rest.append(" for signal '");
                rest.append(signal_name.as_str());
                rest.append("' delivery ");
                rest.append(u64_to_string(*delivery_id).as_str());
                rest.append(" without prior SignalDelivered");
            },
            JournalViolation::SignalConsumedTwice { signal_name, delivery_id, second_seq } => {
                rest.append(" signal '");
                rest.append(signal_name.as_str());
                rest.append("' delivery ");
                rest.append(u64_to_string(*delivery_id).as_str());
                rest.append(" consumed twice, second at seq ");
                rest.append(u64_to_string(*second_seq).as_str());
            },
            JournalViolation::AwaitWaitingOnDuplicate { awaiting_seq, promise_id } => {
                rest.append(" ExecutionAwaiting at seq ");
                rest.append(u64_to_string(*awaiting_seq).as_str());
                rest.append(" has duplicate promise ");
                rest.append(promise_id.display_string().as_str());
                rest.append(" in waiting_on");
            },
            JournalViolation::AwaitSignalInconsistent { awaiting_seq, waiting_on_count } => {
                rest.append(" ExecutionAwaiting(Signal) at seq ");
                rest.append(u64_to_string(*awaiting_seq).as_str());
                rest.append(" has ");
                rest.append(u64_to_string(*waiting_on_count as u64).as_str());
                rest.append(" promises, expected 1");
            },
            JournalViolation::SubmitWithoutCreate { join_set_id, submitted_seq } => {
                rest.append(" JoinSetSubmitted at seq ");
                rest.append(u64_to_string(*submitted_seq).as_str());
                rest.append(" for ");
                rest.append(join_set_id.display_string().as_str());
                rest.append(" without prior JoinSetCreated");
            },
            JournalViolation::SubmitAfterAwait { join_set_id, submitted_seq } => {
                rest.append(" JoinSetSubmitted at seq ");
                rest.append(u64_to_string(*submitted_seq).as_str());
                rest.append(" for ");
                rest.append(join_set_id.display_string().as_str());
                rest.append(" after JoinSetAwaited");
            },
            JournalViolation::AwaitedNotMember { join_set_id, promise_id, awaited_seq } => {
                rest.append(" JoinSetAwaited at seq ");
                rest.append(u64_to_string(*awaited_seq).as_str());
                rest.append(" for ");
                rest.append(promise_id.display_string().as_str());
                rest.append(" not a member of ");
                rest.append(join_set_id.display_string().as_str());
            },
            JournalViolation::AwaitedNotCompleted { promise_id, awaited_seq } => {
                rest.append(" JoinSetAwaited at seq ");
                rest.append(u64_to_string(*awaited_seq).as_str());
                rest.append(" for ");
                rest.append(promise_id.display_string().as_str());
                rest.append(" which is not yet completed");
            },
            JournalViolation::DoubleConsume { join_set_id, promise_id, second_seq } => {
                rest.append(" ");
                rest.append(promise_id.display_string().as_str());
                rest.append(" consumed twice from ");
                rest.append(join_set_id.display_string().as_str());
                rest.append(", second at seq ");
                rest.append(u64_to_string(*second_seq).as_str());
            },
            JournalViolation::ConsumeExceedsSubmit { join_set_id, submitted, awaited } => {
                rest.append(" ");
                rest.append(join_set_id.display_string().as_str());
                rest.append(" has ");
                rest.append(u64_to_string(*awaited as u64).as_str());
                rest.append(" awaits exceeding ");
                rest.append(u64_to_string(*submitted as u64).as_str());
                rest.append(" submits");
            },
            JournalViolation::PromiseInMultipleJoinSets { promise_id, first_js, second_js } => {
                rest.append(" ");
                rest.append(promise_id.display_string().as_str());
                rest.append(" submitted to both ");
                rest.append(first_js.display_string().as_str());
                rest.append(" and ");
                rest.append(second_js.display_string().as_str());
            },
            }
            let mut out = self.tag().to_owned();
            out.append(rest.as_str());
            proof {
                assert(out@.subrange(0, violation_tag(self@).len() as int) =~= violation_tag(
                    self@,
                ));
            }
            out
        };
        out
    }
}

/// The verdict a checker returns, as a mathematical value: `None` when the
/// entry passed, the violation otherwise.
pub open spec fn result_view(r: Result<(), JournalViolation>) -> Option<ViolationV> {
    match r {
        Result::Ok(_) => Option::None,
        Result::Err(v) => Option::Some(v@),
    }
}

/// Errors produced by journal operations, for callers that want a single
/// error type.
#[derive(Debug, PartialEq, Eq)]
pub enum JournalError {
    /// The journal holds no entries.
    EmptyJournal,
    /// An invariant check failed.
    InvariantViolation(JournalViolation),
}

impl JournalError {
    /// Stable diagnostic message.
    pub fn message(&self) -> (r: String)
        ensures
            match self {
                JournalError::EmptyJournal => r@ == "journal is empty"@,
                JournalError::InvariantViolation(v) => violation_tag(v@).is_prefix_of(
                    r@.skip("invariant violation: "@.len() as int),
                ),
            },
    {
        match self {
            JournalError::EmptyJournal => "journal is empty".to_owned(),
            JournalError::InvariantViolation(v) => {
                let mut out = String::new();
                out.append("invariant violation: ");
                let inner = v.message();
                out.append(inner.as_str());
                proof {
                    assert(out@.skip("invariant violation: "@.len() as int) =~= inner@);
                }
                out
            },
        }
    }
}

} // verus!
