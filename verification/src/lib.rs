//! Correctness core of a durable-execution runtime: an append-only event
//! journal together with the validation engine that enforces the invariants
//! under which persisted executions can be replayed deterministically.
//!
//! An execution is an ordered sequence of journal entries. Candidate entries
//! pass through four families of invariant checks — structural, side-effect,
//! control-flow and join-set rules, with fixed precedence within and across
//! families — before the single centralized apply step updates the auxiliary
//! state ([`InvariantState`]). Readers derive views over the accepted
//! entries: the execution status, the wait-resolver sets, the replay cache
//! and the linear-scan resolution helpers. The `laws` module proves what
//! acceptance guarantees globally: sequence integrity, terminal finality,
//! cancel gating, invoke-lifecycle finality, exactly-once signal consumption
//! and join-set consumption bounds.

pub mod control_flow;
pub mod digest;
pub mod engine;
pub mod event;
pub mod execution_error;
pub mod join_set;
pub mod joinsets;
pub mod journal;
pub mod laws;
pub mod payload;
pub mod promise_id;
pub mod replay;
pub mod resolution;
pub mod side_effects;
pub mod status;
pub mod state;
pub mod structural;
pub mod text;
pub mod time;
pub mod util;
pub mod validator;
pub mod violation;

pub use engine::{ComponentSource, EngineConfig};
pub use event::{AwaitKind, EventType, InvokeKind, RetryPolicy, SignalDeliveryId};
pub use execution_error::{ErrorKind, ExecutionError};
pub use join_set::JoinSetId;
pub use journal::{ExecutionJournal, ExecutionStatus, JournalEntry};
pub use payload::{Codec, Payload};
pub use promise_id::{DomainError, ExecutionId, PromiseId, MAX_CALL_DEPTH};
pub use replay::{CachedResult, ReplayCache};
pub use resolution::{
    has_cancel_requested, is_invoke_completed, is_invoke_scheduled, is_invoke_started,
    is_join_set_created, is_signal_consumed, is_signal_delivered, is_timer_fired,
    is_timer_scheduled, join_set_consumed, join_set_members, promise_owner, retry_count,
    terminal_event,
};
pub use state::InvariantState;
pub use status::{can_resume, completed_promises, derive_next_status, derive_status, wait_resolvers};
pub use time::{TimeDelta, Timestamp};
pub use validator::validate_journal;
pub use violation::{JournalError, JournalViolation};
