use invariant_journal::side_effects::check;
use invariant_journal::{
    Codec, ErrorKind, EventType, ExecutionError, InvariantState, JournalEntry, JournalViolation,
    Payload, PromiseId, Timestamp,
};

fn pid(tag: u8) -> PromiseId {
    PromiseId::new([tag; 32])
}

fn payload() -> Payload {
    Payload::new(vec![], Codec::Json)
}

fn mk_entry(sequence: u64, event: EventType) -> JournalEntry {
    JournalEntry { sequence, timestamp: Timestamp::from_millis(0), event }
}

#[test]
fn precedence_se4_over_se1_for_started() {
    let p = pid(1);
    let state = InvariantState {
        completed_pids: std::iter::once(p.clone()).collect(),
        ..Default::default()
    };
    let entry = mk_entry(3, EventType::InvokeStarted { promise_id: p.clone(), attempt: 1 });
    let err = check(&state, &entry).unwrap_err();
    assert_eq!(
        err,
        JournalViolation::EventAfterCompleted {
            promise_id: p,
            offending_seq: 3,
            offending_event: "InvokeStarted".to_string(),
        }
    );
}

#[test]
fn precedence_se4_over_se3_for_retrying() {
    let p = pid(2);
    let state = InvariantState {
        completed_pids: std::iter::once(p.clone()).collect(),
        ..Default::default()
    };
    let entry = mk_entry(
        4,
        EventType::InvokeRetrying {
            promise_id: p.clone(),
            failed_attempt: 1,
            error: ExecutionError::new(ErrorKind::Uncategorized, "boom"),
            retry_at: Timestamp::from_millis(0),
        },
    );
    let err = check(&state, &entry).unwrap_err();
    assert_eq!(
        err,
        JournalViolation::EventAfterCompleted {
            promise_id: p,
            offending_seq: 4,
            offending_event: "InvokeRetrying".to_string(),
        }
    );
}

#[test]
fn precedence_se2_over_se4_for_completed() {
    let p = pid(9);
    let state = InvariantState {
        completed_pids: std::iter::once(p.clone()).collect(),
        ..Default::default()
    };
    let entry = mk_entry(
        4,
        EventType::InvokeCompleted { promise_id: p.clone(), result: payload(), attempt: 1 },
    );
    let err = check(&state, &entry).unwrap_err();
    assert_eq!(
        err,
        JournalViolation::CompletedWithoutStarted { promise_id: p, completed_seq: 4 }
    );
}

#[test]
fn se1_started_without_scheduled_reports_started_without_scheduled() {
    let p = pid(10);
    let state = InvariantState::default();
    let entry = mk_entry(2, EventType::InvokeStarted { promise_id: p.clone(), attempt: 1 });

    let err = check(&state, &entry).unwrap_err();
    assert_eq!(err, JournalViolation::StartedWithoutScheduled { promise_id: p, started_seq: 2 });
}

#[test]
fn se1_started_with_prior_scheduled_passes() {
    let p = pid(11);
    let state = InvariantState {
        scheduled_pids: std::iter::once(p.clone()).collect(),
        ..Default::default()
    };
    let entry = mk_entry(3, EventType::InvokeStarted { promise_id: p, attempt: 1 });

    assert!(check(&state, &entry).is_ok());
}

#[test]
fn se2_completed_without_started_reports_completed_without_started() {
    let p = pid(12);
    let state = InvariantState::default();
    let entry = mk_entry(
        4,
        EventType::InvokeCompleted { promise_id: p.clone(), result: payload(), attempt: 1 },
    );

    let err = check(&state, &entry).unwrap_err();
    assert_eq!(
        err,
        JournalViolation::CompletedWithoutStarted { promise_id: p, completed_seq: 4 }
    );
}

#[test]
fn se2_completed_with_prior_started_passes() {
    let p = pid(13);
    let state = InvariantState {
        started_pids: std::iter::once(p.clone()).collect(),
        ..Default::default()
    };
    let entry = mk_entry(
        5,
        EventType::InvokeCompleted { promise_id: p, result: payload(), attempt: 1 },
    );

    assert!(check(&state, &entry).is_ok());
}

#[test]
fn se4_duplicate_completed_reports_event_after_completed() {
    let p = pid(16);
    let state = InvariantState {
        started_pids: std::iter::once(p.clone()).collect(),
        completed_pids: std::iter::once(p.clone()).collect(),
        ..Default::default()
    };
    let entry = mk_entry(
        6,
        EventType::InvokeCompleted { promise_id: p.clone(), result: payload(), attempt: 1 },
    );

    let err = check(&state, &entry).unwrap_err();
    assert_eq!(
        err,
        JournalViolation::EventAfterCompleted {
            promise_id: p,
            offending_seq: 6,
            offending_event: "InvokeCompleted".to_string(),
        }
    );
}

#[test]
fn se4_completed_other_pid_does_not_block_started_for_this_pid() {
    let blocked = pid(14);
    let allowed = pid(15);
    let state = InvariantState {
        completed_pids: std::iter::once(blocked).collect(),
        scheduled_pids: std::iter::once(allowed.clone()).collect(),
        ..Default::default()
    };
    let entry = mk_entry(6, EventType::InvokeStarted { promise_id: allowed, attempt: 1 });

    assert!(check(&state, &entry).is_ok());
}

#[test]
fn se4_completed_other_pid_does_not_block_completed_for_this_pid() {
    let blocked = pid(17);
    let allowed = pid(18);
    let state = InvariantState {
        started_pids: std::iter::once(allowed.clone()).collect(),
        completed_pids: std::iter::once(blocked).collect(),
        ..Default::default()
    };
    let entry = mk_entry(
        7,
        EventType::InvokeCompleted { promise_id: allowed, result: payload(), attempt: 1 },
    );

    assert!(check(&state, &entry).is_ok());
}

#[test]
fn se3_retrying_with_mismatched_attempt_reports_retrying_without_started() {
    let p = pid(3);
    let state = InvariantState {
        started_pids: std::iter::once(p.clone()).collect(),
        started_attempts: std::iter::once((p.clone(), 2)).collect(),
        ..Default::default()
    };
    let entry = mk_entry(
        7,
        EventType::InvokeRetrying {
            promise_id: p.clone(),
            failed_attempt: 1,
            error: ExecutionError::new(ErrorKind::Uncategorized, "boom"),
            retry_at: Timestamp::from_millis(0),
        },
    );

    let err = check(&state, &entry).unwrap_err();
    assert_eq!(
        err,
        JournalViolation::RetryingWithoutStarted {
            promise_id: p,
            failed_attempt: 1,
            retrying_seq: 7,
        }
    );
}

#[test]
fn se3_retrying_with_matching_attempt_passes() {
    let p = pid(4);
    let state = InvariantState {
        started_pids: std::iter::once(p.clone()).collect(),
        started_attempts: std::iter::once((p.clone(), 2)).collect(),
        ..Default::default()
    };
    let entry = mk_entry(
        8,
        EventType::InvokeRetrying {
            promise_id: p,
            failed_attempt: 2,
            error: ExecutionError::new(ErrorKind::Uncategorized, "boom"),
            retry_at: Timestamp::from_millis(0),
        },
    );

    assert!(check(&state, &entry).is_ok());
}
