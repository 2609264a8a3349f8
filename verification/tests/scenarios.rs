use invariant_journal::{
    derive_status, validate_journal, Codec, DomainError, EngineConfig, ErrorKind, EventType,
    ExecutionError, ExecutionJournal, ExecutionStatus, InvariantState, InvokeKind, JournalEntry,
    JournalError, JournalViolation, Payload, PromiseId, Timestamp, MAX_CALL_DEPTH,
};

fn pid(tag: u8) -> PromiseId {
    PromiseId::new([tag; 32])
}

fn payload(bytes: &[u8]) -> Payload {
    Payload::new(bytes.to_vec(), Codec::Json)
}

fn entry(sequence: u64, event: EventType) -> JournalEntry {
    JournalEntry { sequence, timestamp: Timestamp::from_millis(0), event }
}

fn happy_path_entries() -> Vec<JournalEntry> {
    let p = pid(1);
    vec![
        entry(
            0,
            EventType::ExecutionStarted {
                component_digest: vec![1],
                input: payload(b""),
                parent_id: None,
                idempotency_key: "k".to_string(),
            },
        ),
        entry(
            1,
            EventType::InvokeScheduled {
                promise_id: p.clone(),
                kind: InvokeKind::Function,
                function_name: "f".to_string(),
                input: payload(b""),
                retry_policy: None,
            },
        ),
        entry(2, EventType::InvokeStarted { promise_id: p.clone(), attempt: 1 }),
        entry(
            3,
            EventType::InvokeCompleted { promise_id: p, result: payload(&[0xAA]), attempt: 1 },
        ),
        entry(4, EventType::ExecutionCompleted { result: payload(&[0xAA]) }),
    ]
}

#[test]
fn happy_path_journal_validates_and_completes() {
    let journal = ExecutionJournal { execution_id: pid(9), entries: happy_path_entries() };
    assert_eq!(validate_journal(&journal), vec![]);
    assert_eq!(derive_status(&journal.entries), ExecutionStatus::Completed);
}

#[test]
fn happy_path_appends_incrementally() {
    let mut state = InvariantState::new();
    for e in happy_path_entries() {
        assert!(state.check_append(&e).is_ok());
    }
    let late = entry(5, EventType::ExecutionResumed);
    let err = state.check_append(&late).unwrap_err();
    assert_eq!(err, JournalViolation::TerminalNotLast { terminal_seq: 4, journal_len: 6 });
}

#[test]
fn journal_starting_with_invoke_scheduled_reports_missing_execution_started() {
    let journal = ExecutionJournal {
        execution_id: pid(9),
        entries: vec![entry(
            0,
            EventType::InvokeScheduled {
                promise_id: pid(1),
                kind: InvokeKind::Function,
                function_name: "f".to_string(),
                input: payload(b""),
                retry_policy: None,
            },
        )],
    };
    assert_eq!(
        validate_journal(&journal),
        vec![JournalViolation::MissingExecutionStarted {
            first_event: "InvokeScheduled".to_string(),
        }]
    );
}

#[test]
fn empty_journal_reports_missing_execution_started_placeholder() {
    let journal = ExecutionJournal { execution_id: pid(9), entries: vec![] };
    assert_eq!(
        validate_journal(&journal),
        vec![JournalViolation::MissingExecutionStarted { first_event: "<empty>".to_string() }]
    );
}

#[test]
fn batch_validation_collects_violations_and_keeps_advancing() {
    // Two independent violations, one per entry: a wrong first event and a
    // cancel without a request; the second entry is checked against state
    // that includes the first.
    let journal = ExecutionJournal {
        execution_id: pid(9),
        entries: vec![
            entry(0, EventType::CancelRequested { reason: "stop".to_string() }),
            entry(1, EventType::ExecutionCancelled { reason: "stop".to_string() }),
            entry(2, EventType::ExecutionResumed),
        ],
    };
    let violations = validate_journal(&journal);
    assert_eq!(
        violations,
        vec![
            JournalViolation::MissingExecutionStarted {
                first_event: "CancelRequested".to_string(),
            },
            JournalViolation::TerminalNotLast { terminal_seq: 1, journal_len: 3 },
        ]
    );
}

#[test]
fn check_append_rejects_wrong_sequence_and_leaves_state_unchanged() {
    let mut state = InvariantState::new();
    let first = entry(
        0,
        EventType::ExecutionStarted {
            component_digest: vec![1],
            input: payload(b""),
            parent_id: None,
            idempotency_key: "k".to_string(),
        },
    );
    assert!(state.check_append(&first).is_ok());
    let skipped = entry(3, EventType::ExecutionResumed);
    let err = state.check_append(&skipped).unwrap_err();
    assert_eq!(
        err,
        JournalViolation::NonMonotonicSequence { entry_index: 1, expected: 1, actual: 3 }
    );
    let next = entry(1, EventType::ExecutionResumed);
    assert!(state.check_append(&next).is_ok());
}

#[test]
fn promise_root_is_deterministic_and_field_sensitive() {
    let parent = pid(7);
    let a = PromiseId::promise_root(&[1, 2, 3], "key", None);
    let b = PromiseId::promise_root(&[1, 2, 3], "key", None);
    assert_eq!(a, b);
    assert!(a.is_root());
    assert_eq!(a.depth(), 0);

    let other_digest = PromiseId::promise_root(&[1, 2, 4], "key", None);
    assert_ne!(a, other_digest);
    let other_key = PromiseId::promise_root(&[1, 2, 3], "kez", None);
    assert_ne!(a, other_key);
    let with_parent = PromiseId::promise_root(&[1, 2, 3], "key", Some(&parent));
    assert_ne!(a, with_parent);
    let with_other_parent =
        PromiseId::promise_root(&[1, 2, 3], "key", Some(&parent.child(1).unwrap()));
    assert_ne!(with_parent, with_other_parent);
}

#[test]
fn promise_root_length_prefixes_prevent_concatenation_collisions() {
    // Moving a byte across the digest/key boundary changes the hash.
    let a = PromiseId::promise_root(&[1, 2], "k", None);
    let b = PromiseId::promise_root(&[1], "\u{2}k", None);
    assert_ne!(a, b);
}

#[test]
fn promise_root_matches_the_known_digest_of_the_empty_inputs() {
    // With an empty digest, an empty key and no parent, the hashed preimage
    // is eight zero bytes (two zero-valued little-endian length prefixes);
    // the leading root bytes follow from the SHA-256 of that input.
    let id = PromiseId::promise_root(&[], "", None);
    assert_eq!(id.display_string(), "af5570f5");
    assert_eq!(
        id.root_bytes()[..8],
        [0xaf, 0x55, 0x70, 0xf5, 0xa1, 0x81, 0x0b, 0x7a]
    );
}

#[test]
fn child_appends_segments_and_fails_beyond_max_depth() {
    let root = pid(3);
    let child = root.child(4).unwrap();
    assert_eq!(child.path(), &[4]);
    assert_eq!(child.depth(), 1);
    assert!(!child.is_root());
    assert_eq!(child.parent(), Some(root.clone()));
    assert_eq!(root.parent(), None);
    assert_eq!(child.root_bytes(), root.root_bytes());

    let mut deep = root;
    for seq in 0..MAX_CALL_DEPTH as u32 {
        deep = deep.child(seq).unwrap();
    }
    assert_eq!(deep.depth(), MAX_CALL_DEPTH);
    assert_eq!(
        deep.child(0),
        Err(DomainError::MaxCallDepthExceeded { max: MAX_CALL_DEPTH })
    );
}

#[test]
fn display_forms_are_stable() {
    let p = pid(0x1F).child(0).unwrap().child(12).unwrap();
    assert_eq!(p.display_string(), "1f1f1f1f.0.12");
    let js = invariant_journal::JoinSetId(pid(0xAB));
    assert_eq!(js.display_string(), "js(abababab)");
}

#[test]
fn violation_messages_begin_with_their_rule_tag() {
    let p = pid(1);
    let js = invariant_journal::JoinSetId(pid(2));
    let cases = vec![
        (
            JournalViolation::NonMonotonicSequence { entry_index: 1, expected: 1, actual: 0 },
            "S-1:",
        ),
        (
            JournalViolation::MissingExecutionStarted { first_event: "X".to_string() },
            "S-2:",
        ),
        (JournalViolation::MultipleTerminalEvents { first_at: 1, second_at: 2 }, "S-3:"),
        (JournalViolation::TerminalNotLast { terminal_seq: 1, journal_len: 3 }, "S-4:"),
        (JournalViolation::CancelledWithoutRequest { cancelled_seq: 2 }, "S-5:"),
        (
            JournalViolation::StartedWithoutScheduled { promise_id: p.clone(), started_seq: 1 },
            "SE-1:",
        ),
        (
            JournalViolation::CompletedWithoutStarted { promise_id: p.clone(), completed_seq: 1 },
            "SE-2:",
        ),
        (
            JournalViolation::RetryingWithoutStarted {
                promise_id: p.clone(),
                failed_attempt: 2,
                retrying_seq: 1,
            },
            "SE-3:",
        ),
        (
            JournalViolation::EventAfterCompleted {
                promise_id: p.clone(),
                offending_seq: 1,
                offending_event: "InvokeStarted".to_string(),
            },
            "SE-4:",
        ),
        (
            JournalViolation::TimerFiredWithoutScheduled { promise_id: p.clone(), fired_seq: 1 },
            "CF-1:",
        ),
        (
            JournalViolation::SignalReceivedWithoutDelivery {
                signal_name: "sig".to_string(),
                delivery_id: 1,
                received_seq: 2,
            },
            "CF-2:",
        ),
        (
            JournalViolation::SignalConsumedTwice {
                signal_name: "sig".to_string(),
                delivery_id: 1,
                second_seq: 2,
            },
            "CF-3:",
        ),
        (
            JournalViolation::AwaitWaitingOnDuplicate { awaiting_seq: 1, promise_id: p.clone() },
            "CF-4:",
        ),
        (
            JournalViolation::AwaitSignalInconsistent { awaiting_seq: 1, waiting_on_count: 2 },
            "CF-4:",
        ),
        (
            JournalViolation::SubmitWithoutCreate { join_set_id: js.clone(), submitted_seq: 1 },
            "JS-1:",
        ),
        (
            JournalViolation::SubmitAfterAwait { join_set_id: js.clone(), submitted_seq: 1 },
            "JS-2:",
        ),
        (
            JournalViolation::AwaitedNotMember {
                join_set_id: js.clone(),
                promise_id: p.clone(),
                awaited_seq: 1,
            },
            "JS-3:",
        ),
        (
            JournalViolation::AwaitedNotCompleted { promise_id: p.clone(), awaited_seq: 1 },
            "JS-4:",
        ),
        (
            JournalViolation::DoubleConsume {
                join_set_id: js.clone(),
                promise_id: p.clone(),
                second_seq: 1,
            },
            "JS-5:",
        ),
        (
            JournalViolation::ConsumeExceedsSubmit {
                join_set_id: js.clone(),
                submitted: 1,
                awaited: 2,
            },
            "JS-6:",
        ),
        (
            JournalViolation::PromiseInMultipleJoinSets {
                promise_id: p.clone(),
                first_js: js.clone(),
                second_js: invariant_journal::JoinSetId(pid(3)),
            },
            "JS-7:",
        ),
    ];
    for (violation, tag) in cases {
        assert_eq!(violation.tag(), tag);
        assert!(violation.message().starts_with(tag));
    }
    assert_eq!(
        JournalViolation::NonMonotonicSequence { entry_index: 1, expected: 1, actual: 0 }
            .message(),
        "S-1: non-monotonic sequence at index 1: expected 1, got 0"
    );
}

#[test]
fn journal_error_messages_wrap_violations() {
    assert_eq!(JournalError::EmptyJournal.message(), "journal is empty");
    let inner = JournalViolation::CancelledWithoutRequest { cancelled_seq: 2 };
    assert_eq!(
        JournalError::InvariantViolation(inner).message(),
        "invariant violation: S-5: ExecutionCancelled at seq 2 without prior CancelRequested"
    );
}

#[test]
fn execution_error_builders_fill_the_fields() {
    let base = ExecutionError::new(ErrorKind::Timeout, "too slow");
    assert_eq!(base.kind, ErrorKind::Timeout);
    assert_eq!(base.message, "too slow");
    assert_eq!(base.detail, None);
    assert_eq!(base.display_string(), "Timeout: too slow");

    let with = base.with_detail("after 3s");
    assert_eq!(with.detail.as_deref(), Some("after 3s"));
    assert_eq!(with.display_string(), "Timeout: too slow (after 3s)");

    let full = ExecutionError::new_with_detail(ErrorKind::Trap, "boom", "stack");
    assert_eq!(full.display_string(), "Trap: boom (stack)");
    assert_eq!(
        ExecutionError::new(ErrorKind::UserError, "m").with_detail("a").with_detail("b").detail,
        Some("b".to_string())
    );
}

#[test]
fn execution_status_terminality_and_display() {
    assert!(ExecutionStatus::Completed.is_terminal());
    assert!(ExecutionStatus::Failed.is_terminal());
    assert!(ExecutionStatus::Cancelled.is_terminal());
    assert!(!ExecutionStatus::Running.is_terminal());
    assert!(!ExecutionStatus::Cancelling.is_terminal());
    assert_eq!(ExecutionStatus::Running.display_string(), "Running");
    assert_eq!(ExecutionStatus::Cancelling.display_string(), "Cancelling");
}

#[test]
fn event_names_and_terminality_are_stable() {
    let completed = EventType::ExecutionCompleted { result: payload(b"") };
    assert_eq!(completed.name(), "ExecutionCompleted");
    assert!(completed.is_terminal());
    let resumed = EventType::ExecutionResumed;
    assert_eq!(resumed.name(), "ExecutionResumed");
    assert!(!resumed.is_terminal());
    let failed = EventType::ExecutionFailed {
        error: ExecutionError::new(ErrorKind::Uncategorized, "boom"),
    };
    assert!(failed.is_terminal());
    let cancelled = EventType::ExecutionCancelled { reason: "r".to_string() };
    assert!(cancelled.is_terminal());
    assert!(!EventType::CancelRequested { reason: "r".to_string() }.is_terminal());
}

#[test]
fn engine_config_carries_the_epoch_interval() {
    let config = EngineConfig::default();
    assert_eq!(config.interval(), 1000);
    let tuned = config.epoch_interval_ms(250);
    assert_eq!(tuned.interval(), 250);
}
