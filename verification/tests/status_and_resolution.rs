use invariant_journal::{
    can_resume, completed_promises, derive_next_status, derive_status, has_cancel_requested,
    is_invoke_completed,
    is_invoke_scheduled, is_invoke_started, is_join_set_created, is_signal_consumed,
    is_signal_delivered, is_timer_fired, is_timer_scheduled, join_set_consumed, join_set_members,
    promise_owner, retry_count, terminal_event, wait_resolvers, AwaitKind, Codec, ErrorKind,
    EventType, ExecutionError, ExecutionStatus, InvokeKind, JoinSetId, JournalEntry, Payload,
    PromiseId, Timestamp,
};

fn pid(tag: u8) -> PromiseId {
    PromiseId::new([tag; 32])
}

fn payload() -> Payload {
    Payload::new(vec![], Codec::Json)
}

fn entry(sequence: u64, event: EventType) -> JournalEntry {
    JournalEntry { sequence, timestamp: Timestamp::from_millis(0), event }
}

#[test]
fn derive_status_matches_incremental_transitions() {
    let p1 = pid(1);

    let entries = vec![
        entry(
            0,
            EventType::ExecutionStarted {
                component_digest: vec![1, 2, 3],
                input: payload(),
                parent_id: None,
                idempotency_key: "k".into(),
            },
        ),
        entry(
            1,
            EventType::InvokeScheduled {
                promise_id: p1.clone(),
                kind: InvokeKind::Function,
                function_name: "f".into(),
                input: payload(),
                retry_policy: None,
            },
        ),
        entry(
            2,
            EventType::ExecutionAwaiting { waiting_on: vec![p1.clone()], kind: AwaitKind::Single },
        ),
        entry(3, EventType::ExecutionResumed),
        entry(4, EventType::CancelRequested { reason: "stop".into() }),
        entry(
            5,
            EventType::ExecutionFailed {
                error: ExecutionError::new(ErrorKind::Uncategorized, "boom"),
            },
        ),
    ];

    let folded = derive_status(&entries);
    let incremental = entries
        .iter()
        .fold(ExecutionStatus::Running, |status, e| derive_next_status(status, &e.event));

    assert_eq!(folded, incremental);
}

#[test]
fn wait_resolvers_only_contains_three_resolver_events() {
    let p_invoke = pid(10);
    let p_timer = pid(11);
    let p_signal = pid(12);
    let p_random = pid(13);
    let p_time = pid(14);

    let entries = vec![
        entry(
            0,
            EventType::InvokeCompleted {
                promise_id: p_invoke.clone(),
                result: payload(),
                attempt: 1,
            },
        ),
        entry(1, EventType::TimerFired { promise_id: p_timer.clone() }),
        entry(
            2,
            EventType::SignalReceived {
                promise_id: p_signal.clone(),
                signal_name: "s".into(),
                payload: payload(),
                delivery_id: 1,
            },
        ),
        entry(3, EventType::RandomGenerated { promise_id: p_random.clone(), value: vec![7, 8] }),
        entry(
            4,
            EventType::TimeRecorded {
                promise_id: p_time.clone(),
                time: Timestamp::from_millis(0),
            },
        ),
    ];

    let resolvers = wait_resolvers(&entries);

    assert!(resolvers.contains(&p_invoke));
    assert!(resolvers.contains(&p_timer));
    assert!(resolvers.contains(&p_signal));
    assert!(!resolvers.contains(&p_random));
    assert!(!resolvers.contains(&p_time));

    let completed = completed_promises(&entries);
    assert!(completed.contains(&p_invoke));
    assert!(completed.contains(&p_timer));
    assert!(completed.contains(&p_signal));
    assert!(completed.contains(&p_random));
    assert!(completed.contains(&p_time));
}

#[test]
fn can_resume_requires_all_waits_for_all_and_any_wait_for_any() {
    let p1 = pid(1);
    let p2 = pid(2);
    let resolved = vec![p1.clone()];

    let blocked_all = ExecutionStatus::Blocked {
        waiting_on: vec![p1.clone(), p2.clone()],
        kind: AwaitKind::All,
    };
    assert!(!can_resume(&blocked_all, &resolved));

    let blocked_any = ExecutionStatus::Blocked {
        waiting_on: vec![p1.clone(), p2.clone()],
        kind: AwaitKind::Any,
    };
    assert!(can_resume(&blocked_any, &resolved));

    let blocked_signal = ExecutionStatus::Blocked {
        waiting_on: vec![p1.clone()],
        kind: AwaitKind::Signal { name: "sig".to_string(), promise_id: p1.clone() },
    };
    assert!(can_resume(&blocked_signal, &resolved));

    let blocked_signal_two = ExecutionStatus::Blocked {
        waiting_on: vec![p1.clone(), p2.clone()],
        kind: AwaitKind::Signal { name: "sig".to_string(), promise_id: p1.clone() },
    };
    assert!(!can_resume(&blocked_signal_two, &resolved));

    assert!(!can_resume(&ExecutionStatus::Running, &resolved));
    assert!(!can_resume(&ExecutionStatus::Completed, &resolved));
}

#[test]
fn resolution_helpers_scan_the_raw_entries() {
    let p = pid(40);
    let other = pid(41);
    let js = JoinSetId(pid(42));
    let entries = vec![
        entry(
            0,
            EventType::InvokeScheduled {
                promise_id: p.clone(),
                kind: InvokeKind::Function,
                function_name: "f".into(),
                input: payload(),
                retry_policy: None,
            },
        ),
        entry(1, EventType::InvokeStarted { promise_id: p.clone(), attempt: 1 }),
        entry(
            2,
            EventType::InvokeRetrying {
                promise_id: p.clone(),
                failed_attempt: 1,
                error: ExecutionError::new(ErrorKind::Trap, "boom"),
                retry_at: Timestamp::from_millis(5),
            },
        ),
        entry(3, EventType::InvokeStarted { promise_id: p.clone(), attempt: 2 }),
        entry(
            4,
            EventType::InvokeCompleted { promise_id: p.clone(), result: payload(), attempt: 2 },
        ),
        entry(5, EventType::JoinSetCreated { join_set_id: js.clone() }),
        entry(
            6,
            EventType::JoinSetSubmitted { join_set_id: js.clone(), promise_id: p.clone() },
        ),
        entry(
            7,
            EventType::JoinSetAwaited {
                join_set_id: js.clone(),
                promise_id: p.clone(),
                result: payload(),
            },
        ),
        entry(8, EventType::CancelRequested { reason: "stop".into() }),
        entry(9, EventType::ExecutionCancelled { reason: "stop".into() }),
    ];

    assert!(is_invoke_scheduled(&entries, &p));
    assert!(!is_invoke_scheduled(&entries, &other));
    assert!(is_invoke_started(&entries, &p));
    assert!(is_invoke_completed(&entries, &p));
    assert!(!is_timer_scheduled(&entries, &p));
    assert!(!is_timer_fired(&entries, &p));
    assert!(!is_signal_delivered(&entries, "sig", 1));
    assert!(!is_signal_consumed(&entries, "sig", 1));
    assert!(is_join_set_created(&entries, &js));
    assert_eq!(join_set_members(&entries, &js), vec![p.clone()]);
    assert_eq!(join_set_consumed(&entries, &js), vec![p.clone()]);
    assert_eq!(promise_owner(&entries, &p), Some(js.clone()));
    assert_eq!(promise_owner(&entries, &other), None);
    assert!(has_cancel_requested(&entries));
    assert!(matches!(
        terminal_event(&entries),
        Some(EventType::ExecutionCancelled { .. })
    ));
    assert_eq!(retry_count(&entries, &p), 1);
    assert_eq!(retry_count(&entries, &other), 0);
}

#[test]
fn timer_and_signal_scans_match_their_events() {
    let p = pid(50);
    let entries = vec![
        entry(
            0,
            EventType::TimerScheduled {
                promise_id: p.clone(),
                duration: invariant_journal::TimeDelta::from_millis(250),
                fire_at: Timestamp::from_millis(250),
            },
        ),
        entry(1, EventType::TimerFired { promise_id: p.clone() }),
        entry(
            2,
            EventType::SignalDelivered {
                signal_name: "ping".into(),
                payload: payload(),
                delivery_id: 3,
            },
        ),
        entry(
            3,
            EventType::SignalReceived {
                promise_id: pid(51),
                signal_name: "ping".into(),
                payload: payload(),
                delivery_id: 3,
            },
        ),
    ];

    assert!(is_timer_scheduled(&entries, &p));
    assert!(is_timer_fired(&entries, &p));
    assert!(is_signal_delivered(&entries, "ping", 3));
    assert!(is_signal_consumed(&entries, "ping", 3));
    assert!(!is_signal_delivered(&entries, "ping", 4));
    assert!(!is_signal_delivered(&entries, "pong", 3));
    assert!(!has_cancel_requested(&entries));
    assert!(terminal_event(&entries).is_none());
}
