use invariant_journal::control_flow::check;
use invariant_journal::{
    AwaitKind, Codec, EventType, InvariantState, JournalEntry, JournalViolation, Payload,
    PromiseId, Timestamp,
};

fn pid(tag: u8) -> PromiseId {
    PromiseId::new([tag; 32])
}

fn payload(bytes: &[u8]) -> Payload {
    Payload::new(bytes.to_vec(), Codec::Json)
}

fn mk_entry(sequence: u64, event: EventType) -> JournalEntry {
    JournalEntry { sequence, timestamp: Timestamp::from_millis(0), event }
}

#[test]
fn cf1_timer_fired_without_scheduled_reports_timer_fired_without_scheduled() {
    let p = pid(1);
    let state = InvariantState::default();
    let entry = mk_entry(2, EventType::TimerFired { promise_id: p.clone() });

    let err = check(&state, &entry).unwrap_err();
    assert_eq!(err, JournalViolation::TimerFiredWithoutScheduled { promise_id: p, fired_seq: 2 });
}

#[test]
fn cf1_timer_fired_with_prior_scheduled_passes() {
    let p = pid(2);
    let state = InvariantState {
        scheduled_timer_pids: std::iter::once(p.clone()).collect(),
        ..Default::default()
    };
    let entry = mk_entry(3, EventType::TimerFired { promise_id: p });

    assert!(check(&state, &entry).is_ok());
}

#[test]
fn cf2_signal_received_without_delivery_reports_signal_received_without_delivery() {
    let recv_pid = pid(3);
    let state = InvariantState::default();
    let entry = mk_entry(
        4,
        EventType::SignalReceived {
            promise_id: recv_pid,
            signal_name: "sig".to_string(),
            payload: payload(b"p"),
            delivery_id: 7,
        },
    );

    let err = check(&state, &entry).unwrap_err();
    assert_eq!(
        err,
        JournalViolation::SignalReceivedWithoutDelivery {
            signal_name: "sig".to_string(),
            delivery_id: 7,
            received_seq: 4,
        }
    );
}

#[test]
fn cf2_signal_received_with_payload_mismatch_reports_signal_received_without_delivery() {
    let recv_pid = pid(4);
    let state = InvariantState {
        delivered_signals: std::iter::once(("sig".to_string(), 8, payload(b"expected")))
            .collect(),
        ..Default::default()
    };
    let entry = mk_entry(
        5,
        EventType::SignalReceived {
            promise_id: recv_pid,
            signal_name: "sig".to_string(),
            payload: payload(b"actual"),
            delivery_id: 8,
        },
    );

    let err = check(&state, &entry).unwrap_err();
    assert_eq!(
        err,
        JournalViolation::SignalReceivedWithoutDelivery {
            signal_name: "sig".to_string(),
            delivery_id: 8,
            received_seq: 5,
        }
    );
}

#[test]
fn cf2_signal_received_with_matching_delivery_passes() {
    let recv_pid = pid(5);
    let state = InvariantState {
        delivered_signals: std::iter::once(("sig".to_string(), 9, payload(b"ok"))).collect(),
        ..Default::default()
    };
    let entry = mk_entry(
        6,
        EventType::SignalReceived {
            promise_id: recv_pid,
            signal_name: "sig".to_string(),
            payload: payload(b"ok"),
            delivery_id: 9,
        },
    );

    assert!(check(&state, &entry).is_ok());
}

#[test]
fn cf3_signal_consumed_twice_reports_signal_consumed_twice() {
    let recv_pid = pid(6);
    let state = InvariantState {
        delivered_signals: std::iter::once(("sig".to_string(), 10, payload(b"ok"))).collect(),
        consumed_signal_deliveries: std::iter::once(("sig".to_string(), 10)).collect(),
        ..Default::default()
    };
    let entry = mk_entry(
        7,
        EventType::SignalReceived {
            promise_id: recv_pid,
            signal_name: "sig".to_string(),
            payload: payload(b"ok"),
            delivery_id: 10,
        },
    );

    let err = check(&state, &entry).unwrap_err();
    assert_eq!(
        err,
        JournalViolation::SignalConsumedTwice {
            signal_name: "sig".to_string(),
            delivery_id: 10,
            second_seq: 7,
        }
    );
}

#[test]
fn precedence_cf2_over_cf3_when_delivery_missing_and_already_consumed() {
    let recv_pid = pid(7);
    let state = InvariantState {
        consumed_signal_deliveries: std::iter::once(("sig".to_string(), 11)).collect(),
        ..Default::default()
    };
    let entry = mk_entry(
        8,
        EventType::SignalReceived {
            promise_id: recv_pid,
            signal_name: "sig".to_string(),
            payload: payload(b"ok"),
            delivery_id: 11,
        },
    );

    let err = check(&state, &entry).unwrap_err();
    assert_eq!(
        err,
        JournalViolation::SignalReceivedWithoutDelivery {
            signal_name: "sig".to_string(),
            delivery_id: 11,
            received_seq: 8,
        }
    );
}

#[test]
fn precedence_cf2_over_cf3_when_payload_mismatched_and_already_consumed() {
    let recv_pid = pid(8);
    let state = InvariantState {
        delivered_signals: std::iter::once(("sig".to_string(), 12, payload(b"expected")))
            .collect(),
        consumed_signal_deliveries: std::iter::once(("sig".to_string(), 12)).collect(),
        ..Default::default()
    };
    let entry = mk_entry(
        9,
        EventType::SignalReceived {
            promise_id: recv_pid,
            signal_name: "sig".to_string(),
            payload: payload(b"actual"),
            delivery_id: 12,
        },
    );

    let err = check(&state, &entry).unwrap_err();
    assert_eq!(
        err,
        JournalViolation::SignalReceivedWithoutDelivery {
            signal_name: "sig".to_string(),
            delivery_id: 12,
            received_seq: 9,
        }
    );
}

#[test]
fn cf4_await_signal_with_zero_waiting_on_reports_await_signal_inconsistent() {
    let state = InvariantState::default();
    let entry = mk_entry(
        10,
        EventType::ExecutionAwaiting {
            waiting_on: vec![],
            kind: AwaitKind::Signal { name: "sig".to_string(), promise_id: pid(100) },
        },
    );

    let err = check(&state, &entry).unwrap_err();
    assert_eq!(
        err,
        JournalViolation::AwaitSignalInconsistent { awaiting_seq: 10, waiting_on_count: 0 }
    );
}

#[test]
fn cf4_await_signal_with_multiple_waiting_on_reports_await_signal_inconsistent() {
    let state = InvariantState::default();
    let entry = mk_entry(
        11,
        EventType::ExecutionAwaiting {
            waiting_on: vec![pid(9), pid(10)],
            kind: AwaitKind::Signal { name: "sig".to_string(), promise_id: pid(101) },
        },
    );

    let err = check(&state, &entry).unwrap_err();
    assert_eq!(
        err,
        JournalViolation::AwaitSignalInconsistent { awaiting_seq: 11, waiting_on_count: 2 }
    );
}

#[test]
fn cf4_await_signal_with_single_waiting_on_passes() {
    let state = InvariantState::default();
    let entry = mk_entry(
        12,
        EventType::ExecutionAwaiting {
            waiting_on: vec![pid(11)],
            kind: AwaitKind::Signal { name: "sig".to_string(), promise_id: pid(11) },
        },
    );

    assert!(check(&state, &entry).is_ok());
}

#[test]
fn cf4_non_signal_await_does_not_apply_signal_cardinality_rule() {
    let state = InvariantState::default();
    let entry = mk_entry(
        13,
        EventType::ExecutionAwaiting { waiting_on: vec![], kind: AwaitKind::Any },
    );

    assert!(check(&state, &entry).is_ok());
}

#[test]
fn waiting_on_duplicate_for_any_reports_await_waiting_on_duplicate() {
    let dup = pid(14);
    let state = InvariantState::default();
    let entry = mk_entry(
        15,
        EventType::ExecutionAwaiting {
            waiting_on: vec![dup.clone(), dup.clone()],
            kind: AwaitKind::Any,
        },
    );

    let err = check(&state, &entry).unwrap_err();
    assert_eq!(err, JournalViolation::AwaitWaitingOnDuplicate { awaiting_seq: 15, promise_id: dup });
}

#[test]
fn waiting_on_duplicate_for_all_reports_await_waiting_on_duplicate() {
    let dup = pid(15);
    let state = InvariantState::default();
    let entry = mk_entry(
        16,
        EventType::ExecutionAwaiting {
            waiting_on: vec![dup.clone(), dup.clone()],
            kind: AwaitKind::All,
        },
    );

    let err = check(&state, &entry).unwrap_err();
    assert_eq!(err, JournalViolation::AwaitWaitingOnDuplicate { awaiting_seq: 16, promise_id: dup });
}

#[test]
fn waiting_on_duplicate_precedes_signal_shape_check() {
    let dup = pid(16);
    let state = InvariantState::default();
    let entry = mk_entry(
        17,
        EventType::ExecutionAwaiting {
            waiting_on: vec![dup.clone(), dup.clone()],
            kind: AwaitKind::Signal { name: "sig".to_string(), promise_id: pid(99) },
        },
    );

    let err = check(&state, &entry).unwrap_err();
    assert_eq!(err, JournalViolation::AwaitWaitingOnDuplicate { awaiting_seq: 17, promise_id: dup });
}

#[test]
fn cf4_await_signal_with_mismatched_promise_id_reports_await_signal_inconsistent() {
    let state = InvariantState::default();
    let entry = mk_entry(
        14,
        EventType::ExecutionAwaiting {
            waiting_on: vec![pid(12)],
            kind: AwaitKind::Signal { name: "sig".to_string(), promise_id: pid(13) },
        },
    );

    let err = check(&state, &entry).unwrap_err();
    assert_eq!(
        err,
        JournalViolation::AwaitSignalInconsistent { awaiting_seq: 14, waiting_on_count: 1 }
    );
}
