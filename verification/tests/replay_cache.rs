use invariant_journal::{
    CachedResult, Codec, EventType, JournalEntry, Payload, PromiseId, ReplayCache, TimeDelta,
    Timestamp,
};

fn pid(tag: u8) -> PromiseId {
    PromiseId::new([tag; 32])
}

fn payload(bytes: &[u8]) -> Payload {
    Payload::new(bytes.to_vec(), Codec::Json)
}

fn entry(sequence: u64, event: EventType) -> JournalEntry {
    JournalEntry { sequence, timestamp: Timestamp::from_millis(0), event }
}

#[test]
fn build_caches_all_supported_event_types() {
    let p_invoke = pid(1);
    let p_random = pid(2);
    let p_time = pid(3);
    let p_timer = pid(4);
    let p_signal = pid(5);

    let entries = vec![
        entry(
            0,
            EventType::InvokeCompleted {
                promise_id: p_invoke.clone(),
                result: payload(&[1]),
                attempt: 1,
            },
        ),
        entry(
            1,
            EventType::RandomGenerated { promise_id: p_random.clone(), value: vec![7, 8, 9] },
        ),
        entry(
            2,
            EventType::TimeRecorded {
                promise_id: p_time.clone(),
                time: Timestamp::from_millis(0),
            },
        ),
        entry(3, EventType::TimerFired { promise_id: p_timer.clone() }),
        entry(
            4,
            EventType::SignalReceived {
                promise_id: p_signal.clone(),
                signal_name: "sig".to_string(),
                payload: payload(&[2]),
                delivery_id: 1,
            },
        ),
        // Not cached:
        entry(
            5,
            EventType::SignalDelivered {
                signal_name: "sig".to_string(),
                payload: payload(&[3]),
                delivery_id: 2,
            },
        ),
        entry(
            6,
            EventType::TimerScheduled {
                promise_id: pid(6),
                duration: TimeDelta::from_millis(1000),
                fire_at: Timestamp::from_millis(0),
            },
        ),
    ];

    let cache = ReplayCache::build(&entries);

    assert_eq!(cache.len(), 5);
    assert!(!cache.is_empty());
    assert_eq!(cache.get_invoke(&p_invoke), Some(&payload(&[1])));
    assert_eq!(cache.get_random(&p_random), Some([7, 8, 9].as_slice()));
    assert!(cache.get_time(&p_time).is_some());
    assert!(cache.is_timer_complete(&p_timer));
    assert_eq!(cache.get_signal(&p_signal), Some(&payload(&[2])));
}

#[test]
fn typed_accessors_fail_closed_on_variant_mismatch() {
    let p_invoke = pid(11);
    let entries = vec![entry(
        0,
        EventType::InvokeCompleted {
            promise_id: p_invoke.clone(),
            result: payload(&[9]),
            attempt: 1,
        },
    )];
    let cache = ReplayCache::build(&entries);

    assert!(cache.get_random(&p_invoke).is_none());
    assert!(cache.get_time(&p_invoke).is_none());
    assert!(!cache.is_timer_complete(&p_invoke));
    assert!(cache.get_signal(&p_invoke).is_none());
}

#[test]
fn build_twice_from_the_same_entries_gives_equal_caches() {
    let p = pid(20);
    let entries = vec![
        entry(
            0,
            EventType::InvokeCompleted { promise_id: p.clone(), result: payload(&[4]), attempt: 1 },
        ),
        entry(1, EventType::TimerFired { promise_id: pid(21) }),
    ];
    let first = ReplayCache::build(&entries);
    let second = ReplayCache::build(&entries);
    assert_eq!(first.len(), second.len());
    assert_eq!(first.get_invoke(&p), second.get_invoke(&p));
    assert_eq!(first.lookup(&pid(21)), second.lookup(&pid(21)));
    assert_eq!(first.lookup(&pid(21)), Some(&CachedResult::Timer));
}

#[test]
fn last_value_wins_for_a_promise_cached_twice() {
    let p = pid(30);
    let entries = vec![
        entry(
            0,
            EventType::InvokeCompleted { promise_id: p.clone(), result: payload(&[1]), attempt: 1 },
        ),
        entry(
            1,
            EventType::InvokeCompleted { promise_id: p.clone(), result: payload(&[2]), attempt: 2 },
        ),
    ];
    let cache = ReplayCache::build(&entries);
    assert_eq!(cache.len(), 1);
    assert_eq!(cache.get_invoke(&p), Some(&payload(&[2])));
}

#[test]
fn empty_journal_builds_empty_cache() {
    let cache = ReplayCache::build(&[]);
    assert_eq!(cache.len(), 0);
    assert!(cache.is_empty());
    assert!(cache.lookup(&pid(1)).is_none());
}
