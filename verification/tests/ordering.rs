use modality_ctf::event::{
    CtfEvent, EventClassProperties, EventLogLevel, EventProperties, OwnedEvent, OwnedField,
    ScalarField,
};
use modality_ctf::attrs::EventAttrKey;
use modality_ctf::ids::UuidValue;
use modality_ctf::pipeline::{
    connection_probe_decision, live_poll_decision, EventDisposition, IngestPipeline, PollAction,
    PollOutcome, ProbeAction,
};
use modality_ctf::properties::{CtfProperties, StreamProperties, TraceProperties};
use modality_ctf::types::SessionNotFoundAction;
use modality_ctf::values::AttrVal;

fn uuid_bits(s: &str) -> u128 {
    u128::from_le_bytes(*s.parse::<uuid::Uuid>().unwrap().as_bytes())
}

fn two_stream_pipeline() -> IngestPipeline {
    let over = UuidValue {
        bits: uuid_bits("a1a2a3a4-b1b2-c1c2-d1d2-d3d4d5d6d7d2"),
    };
    let t = TraceProperties {
        name: None,
        uuid: None,
        env: None,
    };
    let streams = vec![
        StreamProperties {
            id: 1,
            name: None,
            clock: None,
        },
        StreamProperties {
            id: 2,
            name: None,
            clock: None,
        },
    ];
    let props = CtfProperties::new(None, Some(over), &t, &streams);
    IngestPipeline::new(&props)
}

#[test]
fn ordering_counters_start_at_zero_and_step_by_one() {
    let mut p = two_stream_pipeline();
    let t1 = match p.event_disposition(1) {
        EventDisposition::Ingest(tid, ord) => {
            assert_eq!(ord, 0);
            tid
        }
        _ => panic!("stream 1 was declared"),
    };
    p.record_ingested(&t1);
    match p.event_disposition(1) {
        EventDisposition::Ingest(tid, ord) => {
            assert_eq!(tid, t1);
            assert_eq!(ord, 1);
        }
        _ => panic!("stream 1 was declared"),
    }
    p.record_ingested(&t1);
    match p.event_disposition(1) {
        EventDisposition::Ingest(_, ord) => assert_eq!(ord, 2),
        _ => panic!("stream 1 was declared"),
    }
}

#[test]
fn ordering_counters_are_independent_across_timelines() {
    let mut p = two_stream_pipeline();
    let t1 = match p.event_disposition(1) {
        EventDisposition::Ingest(tid, _) => tid,
        _ => panic!("stream 1 was declared"),
    };
    let t2 = match p.event_disposition(2) {
        EventDisposition::Ingest(tid, _) => tid,
        _ => panic!("stream 2 was declared"),
    };
    assert_ne!(t1, t2);
    // Interleave: 1, 2, 1 — each timeline keeps its own monotonic sequence.
    p.record_ingested(&t1);
    p.record_ingested(&t2);
    p.record_ingested(&t1);
    match p.event_disposition(1) {
        EventDisposition::Ingest(_, ord) => assert_eq!(ord, 2),
        _ => panic!("stream 1 was declared"),
    }
    match p.event_disposition(2) {
        EventDisposition::Ingest(_, ord) => assert_eq!(ord, 1),
        _ => panic!("stream 2 was declared"),
    }
}

#[test]
fn unknown_stream_is_dropped_without_counter_mutation() {
    let mut p = two_stream_pipeline();
    assert_eq!(p.event_disposition(99), EventDisposition::DropUnknownStream);
    // The drop left every declared counter untouched.
    let t1 = match p.event_disposition(1) {
        EventDisposition::Ingest(tid, ord) => {
            assert_eq!(ord, 0);
            tid
        }
        _ => panic!("stream 1 was declared"),
    };
    p.record_ingested(&t1);
    assert_eq!(p.event_disposition(99), EventDisposition::DropUnknownStream);
    match p.event_disposition(2) {
        EventDisposition::Ingest(_, ord) => assert_eq!(ord, 0),
        _ => panic!("stream 2 was declared"),
    }
}

fn event_lookup(e: &CtfEvent, key: &EventAttrKey) -> Option<AttrVal> {
    e.attrs
        .iter()
        .rev()
        .find(|(k, _)| k == key)
        .map(|(_, v)| v.clone())
}

#[test]
fn reserved_event_names_are_remapped() {
    let event = OwnedEvent {
        stream_id: 1,
        clock_snapshot: Some(500),
        class_properties: EventClassProperties {
            id: 17,
            name: Some("modality_mutator_announced".to_string()),
            log_level: Some(EventLogLevel::Warning),
        },
        properties: EventProperties {
            payload: None,
            specific_context: None,
            common_context: None,
            packet_context: None,
        },
    };
    let e = CtfEvent::new(&event);
    assert_eq!(
        event_lookup(&e, &EventAttrKey::Name),
        Some(AttrVal::String("modality.mutator.announced".to_string()))
    );
    assert_eq!(
        event_lookup(&e, &EventAttrKey::Timestamp),
        Some(AttrVal::Timestamp(500))
    );
    assert_eq!(
        event_lookup(&e, &EventAttrKey::ClockSnapshot),
        Some(AttrVal::Timestamp(500))
    );
    assert_eq!(
        event_lookup(&e, &EventAttrKey::StreamId),
        Some(AttrVal::Integer(1))
    );
    assert_eq!(
        event_lookup(&e, &EventAttrKey::Id),
        Some(AttrVal::Integer(17))
    );
    assert_eq!(
        event_lookup(&e, &EventAttrKey::LogLevel),
        Some(AttrVal::String("warning".to_string()))
    );
}

#[test]
fn negative_clock_snapshot_is_dropped() {
    let event = OwnedEvent {
        stream_id: 1,
        clock_snapshot: Some(-1),
        class_properties: EventClassProperties {
            id: 0,
            name: Some("tick".to_string()),
            log_level: None,
        },
        properties: EventProperties {
            payload: None,
            specific_context: None,
            common_context: None,
            packet_context: None,
        },
    };
    let e = CtfEvent::new(&event);
    assert_eq!(
        event_lookup(&e, &EventAttrKey::Name),
        Some(AttrVal::String("tick".to_string()))
    );
    assert_eq!(event_lookup(&e, &EventAttrKey::Timestamp), None);
    assert_eq!(event_lookup(&e, &EventAttrKey::ClockSnapshot), None);
}

#[test]
fn payload_fields_are_namespaced_and_reserved_mapped() {
    let event = OwnedEvent {
        stream_id: 2,
        clock_snapshot: None,
        class_properties: EventClassProperties {
            id: 3,
            name: Some("modality_mutation_triggered".to_string()),
            log_level: None,
        },
        properties: EventProperties {
            payload: Some(OwnedField::Structure(
                None,
                vec![
                    OwnedField::Scalar(Some("speed".to_string()), ScalarField::UnsignedInteger(88)),
                    OwnedField::Scalar(
                        Some("mutation_success".to_string()),
                        ScalarField::UnsignedInteger(1),
                    ),
                ],
            )),
            specific_context: None,
            common_context: Some(OwnedField::Structure(
                None,
                vec![OwnedField::Scalar(
                    Some("cpu_id".to_string()),
                    ScalarField::UnsignedInteger(0),
                )],
            )),
            packet_context: None,
        },
    };
    let e = CtfEvent::new(&event);
    assert_eq!(
        event_lookup(&e, &EventAttrKey::Field("speed".to_string())),
        Some(AttrVal::Integer(88))
    );
    assert_eq!(
        event_lookup(&e, &EventAttrKey::Field("mutation.success".to_string())),
        Some(AttrVal::Bool(true))
    );
    assert_eq!(
        event_lookup(&e, &EventAttrKey::CommonContext("cpu_id".to_string())),
        Some(AttrVal::Integer(0))
    );
}

#[test]
fn live_poll_decisions_follow_the_poll_policy() {
    assert_eq!(
        live_poll_decision(PollOutcome::Progressed, false),
        PollAction::HandleEvents
    );
    assert_eq!(
        live_poll_decision(PollOutcome::TryAgain, false),
        PollAction::SleepThenRepoll
    );
    assert_eq!(live_poll_decision(PollOutcome::Ended, false), PollAction::Stop);
    assert_eq!(live_poll_decision(PollOutcome::Progressed, true), PollAction::Stop);
    assert_eq!(live_poll_decision(PollOutcome::TryAgain, true), PollAction::Stop);
}

#[test]
fn connection_probe_retries_only_under_continue() {
    assert_eq!(
        connection_probe_decision(true, SessionNotFoundAction::Continue),
        ProbeAction::Proceed
    );
    assert_eq!(
        connection_probe_decision(false, SessionNotFoundAction::Continue),
        ProbeAction::SleepThenRetry
    );
    assert_eq!(
        connection_probe_decision(false, SessionNotFoundAction::Fail),
        ProbeAction::Proceed
    );
    assert_eq!(
        connection_probe_decision(false, SessionNotFoundAction::End),
        ProbeAction::Proceed
    );
}

#[test]
fn event_attr_entries_are_deduplicated_by_key() {
    // The payload field `name` flattens to `event.name`, colliding with the
    // event-name attribute; the later payload emission must win and the
    // entry list must hold the key only once.
    let event = OwnedEvent {
        stream_id: 1,
        clock_snapshot: None,
        class_properties: EventClassProperties {
            id: 1,
            name: Some("tick".to_string()),
            log_level: None,
        },
        properties: EventProperties {
            payload: Some(OwnedField::Structure(
                None,
                vec![OwnedField::Scalar(
                    Some("name".to_string()),
                    ScalarField::String("from-payload".to_string()),
                )],
            )),
            specific_context: None,
            common_context: None,
            packet_context: None,
        },
    };
    let kvs = CtfEvent::new(&event).attr_kvs();
    let name_entries: Vec<_> = kvs
        .iter()
        .filter(|(k, _)| k.canonical_string() == "event.name")
        .collect();
    assert_eq!(name_entries.len(), 1);
    assert_eq!(
        name_entries[0].1,
        AttrVal::String("from-payload".to_string())
    );
}
