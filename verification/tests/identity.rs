use modality_ctf::ids::{timeline_id_for_stream, UuidValue};
use modality_ctf::properties::{
    merge_custom_timeline_attrs, ClockClassProperties, CtfProperties, CtfStreamProperties,
    CtfTraceProperties, StreamProperties, TraceProperties,
};
use modality_ctf::attrs::TimelineAttrKey;
use modality_ctf::values::AttrVal;

fn uuid_bits(s: &str) -> u128 {
    u128::from_le_bytes(*s.parse::<uuid::Uuid>().unwrap().as_bytes())
}

fn lookup(attrs: &[(TimelineAttrKey, AttrVal)], key: &TimelineAttrKey) -> Option<AttrVal> {
    attrs
        .iter()
        .rev()
        .find(|(k, _)| k == key)
        .map(|(_, v)| v.clone())
}

#[test]
fn timeline_id_derivation_is_deterministic() {
    let trace = UuidValue {
        bits: uuid_bits("a1a2a3a4-b1b2-c1c2-d1d2-d3d4d5d6d7d2"),
    };
    let a = timeline_id_for_stream(&trace, 3);
    let b = timeline_id_for_stream(&trace, 3);
    assert_eq!(a, b);
    // The exact version-5 UUID of this namespace and the little-endian
    // bytes of stream id 3.
    assert_eq!(a.bits, 149323371745685144511059183079268557906u128);
}

#[test]
fn stream_name_falls_back_to_stream_id() {
    let trace = UuidValue {
        bits: uuid_bits("a1a2a3a4-b1b2-c1c2-d1d2-d3d4d5d6d7d2"),
    };
    let s = StreamProperties {
        id: 42,
        name: None,
        clock: None,
    };
    let props = CtfStreamProperties::new(&trace, &s);
    assert_eq!(
        lookup(&props.attrs, &TimelineAttrKey::Name),
        Some(AttrVal::String("stream42".to_string()))
    );
    assert_eq!(
        lookup(&props.attrs, &TimelineAttrKey::Description),
        Some(AttrVal::String("CTF stream 'stream42'".to_string()))
    );
    assert_eq!(
        lookup(&props.attrs, &TimelineAttrKey::StreamId),
        Some(AttrVal::Integer(42))
    );
    assert_eq!(
        lookup(&props.attrs, &TimelineAttrKey::IngestSource),
        Some(AttrVal::String("ctf-plugins".to_string()))
    );
}

#[test]
fn clock_attrs_include_style_and_time_domain() {
    let trace = UuidValue {
        bits: uuid_bits("a1a2a3a4-b1b2-c1c2-d1d2-d3d4d5d6d7d2"),
    };
    let clock_uuid = "d1118896-314e-45f0-ae50-18a38786d957";
    let s = StreamProperties {
        id: 1,
        name: Some("chan0".to_string()),
        clock: Some(ClockClassProperties {
            frequency: 1000000000,
            offset_seconds: -5,
            offset_cycles: 7,
            precision: 1,
            unix_epoch_origin: false,
            name: Some("monotonic".to_string()),
            description: None,
            uuid: Some(UuidValue {
                bits: uuid_bits(clock_uuid),
            }),
        }),
    };
    let props = CtfStreamProperties::new(&trace, &s);
    assert_eq!(
        lookup(&props.attrs, &TimelineAttrKey::ClockStyle),
        Some(AttrVal::String("relative".to_string()))
    );
    assert_eq!(
        lookup(&props.attrs, &TimelineAttrKey::StreamClockUuid),
        Some(AttrVal::String(clock_uuid.to_string()))
    );
    assert_eq!(
        lookup(&props.attrs, &TimelineAttrKey::TimeDomain),
        Some(AttrVal::String(clock_uuid.to_string()))
    );
    assert_eq!(
        lookup(&props.attrs, &TimelineAttrKey::StreamClockOffsetSeconds),
        Some(AttrVal::Integer(-5))
    );
    assert_eq!(
        lookup(&props.attrs, &TimelineAttrKey::StreamClockFreq),
        Some(AttrVal::Integer(1000000000))
    );
}

#[test]
fn trace_attrs_carry_run_id_and_uuid() {
    let run = UuidValue {
        bits: uuid_bits("a1a2a3a4-b1b2-c1c2-d1d2-d3d4d5d6d7d1"),
    };
    let over = UuidValue {
        bits: uuid_bits("a1a2a3a4-b1b2-c1c2-d1d2-d3d4d5d6d7d2"),
    };
    let t = TraceProperties {
        name: Some("my-trace".to_string()),
        uuid: None,
        env: None,
    };
    let props = CtfTraceProperties::new(Some(run), Some(over), 2, &t);
    assert_eq!(
        lookup(&props.attrs, &TimelineAttrKey::RunId),
        Some(AttrVal::String(
            "a1a2a3a4-b1b2-c1c2-d1d2-d3d4d5d6d7d1".to_string()
        ))
    );
    assert_eq!(
        lookup(&props.attrs, &TimelineAttrKey::TraceUuid),
        Some(AttrVal::String(
            "a1a2a3a4-b1b2-c1c2-d1d2-d3d4d5d6d7d2".to_string()
        ))
    );
    assert_eq!(
        lookup(&props.attrs, &TimelineAttrKey::TraceStreamCount),
        Some(AttrVal::Integer(2))
    );
    assert_eq!(
        lookup(&props.attrs, &TimelineAttrKey::TraceName),
        Some(AttrVal::String("my-trace".to_string()))
    );
}

#[test]
fn merged_timeline_attrs_prefer_stream_over_trace() {
    let over = UuidValue {
        bits: uuid_bits("a1a2a3a4-b1b2-c1c2-d1d2-d3d4d5d6d7d2"),
    };
    let run = UuidValue {
        bits: uuid_bits("a1a2a3a4-b1b2-c1c2-d1d2-d3d4d5d6d7d1"),
    };
    // Both the trace and the stream contribute a timeline name; the
    // stream's must win in the merged set.
    let t = TraceProperties {
        name: Some("trace-name".to_string()),
        uuid: None,
        env: None,
    };
    let streams = vec![StreamProperties {
        id: 9,
        name: Some("stream-name".to_string()),
        clock: None,
    }];
    let props = CtfProperties::new(Some(run), Some(over), &t, &streams);
    let timelines = props.timelines();
    assert_eq!(timelines.len(), 1);
    let (sid, tlid, attrs) = &timelines[0];
    assert_eq!(*sid, 9);
    assert_eq!(*tlid, timeline_id_for_stream(&over, 9));
    assert_eq!(
        lookup(attrs, &TimelineAttrKey::Name),
        Some(AttrVal::String("stream-name".to_string()))
    );
    assert_eq!(
        lookup(attrs, &TimelineAttrKey::TraceName),
        Some(AttrVal::String("trace-name".to_string()))
    );
}

#[test]
fn duplicate_stream_ids_keep_the_last_descriptor() {
    let over = UuidValue {
        bits: uuid_bits("a1a2a3a4-b1b2-c1c2-d1d2-d3d4d5d6d7d2"),
    };
    let t = TraceProperties {
        name: None,
        uuid: None,
        env: None,
    };
    let streams = vec![
        StreamProperties {
            id: 5,
            name: Some("first-name".to_string()),
            clock: None,
        },
        StreamProperties {
            id: 5,
            name: Some("second-name".to_string()),
            clock: None,
        },
    ];
    let props = CtfProperties::new(None, Some(over), &t, &streams);
    assert_eq!(props.streams.len(), 1);
    assert_eq!(props.streams[0].0, 5);
    assert_eq!(
        lookup(&props.streams[0].1.attrs, &TimelineAttrKey::Name),
        Some(AttrVal::String("second-name".to_string()))
    );
    let timelines = props.timelines();
    assert_eq!(timelines.len(), 1);
}

#[test]
fn custom_timeline_attrs_merge_with_overrides_last() {
    let base = vec![(
        TimelineAttrKey::Custom("module".to_string()),
        AttrVal::String("from-base".to_string()),
    )];
    let additional = vec![
        (
            "module".to_string(),
            AttrVal::String("from-additional".to_string()),
        ),
        ("ci_run".to_string(), AttrVal::Integer(1)),
    ];
    let overrides = vec![("ci_run".to_string(), AttrVal::Integer(2))];
    let merged = merge_custom_timeline_attrs(base, additional, overrides);
    assert_eq!(
        lookup(&merged, &TimelineAttrKey::Custom("module".to_string())),
        Some(AttrVal::String("from-additional".to_string()))
    );
    assert_eq!(
        lookup(&merged, &TimelineAttrKey::Custom("ci_run".to_string())),
        Some(AttrVal::Integer(2))
    );
}
