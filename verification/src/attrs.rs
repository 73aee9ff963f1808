//! The closed sets of well-known timeline and event attribute keys. Each key
//! is compiled to its canonical, fully namespaced string only at interning
//! time; one explicit variant per set carries a custom or field-derived key.

use vstd::prelude::*;

verus! {

/// The marker value naming this ingest source on every timeline.
pub const TIMELINE_INGEST_SOURCE_VAL: &'static str = "ctf-plugins";

/// A timeline attribute key.
#[derive(Clone, PartialEq, Eq, Debug)]
pub enum TimelineAttrKey {
    Name,
    Description,
    RunId,
    TimeDomain,
    ClockStyle,
    IngestSource,
    TraceName,
    TraceUuid,
    TraceStreamCount,
    TraceEnv(String),
    StreamId,
    StreamName,
    StreamClockFreq,
    StreamClockOffsetSeconds,
    StreamClockOffsetCycles,
    StreamClockPrecision,
    StreamClockUnixEpoch,
    StreamClockName,
    StreamClockDesc,
    StreamClockUuid,
    MergeStreamId,
    Custom(String),
}

impl TimelineAttrKey {
    /// The canonical string of this key.
    pub open spec fn canonical(&self) -> Seq<char> {
        match self {
            TimelineAttrKey::Name => "timeline.name"@,
            TimelineAttrKey::Description => "timeline.description"@,
            TimelineAttrKey::RunId => "timeline.run_id"@,
            TimelineAttrKey::TimeDomain => "timeline.time_domain"@,
            TimelineAttrKey::ClockStyle => "timeline.clock_style"@,
            TimelineAttrKey::IngestSource => "timeline.ingest_source"@,
            TimelineAttrKey::TraceName => "timeline.internal.ctf.trace.name"@,
            TimelineAttrKey::TraceUuid => "timeline.internal.ctf.trace.uuid"@,
            TimelineAttrKey::TraceStreamCount => "timeline.internal.ctf.trace.stream_count"@,
            TimelineAttrKey::TraceEnv(k) => "timeline.internal.ctf.trace.env."@ + k@,
            TimelineAttrKey::StreamId => "timeline.internal.ctf.stream.id"@,
            TimelineAttrKey::StreamName => "timeline.internal.ctf.stream.name"@,
            TimelineAttrKey::StreamClockFreq => "timeline.internal.ctf.stream.clock.frequency"@,
            TimelineAttrKey::StreamClockOffsetSeconds
                => "timeline.internal.ctf.stream.clock.offset_seconds"@,
            TimelineAttrKey::StreamClockOffsetCycles
                => "timeline.internal.ctf.stream.clock.offset_cycles"@,
            TimelineAttrKey::StreamClockPrecision
                => "timeline.internal.ctf.stream.clock.precision"@,
            TimelineAttrKey::StreamClockUnixEpoch
                => "timeline.internal.ctf.stream.clock.unix_epoch_origin"@,
            TimelineAttrKey::StreamClockName => "timeline.internal.ctf.stream.clock.name"@,
            TimelineAttrKey::StreamClockDesc => "timeline.internal.ctf.stream.clock.description"@,
            TimelineAttrKey::StreamClockUuid => "timeline.internal.ctf.stream.clock.uuid"@,
            TimelineAttrKey::MergeStreamId => "timeline.internal.config.merge_stream_id"@,
            TimelineAttrKey::Custom(k) => "timeline."@ + k@,
        }
    }

    /// A copy of this key with the same canonical string.
    pub fn dup(&self) -> (r: TimelineAttrKey)
        ensures
            r.canonical() == self.canonical(),
    {
        match self {
            TimelineAttrKey::Name => TimelineAttrKey::Name,
            TimelineAttrKey::Description => TimelineAttrKey::Description,
            TimelineAttrKey::RunId => TimelineAttrKey::RunId,
            TimelineAttrKey::TimeDomain => TimelineAttrKey::TimeDomain,
            TimelineAttrKey::ClockStyle => TimelineAttrKey::ClockStyle,
            TimelineAttrKey::IngestSource => TimelineAttrKey::IngestSource,
            TimelineAttrKey::TraceName => TimelineAttrKey::TraceName,
            TimelineAttrKey::TraceUuid => TimelineAttrKey::TraceUuid,
            TimelineAttrKey::TraceStreamCount => TimelineAttrKey::TraceStreamCount,
            TimelineAttrKey::TraceEnv(k) => TimelineAttrKey::TraceEnv(k.clone()),
            TimelineAttrKey::StreamId => TimelineAttrKey::StreamId,
            TimelineAttrKey::StreamName => TimelineAttrKey::StreamName,
            TimelineAttrKey::StreamClockFreq => TimelineAttrKey::StreamClockFreq,
            TimelineAttrKey::StreamClockOffsetSeconds => TimelineAttrKey::StreamClockOffsetSeconds,
            TimelineAttrKey::StreamClockOffsetCycles => TimelineAttrKey::StreamClockOffsetCycles,
            TimelineAttrKey::StreamClockPrecision => TimelineAttrKey::StreamClockPrecision,
            TimelineAttrKey::StreamClockUnixEpoch => TimelineAttrKey::StreamClockUnixEpoch,
            TimelineAttrKey::StreamClockName => TimelineAttrKey::StreamClockName,
            TimelineAttrKey::StreamClockDesc => TimelineAttrKey::StreamClockDesc,
            TimelineAttrKey::StreamClockUuid => TimelineAttrKey::StreamClockUuid,
            TimelineAttrKey::MergeStreamId => TimelineAttrKey::MergeStreamId,
            TimelineAttrKey::Custom(k) => TimelineAttrKey::Custom(k.clone()),
        }
    }

    /// Renders the canonical string of this key.
    pub fn canonical_string(&self) -> (r: String)
        ensures
            r@ == self.canonical(),
    {
        match self {
            TimelineAttrKey::Name => String::from_str("timeline.name"),
            TimelineAttrKey::Description => String::from_str("timeline.description"),
            TimelineAttrKey::RunId => String::from_str("timeline.run_id"),
            TimelineAttrKey::TimeDomain => String::from_str("timeline.time_domain"),
            TimelineAttrKey::ClockStyle => String::from_str("timeline.clock_style"),
            TimelineAttrKey::IngestSource => String::from_str("timeline.ingest_source"),
            TimelineAttrKey::TraceName => String::from_str("timeline.internal.ctf.trace.name"),
            TimelineAttrKey::TraceUuid => String::from_str("timeline.internal.ctf.trace.uuid"),
            TimelineAttrKey::TraceStreamCount => String::from_str(
                "timeline.internal.ctf.trace.stream_count",
            ),
            TimelineAttrKey::TraceEnv(k) => {
                let mut r = String::from_str("timeline.internal.ctf.trace.env.");
                r.append(k.as_str());
                r
            },
            TimelineAttrKey::StreamId => String::from_str("timeline.internal.ctf.stream.id"),
            TimelineAttrKey::StreamName => String::from_str("timeline.internal.ctf.stream.name"),
            TimelineAttrKey::StreamClockFreq => String::from_str(
                "timeline.internal.ctf.stream.clock.frequency",
            ),
            TimelineAttrKey::StreamClockOffsetSeconds => String::from_str(
                "timeline.internal.ctf.stream.clock.offset_seconds",
            ),
            TimelineAttrKey::StreamClockOffsetCycles => String::from_str(
                "timeline.internal.ctf.stream.clock.offset_cycles",
            ),
            TimelineAttrKey::StreamClockPrecision => String::from_str(
                "timeline.internal.ctf.stream.clock.precision",
            ),
            TimelineAttrKey::StreamClockUnixEpoch => String::from_str(
                "timeline.internal.ctf.stream.clock.unix_epoch_origin",
            ),
            TimelineAttrKey::StreamClockName => String::from_str(
                "timeline.internal.ctf.stream.clock.name",
            ),
            TimelineAttrKey::StreamClockDesc => String::from_str(
                "timeline.internal.ctf.stream.clock.description",
            ),
            TimelineAttrKey::StreamClockUuid => String::from_str(
                "timeline.internal.ctf.stream.clock.uuid",
            ),
            TimelineAttrKey::MergeStreamId => String::from_str(
                "timeline.internal.config.merge_stream_id",
            ),
            TimelineAttrKey::Custom(k) => {
                let mut r = String::from_str("timeline.");
                r.append(k.as_str());
                r
            },
        }
    }
}

/// An event attribute key.
#[derive(Clone, PartialEq, Eq, Debug)]
pub enum EventAttrKey {
    Name,
    Timestamp,
    StreamId,
    Id,
    LogLevel,
    ClockSnapshot,
    CommonContext(String),
    SpecificContext(String),
    PacketContext(String),
    Field(String),
}

impl EventAttrKey {
    /// The canonical string of this key.
    pub open spec fn canonical(&self) -> Seq<char> {
        match self {
            EventAttrKey::Name => "event.name"@,
            EventAttrKey::Timestamp => "event.timestamp"@,
            EventAttrKey::StreamId => "event.internal.ctf.stream_id"@,
            EventAttrKey::Id => "event.internal.ctf.id"@,
            EventAttrKey::LogLevel => "event.internal.ctf.log_level"@,
            EventAttrKey::ClockSnapshot => "event.internal.ctf.clock_snapshot"@,
            EventAttrKey::CommonContext(k) => "event.internal.ctf.common_context."@ + k@,
            EventAttrKey::SpecificContext(k) => "event.internal.ctf.specific_context."@ + k@,
            EventAttrKey::PacketContext(k) => "event.internal.ctf.packet_context."@ + k@,
            EventAttrKey::Field(k) => "event."@ + k@,
        }
    }

    /// A copy of this key with the same canonical string.
    pub fn dup(&self) -> (r: EventAttrKey)
        ensures
            r.canonical() == self.canonical(),
    {
        match self {
            EventAttrKey::Name => EventAttrKey::Name,
            EventAttrKey::Timestamp => EventAttrKey::Timestamp,
            EventAttrKey::StreamId => EventAttrKey::StreamId,
            EventAttrKey::Id => EventAttrKey::Id,
            EventAttrKey::LogLevel => EventAttrKey::LogLevel,
            EventAttrKey::ClockSnapshot => EventAttrKey::ClockSnapshot,
            EventAttrKey::CommonContext(k) => EventAttrKey::CommonContext(k.clone()),
            EventAttrKey::SpecificContext(k) => EventAttrKey::SpecificContext(k.clone()),
            EventAttrKey::PacketContext(k) => EventAttrKey::PacketContext(k.clone()),
            EventAttrKey::Field(k) => EventAttrKey::Field(k.clone()),
        }
    }

    /// Renders the canonical string of this key.
    pub fn canonical_string(&self) -> (r: String)
        ensures
            r@ == self.canonical(),
    {
        match self {
            EventAttrKey::Name => String::from_str("event.name"),
            EventAttrKey::Timestamp => String::from_str("event.timestamp"),
            EventAttrKey::StreamId => String::from_str("event.internal.ctf.stream_id"),
            EventAttrKey::Id => String::from_str("event.internal.ctf.id"),
            EventAttrKey::LogLevel => String::from_str("event.internal.ctf.log_level"),
            EventAttrKey::ClockSnapshot => String::from_str("event.internal.ctf.clock_snapshot"),
            EventAttrKey::CommonContext(k) => {
                let mut r = String::from_str("event.internal.ctf.common_context.");
                r.append(k.as_str());
                r
            },
            EventAttrKey::SpecificContext(k) => {
                let mut r = String::from_str("event.internal.ctf.specific_context.");
                r.append(k.as_str());
                r
            },
            EventAttrKey::PacketContext(k) => {
                let mut r = String::from_str("event.internal.ctf.packet_context.");
                r.append(k.as_str());
                r
            },
            EventAttrKey::Field(k) => {
                let mut r = String::from_str("event.");
                r.append(k.as_str());
                r
            },
        }
    }
}

} // verus!
