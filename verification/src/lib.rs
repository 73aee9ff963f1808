//! Re-expresses decoded trace data (one trace holding one or more streams,
//! each stream a sequence of typed events with possibly nested fields) as
//! flat key/value attributes for an append-only observability store. The
//! trace decoder parses the wire format and hands over materialized
//! descriptors; this crate never sees the raw bytes.
//!
//! The pieces, leaves first:
//! * [`text`]: string utilities for attribute-key construction, and the
//!   proof that joined key paths split back into their components.
//! * [`values`]: the closed attribute value model and a string-keyed map.
//! * [`ids`]: UUID-backed identity, including the deterministic derivation
//!   of timeline identifiers as version-5 UUIDs namespaced by the trace UUID
//!   and keyed by the stream's numeric identifier.
//! * [`attrs`]: the closed sets of well-known timeline and event attribute
//!   keys, compiled to canonical strings at interning time.
//! * [`event`]: the field-flattening engine, with the anonymous-field
//!   naming, enumeration-label and reserved-field remapping conventions, and
//!   the per-event attribute derivation.
//! * [`client`]: the attribute-key interning registry, with rename tables
//!   applied before an at-most-once declaration per final key string.
//! * [`properties`]: trace- and stream-descriptor to attribute-set
//!   derivation.
//! * [`pipeline`]: per-timeline event-ordering counters, the drop-or-ingest
//!   decision for each decoded event, and the poll and connection-probe
//!   decisions of live sessions.
//! * [`config`] and [`types`]: plain configuration values and the
//!   cooperative interruption flag.

pub mod attrs;
pub mod client;
pub mod config;
pub mod error;
pub mod event;
pub mod ids;
pub mod pipeline;
pub mod properties;
pub mod text;
pub mod types;
pub mod values;
