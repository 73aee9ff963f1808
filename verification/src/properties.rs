//! Trace- and stream-descriptor to attribute-set derivation: converts the
//! decoder's trace and stream descriptors into timeline attribute sets and a
//! deterministic timeline identifier per stream.

use crate::attrs::{TimelineAttrKey, TIMELINE_INGEST_SOURCE_VAL};
use crate::event::{lemma_group_step, lemma_union_empty, lemma_union_insert, prefixed_keys};
use crate::ids::{
    derived_timeline_id, spec_uuid_hyphenated, timeline_id_for_stream, uuid_new_v4, uuid_to_string,
    TimelineId, UuidValue,
};
use crate::text::{decimal_str, u64_to_string};
use crate::values::{entries_map, int_attr, integer_attr_val, AttrVal, AttrValView, KvMap};
use vstd::prelude::*;

verus! {

/// One value of the trace's environment table.
#[derive(Clone, PartialEq, Eq, Debug)]
pub enum EnvValue {
    Integer(i64),
    String(String),
}

impl View for EnvValue {
    type V = AttrValView;

    open spec fn view(&self) -> AttrValView {
        match self {
            EnvValue::Integer(i) => AttrValView::Integer(*i),
            EnvValue::String(s) => AttrValView::String(s@),
        }
    }
}

/// The trace's environment key/value table.
pub struct Env {
    pub entries: KvMap<EnvValue>,
}

/// The clock metadata a stream descriptor may carry.
#[derive(PartialEq, Eq, Debug)]
pub struct ClockClassProperties {
    pub frequency: u64,
    pub offset_seconds: i64,
    pub offset_cycles: u64,
    pub precision: u64,
    /// Whether the origin of the clock class is the Unix epoch.
    pub unix_epoch_origin: bool,
    pub name: Option<String>,
    pub description: Option<String>,
    /// When present, determines whether two clock classes have correlatable
    /// instances.
    pub uuid: Option<UuidValue>,
}

/// One stream descriptor as handed over by the trace decoder.
#[derive(PartialEq, Eq, Debug)]
pub struct StreamProperties {
    pub id: u64,
    /// Often a path to the stream file within a trace.
    pub name: Option<String>,
    pub clock: Option<ClockClassProperties>,
}

/// The trace descriptor as handed over by the trace decoder.
pub struct TraceProperties {
    pub name: Option<String>,
    pub uuid: Option<UuidValue>,
    pub env: Option<Env>,
}

/// The map denoted by a run of timeline attribute entries, later entries
/// winning on equal canonical keys.
pub open spec fn timeline_entries_map(s: Seq<(TimelineAttrKey, AttrVal)>) -> Map<
    Seq<char>,
    AttrValView,
>
    decreases s.len(),
{
    if s.len() == 0 {
        Map::empty()
    } else {
        timeline_entries_map(s.drop_last()).insert(s.last().0.canonical(), s.last().1@)
    }
}

/// Appending one entry denotes inserting it.
proof fn lemma_timeline_entries_push(
    s: Seq<(TimelineAttrKey, AttrVal)>,
    kv: (TimelineAttrKey, AttrVal),
)
    ensures
        timeline_entries_map(s.push(kv)) == timeline_entries_map(s).insert(
            kv.0.canonical(),
            kv.1@,
        ),
{
    assert(s.push(kv).drop_last() =~= s);
}

/// What `std::path::Path::file_name` yields for a path string, rendered as
/// text: the path's final component, or `None` where the path has none (it
/// is a root, or ends in `..`). A function of the string alone.
pub uninterp spec fn path_file_name_of(s: Seq<char>) -> Option<Seq<char>>;

/// Relies on `std::path::Path::exists`: whether the string resolves to an
/// existing filesystem entry. The answer depends on the filesystem, so
/// nothing is promised of it.
#[verifier::external_body]
fn path_exists(s: &str) -> (r: bool) {
    std::path::Path::new(s).exists()
}

/// Relies on `std::path::Path::file_name`, rendered with
/// `to_string_lossy`: the path's final component as text.
#[verifier::external_body]
fn path_file_name(s: &str) -> (r: Option<String>)
    ensures
        match r {
            Some(f) => path_file_name_of(s@) == Some(f@),
            None => path_file_name_of(s@) is None,
        },
{
    std::path::Path::new(s)
        .file_name()
        .map(|f| f.to_string_lossy().to_string())
}

/// The final path component of the reported name, when the name resolves to
/// an existing filesystem path. Whether the probe answers depends on the
/// filesystem; what it answers is pinned to the name's final component.
fn existing_path_file_name(s: &str) -> (r: Option<String>)
    ensures
        r matches Some(f) ==> path_file_name_of(s@) == Some(f@),
{
    if path_exists(s) {
        path_file_name(s)
    } else {
        None
    }
}

/// The human-readable stream name: the final path component when the
/// reported name is an existing path, else the reported name verbatim, else
/// `stream<id>`.
pub open spec fn chosen_stream_name(
    reported: Option<Seq<char>>,
    path_file: Option<Seq<char>>,
    id: u64,
) -> Seq<char> {
    match path_file {
        Some(f) => f,
        None => match reported {
            Some(n) => n,
            None => "stream"@ + decimal_str(id as nat),
        },
    }
}

/// The clock attributes of one stream, merged over `m`: frequency, offsets,
/// precision, epoch flag, optional name, description and UUID (the UUID also
/// becomes the timeline's time domain), and the derived clock style, `utc`
/// for a Unix-epoch origin and `relative` otherwise.
pub open spec fn clock_attrs(m: Map<Seq<char>, AttrValView>, c: ClockClassProperties) -> Map<
    Seq<char>,
    AttrValView,
> {
    let m1 = m.insert(
        TimelineAttrKey::StreamClockFreq.canonical(),
        int_attr(c.frequency as i128),
    );
    let m2 = m1.insert(
        TimelineAttrKey::StreamClockOffsetSeconds.canonical(),
        AttrValView::Integer(c.offset_seconds),
    );
    let m3 = m2.insert(
        TimelineAttrKey::StreamClockOffsetCycles.canonical(),
        int_attr(c.offset_cycles as i128),
    );
    let m4 = m3.insert(
        TimelineAttrKey::StreamClockPrecision.canonical(),
        int_attr(c.precision as i128),
    );
    let m5 = m4.insert(
        TimelineAttrKey::StreamClockUnixEpoch.canonical(),
        AttrValView::Bool(c.unix_epoch_origin),
    );
    let m6 = match c.name {
        Some(n) => m5.insert(
            TimelineAttrKey::StreamClockName.canonical(),
            AttrValView::String(n@),
        ),
        None => m5,
    };
    let m7 = match c.description {
        Some(d) => m6.insert(
            TimelineAttrKey::StreamClockDesc.canonical(),
            AttrValView::String(d@),
        ),
        None => m6,
    };
    let m8 = match c.uuid {
        Some(u) => m7.insert(
            TimelineAttrKey::StreamClockUuid.canonical(),
            AttrValView::String(spec_uuid_hyphenated(u.bits)),
        ).insert(
            TimelineAttrKey::TimeDomain.canonical(),
            AttrValView::String(spec_uuid_hyphenated(u.bits)),
        ),
        None => m7,
    };
    m8.insert(
        TimelineAttrKey::ClockStyle.canonical(),
        AttrValView::String(if c.unix_epoch_origin {
            "utc"@
        } else {
            "relative"@
        }),
    )
}

/// The timeline attributes of one stream, given the filesystem probe's
/// answer for its reported name: description, the chosen name (as timeline
/// name and stream name), the stream identifier, the fixed ingest-source
/// marker, and the clock attributes when clock metadata is present.
pub open spec fn stream_attrs_spec(s: StreamProperties, path_file: Option<Seq<char>>) -> Map<
    Seq<char>,
    AttrValView,
> {
    let reported = match s.name {
        Some(n) => Some(n@),
        None => None,
    };
    let name = chosen_stream_name(reported, path_file, s.id);
    let m1 = Map::<Seq<char>, AttrValView>::empty().insert(
        TimelineAttrKey::Description.canonical(),
        AttrValView::String("CTF stream '"@ + name + "'"@),
    );
    let m2 = m1.insert(TimelineAttrKey::Name.canonical(), AttrValView::String(name));
    let m3 = m2.insert(TimelineAttrKey::StreamName.canonical(), AttrValView::String(name));
    let m4 = m3.insert(TimelineAttrKey::StreamId.canonical(), int_attr(s.id as i128));
    let m5 = m4.insert(
        TimelineAttrKey::IngestSource.canonical(),
        AttrValView::String(TIMELINE_INGEST_SOURCE_VAL@),
    );
    match s.clock {
        Some(c) => clock_attrs(m5, c),
        None => m5,
    }
}

/// A derived stream attribute set matches its descriptor for some answer of
/// the filesystem probe. Whether the probe answered depends on the
/// filesystem and stays existential; when it answered, its answer is pinned
/// to the final path component of the reported name.
pub open spec fn stream_entry_ok(sp: StreamProperties, cs: CtfStreamProperties) -> bool {
    exists|pf: Option<Seq<char>>|
        {
            &&& (pf matches Some(f) ==> (sp.name matches Some(n) && path_file_name_of(n@)
                == Some(f)))
            &&& timeline_entries_map(cs.attrs@) == #[trigger] stream_attrs_spec(sp, pf)
        }
}

/// One stream re-expressed for the store: its derived timeline identifier
/// and its timeline attribute entries.
pub struct CtfStreamProperties {
    pub timeline_id: TimelineId,
    pub attrs: Vec<(TimelineAttrKey, AttrVal)>,
}

impl CtfStreamProperties {
    /// Derives the timeline identifier and attribute set of one stream.
    pub fn new(trace_uuid: &UuidValue, s: &StreamProperties) -> (r: CtfStreamProperties)
        ensures
            r.timeline_id.bits == derived_timeline_id(trace_uuid.bits, s.id),
            stream_entry_ok(*s, r),
    {
        let timeline_id = timeline_id_for_stream(trace_uuid, s.id);

        let stream_name_from_path: Option<String> = match &s.name {
            Some(sn) => existing_path_file_name(sn.as_str()),
            None => None,
        };
        let ghost pf: Option<Seq<char>> = match &stream_name_from_path {
            Some(f) => Some(f@),
            None => None,
        };
        let stream_name: String = match stream_name_from_path {
            Some(f) => f,
            None => match &s.name {
                Some(n) => n.clone(),
                None => {
                    let mut x = String::from_str("stream");
                    x.append(u64_to_string(s.id).as_str());
                    x
                },
            },
        };

        let mut attrs: Vec<(TimelineAttrKey, AttrVal)> = Vec::new();

        let mut description = String::from_str("CTF stream '");
        description.append(stream_name.as_str());
        description.append("'");
        proof {
            lemma_timeline_entries_push(
                attrs@,
                (TimelineAttrKey::Description, AttrVal::String(description)),
            );
        }
        attrs.push((TimelineAttrKey::Description, AttrVal::String(description)));

        proof {
            lemma_timeline_entries_push(
                attrs@,
                (TimelineAttrKey::Name, AttrVal::String(stream_name)),
            );
        }
        attrs.push((TimelineAttrKey::Name, AttrVal::String(stream_name.clone())));

        proof {
            lemma_timeline_entries_push(
                attrs@,
                (TimelineAttrKey::StreamName, AttrVal::String(stream_name)),
            );
        }
        attrs.push((TimelineAttrKey::StreamName, AttrVal::String(stream_name)));

        let sid = integer_attr_val(s.id as i128);
        proof {
            lemma_timeline_entries_push(attrs@, (TimelineAttrKey::StreamId, sid));
        }
        attrs.push((TimelineAttrKey::StreamId, sid));

        let marker = AttrVal::String(String::from_str(TIMELINE_INGEST_SOURCE_VAL));
        proof {
            lemma_timeline_entries_push(attrs@, (TimelineAttrKey::IngestSource, marker));
        }
        attrs.push((TimelineAttrKey::IngestSource, marker));

        if let Some(c) = &s.clock {
            let freq = integer_attr_val(c.frequency as i128);
            proof {
                lemma_timeline_entries_push(attrs@, (TimelineAttrKey::StreamClockFreq, freq));
            }
            attrs.push((TimelineAttrKey::StreamClockFreq, freq));

            proof {
                lemma_timeline_entries_push(
                    attrs@,
                    (
                        TimelineAttrKey::StreamClockOffsetSeconds,
                        AttrVal::Integer(c.offset_seconds),
                    ),
                );
            }
            attrs.push(
                (TimelineAttrKey::StreamClockOffsetSeconds, AttrVal::Integer(c.offset_seconds)),
            );

            let cycles = integer_attr_val(c.offset_cycles as i128);
            proof {
                lemma_timeline_entries_push(
                    attrs@,
                    (TimelineAttrKey::StreamClockOffsetCycles, cycles),
                );
            }
            attrs.push((TimelineAttrKey::StreamClockOffsetCycles, cycles));

            let precision = integer_attr_val(c.precision as i128);
            proof {
                lemma_timeline_entries_push(
                    attrs@,
                    (TimelineAttrKey::StreamClockPrecision, precision),
                );
            }
            attrs.push((TimelineAttrKey::StreamClockPrecision, precision));

            proof {
                lemma_timeline_entries_push(
                    attrs@,
                    (TimelineAttrKey::StreamClockUnixEpoch, AttrVal::Bool(c.unix_epoch_origin)),
                );
            }
            attrs.push(
                (TimelineAttrKey::StreamClockUnixEpoch, AttrVal::Bool(c.unix_epoch_origin)),
            );

            if let Some(cn) = &c.name {
                proof {
                    lemma_timeline_entries_push(
                        attrs@,
                        (TimelineAttrKey::StreamClockName, AttrVal::String(*cn)),
                    );
                }
                attrs.push((TimelineAttrKey::StreamClockName, AttrVal::String(cn.clone())));
            }
            if let Some(cd) = &c.description {
                proof {
                    lemma_timeline_entries_push(
                        attrs@,
                        (TimelineAttrKey::StreamClockDesc, AttrVal::String(*cd)),
                    );
                }
                attrs.push((TimelineAttrKey::StreamClockDesc, AttrVal::String(cd.clone())));
            }
            if let Some(cid) = &c.uuid {
                let rendered = uuid_to_string(cid);
                proof {
                    lemma_timeline_entries_push(
                        attrs@,
                        (TimelineAttrKey::StreamClockUuid, AttrVal::String(rendered)),
                    );
                }
                attrs.push((TimelineAttrKey::StreamClockUuid, AttrVal::String(rendered.clone())));
                proof {
                    lemma_timeline_entries_push(
                        attrs@,
                        (TimelineAttrKey::TimeDomain, AttrVal::String(rendered)),
                    );
                }
                attrs.push((TimelineAttrKey::TimeDomain, AttrVal::String(rendered)));
            }
            let style = if c.unix_epoch_origin {
                String::from_str("utc")
            } else {
                String::from_str("relative")
            };
            proof {
                lemma_timeline_entries_push(
                    attrs@,
                    (TimelineAttrKey::ClockStyle, AttrVal::String(style)),
                );
            }
            attrs.push((TimelineAttrKey::ClockStyle, AttrVal::String(style)));
        }

        let r = CtfStreamProperties { timeline_id, attrs };
        proof {
            assert(timeline_entries_map(r.attrs@) == stream_attrs_spec(*s, pf));
        }
        r
    }

    /// The derived timeline identifier.
    pub fn timeline_id(&self) -> (r: TimelineId)
        ensures
            r == self.timeline_id,
    {
        self.timeline_id
    }

    /// The timeline attribute entries, in emission order.
    pub fn attr_kvs(&self) -> (r: Vec<(TimelineAttrKey, AttrVal)>)
        ensures
            timeline_entries_map(r@) == timeline_entries_map(self.attrs@),
    {
        let mut out: Vec<(TimelineAttrKey, AttrVal)> = Vec::new();
        push_dup_attrs(&mut out, &self.attrs);
        proof {
            assert(timeline_entries_map(out@) == timeline_entries_map(
                Seq::<(TimelineAttrKey, AttrVal)>::empty(),
            ).union_prefer_right(timeline_entries_map(self.attrs@)));
            assert(timeline_entries_map(Seq::<(TimelineAttrKey, AttrVal)>::empty()).union_prefer_right(
                timeline_entries_map(self.attrs@),
            ) =~= timeline_entries_map(self.attrs@));
        }
        out
    }
}

/// Appends value-preserving copies of `src`'s entries to `out`; the denoted
/// map gains exactly `src`'s map.
fn push_dup_attrs(out: &mut Vec<(TimelineAttrKey, AttrVal)>, src: &Vec<(TimelineAttrKey, AttrVal)>)
    ensures
        timeline_entries_map(final(out)@) == timeline_entries_map(old(out)@).union_prefer_right(
            timeline_entries_map(src@),
        ),
{
    let ghost base = timeline_entries_map(out@);
    let n = src.len();
    let mut i: usize = 0;
    while i < n
        invariant
            0 <= i <= n,
            n == src@.len(),
            timeline_entries_map(out@) == base.union_prefer_right(
                timeline_entries_map(src@.take(i as int)),
            ),
        decreases n - i,
    {
        let kv = &src[i];
        let entry = (kv.0.dup(), kv.1.dup());
        proof {
            lemma_timeline_entries_push(out@, entry);
            assert(src@.take(i + 1).drop_last() =~= src@.take(i as int));
            assert(src@.take(i + 1).last() == src@[i as int]);
            lemma_union_insert(
                base,
                timeline_entries_map(src@.take(i as int)),
                src@[i as int].0.canonical(),
                src@[i as int].1@,
            );
        }
        out.push(entry);
        i += 1;
    }
    proof {
        assert(src@.take(n as int) =~= src@);
    }
}

/// The map denoted by configured custom timeline attributes: each pair binds
/// the `timeline.`-namespaced custom key, later entries winning.
pub open spec fn custom_entries(s: Seq<(String, AttrVal)>) -> Map<Seq<char>, AttrValView>
    decreases s.len(),
{
    if s.len() == 0 {
        Map::empty()
    } else {
        custom_entries(s.drop_last()).insert(
            TimelineAttrKey::Custom(s.last().0).canonical(),
            s.last().1@,
        )
    }
}

/// Appends one run of custom timeline attributes to `out`.
fn push_custom_attrs(out: &mut Vec<(TimelineAttrKey, AttrVal)>, src: &Vec<(String, AttrVal)>)
    ensures
        timeline_entries_map(final(out)@) == timeline_entries_map(old(out)@).union_prefer_right(
            custom_entries(src@),
        ),
{
    let ghost base = timeline_entries_map(out@);
    let n = src.len();
    let mut i: usize = 0;
    while i < n
        invariant
            0 <= i <= n,
            n == src@.len(),
            timeline_entries_map(out@) == base.union_prefer_right(
                custom_entries(src@.take(i as int)),
            ),
        decreases n - i,
    {
        let kv = &src[i];
        let entry = (TimelineAttrKey::Custom(kv.0.clone()), kv.1.dup());
        proof {
            lemma_timeline_entries_push(out@, entry);
            assert(src@.take(i + 1).drop_last() =~= src@.take(i as int));
            assert(src@.take(i + 1).last() == src@[i as int]);
            lemma_union_insert(
                base,
                custom_entries(src@.take(i as int)),
                TimelineAttrKey::Custom(src@[i as int].0).canonical(),
                src@[i as int].1@,
            );
        }
        out.push(entry);
        i += 1;
    }
    proof {
        assert(src@.take(n as int) =~= src@);
    }
}

/// Merges configured additional and override custom timeline attributes over
/// a timeline's attribute entries, later sets winning: what a live session
/// declares for each timeline after configuration is applied.
pub fn merge_custom_timeline_attrs(
    base: Vec<(TimelineAttrKey, AttrVal)>,
    additional: Vec<(String, AttrVal)>,
    overrides: Vec<(String, AttrVal)>,
) -> (r: Vec<(TimelineAttrKey, AttrVal)>)
    ensures
        timeline_entries_map(r@) == timeline_entries_map(base@).union_prefer_right(
            custom_entries(additional@),
        ).union_prefer_right(custom_entries(overrides@)),
{
    let mut r = base;
    push_custom_attrs(&mut r, &additional);
    push_custom_attrs(&mut r, &overrides);
    r
}

/// A UUID override falling back to a reported UUID.
pub open spec fn opt_uuid_or(a: Option<UuidValue>, b: Option<UuidValue>) -> Option<UuidValue> {
    if a is Some {
        a
    } else {
        b
    }
}

/// The trace-level attributes: the run identifier; the trace UUID when an
/// override or a reported UUID is available; the stream count; the trace
/// name (as timeline name and trace name) when reported; and one namespaced
/// attribute per trace-environment entry.
pub open spec fn trace_attrs_spec(
    rid: u128,
    trace_uuid_override: Option<UuidValue>,
    stream_count: u64,
    t: TraceProperties,
) -> Map<Seq<char>, AttrValView> {
    let m1 = Map::<Seq<char>, AttrValView>::empty().insert(
        TimelineAttrKey::RunId.canonical(),
        AttrValView::String(spec_uuid_hyphenated(rid)),
    );
    let m2 = match opt_uuid_or(trace_uuid_override, t.uuid) {
        Some(u) => m1.insert(
            TimelineAttrKey::TraceUuid.canonical(),
            AttrValView::String(spec_uuid_hyphenated(u.bits)),
        ),
        None => m1,
    };
    let m3 = m2.insert(
        TimelineAttrKey::TraceStreamCount.canonical(),
        int_attr(stream_count as i128),
    );
    let m4 = match t.name {
        Some(n) => m3.insert(TimelineAttrKey::Name.canonical(), AttrValView::String(n@)).insert(
            TimelineAttrKey::TraceName.canonical(),
            AttrValView::String(n@),
        ),
        None => m3,
    };
    match t.env {
        Some(env) => m4.union_prefer_right(
            prefixed_keys("timeline.internal.ctf.trace.env."@, env.entries@),
        ),
        None => m4,
    }
}

/// A derived trace attribute set matches its inputs for some run identifier
/// (the configured one where given, else a freshly generated one).
pub open spec fn trace_entry_ok(
    run_id: Option<UuidValue>,
    trace_uuid_override: Option<UuidValue>,
    stream_count: u64,
    t: TraceProperties,
    ct: CtfTraceProperties,
) -> bool {
    exists|rid: u128|
        (run_id matches Some(u) ==> rid == u.bits) && timeline_entries_map(ct.attrs@)
            == #[trigger] trace_attrs_spec(rid, trace_uuid_override, stream_count, t)
}

/// The trace-level attribute entries shared by every timeline of the trace.
pub struct CtfTraceProperties {
    pub attrs: Vec<(TimelineAttrKey, AttrVal)>,
}

impl CtfTraceProperties {
    /// Derives the trace-level attribute set.
    pub fn new(
        run_id: Option<UuidValue>,
        trace_uuid_override: Option<UuidValue>,
        stream_count: u64,
        t: &TraceProperties,
    ) -> (r: CtfTraceProperties)
        ensures
            trace_entry_ok(run_id, trace_uuid_override, stream_count, *t, r),
    {
        let rid: UuidValue = match run_id {
            Some(u) => u,
            None => uuid_new_v4(),
        };
        let mut attrs: Vec<(TimelineAttrKey, AttrVal)> = Vec::new();

        let rendered_rid = uuid_to_string(&rid);
        proof {
            lemma_timeline_entries_push(
                attrs@,
                (TimelineAttrKey::RunId, AttrVal::String(rendered_rid)),
            );
        }
        attrs.push((TimelineAttrKey::RunId, AttrVal::String(rendered_rid)));

        let effective_uuid: Option<UuidValue> = match trace_uuid_override {
            Some(u) => Some(u),
            None => t.uuid,
        };
        if let Some(u) = effective_uuid {
            let rendered = uuid_to_string(&u);
            proof {
                lemma_timeline_entries_push(
                    attrs@,
                    (TimelineAttrKey::TraceUuid, AttrVal::String(rendered)),
                );
            }
            attrs.push((TimelineAttrKey::TraceUuid, AttrVal::String(rendered)));
        }

        let count = integer_attr_val(stream_count as i128);
        proof {
            lemma_timeline_entries_push(attrs@, (TimelineAttrKey::TraceStreamCount, count));
        }
        attrs.push((TimelineAttrKey::TraceStreamCount, count));

        if let Some(name) = &t.name {
            proof {
                lemma_timeline_entries_push(
                    attrs@,
                    (TimelineAttrKey::Name, AttrVal::String(*name)),
                );
            }
            attrs.push((TimelineAttrKey::Name, AttrVal::String(name.clone())));
            proof {
                lemma_timeline_entries_push(
                    attrs@,
                    (TimelineAttrKey::TraceName, AttrVal::String(*name)),
                );
            }
            attrs.push((TimelineAttrKey::TraceName, AttrVal::String(name.clone())));
        }

        let ghost m4 = timeline_entries_map(attrs@);
        if let Some(env) = &t.env {
            let n = env.entries.entries.len();
            let mut i: usize = 0;
            while i < n
                invariant
                    0 <= i <= n,
                    n == env.entries.entries@.len(),
                    timeline_entries_map(attrs@) == m4.union_prefer_right(
                        prefixed_keys(
                            "timeline.internal.ctf.trace.env."@,
                            entries_map(env.entries.entries@.take(i as int)),
                        ),
                    ),
                decreases n - i,
            {
                let kv = &env.entries.entries[i];
                let v = match &kv.1 {
                    EnvValue::Integer(x) => AttrVal::Integer(*x),
                    EnvValue::String(x) => AttrVal::String(x.clone()),
                };
                let entry = (TimelineAttrKey::TraceEnv(kv.0.clone()), v);
                proof {
                    lemma_timeline_entries_push(attrs@, entry);
                    lemma_group_step(
                        m4,
                        "timeline.internal.ctf.trace.env."@,
                        env.entries.entries@,
                        i as int,
                    );
                }
                attrs.push(entry);
                i += 1;
            }
            proof {
                assert(env.entries.entries@.take(n as int) =~= env.entries.entries@);
            }
        } else {
            proof {
                lemma_union_empty(m4, "timeline.internal.ctf.trace.env."@);
            }
        }

        let r = CtfTraceProperties { attrs };
        proof {
            assert(timeline_entries_map(r.attrs@) == trace_attrs_spec(
                rid.bits,
                trace_uuid_override,
                stream_count,
                *t,
            ));
        }
        r
    }

    /// The trace-level attribute entries, in emission order.
    pub fn attr_kvs(&self) -> (r: Vec<(TimelineAttrKey, AttrVal)>)
        ensures
            timeline_entries_map(r@) == timeline_entries_map(self.attrs@),
    {
        let mut out: Vec<(TimelineAttrKey, AttrVal)> = Vec::new();
        push_dup_attrs(&mut out, &self.attrs);
        proof {
            assert(timeline_entries_map(out@) =~= timeline_entries_map(self.attrs@));
        }
        out
    }
}

/// Every derived stream entry carries the timeline identifier derived from
/// one common trace UUID and the entry's own stream identifier.
pub open spec fn streams_derived_from(
    streams: Seq<(u64, CtfStreamProperties)>,
    tu: u128,
) -> bool {
    forall|j: int|
        0 <= j < streams.len() ==> (#[trigger] streams[j]).1.timeline_id.bits
            == derived_timeline_id(tu, streams[j].0)
}

/// The position of the last descriptor reporting `id`, `-1` where none
/// does.
pub open spec fn last_index_of_id(s: Seq<StreamProperties>, id: u64) -> int
    decreases s.len(),
{
    if s.len() == 0 {
        -1
    } else if s.last().id == id {
        s.len() - 1
    } else {
        last_index_of_id(s.drop_last(), id)
    }
}

/// Some declared entry carries `id`.
pub open spec fn stream_declared(streams: Seq<(u64, CtfStreamProperties)>, id: u64) -> bool {
    exists|j: int| 0 <= j < streams.len() && (#[trigger] streams[j]).0 == id
}

/// Taking one more descriptor moves the last index of its id to it and
/// leaves every other id's last index alone.
proof fn lemma_last_index_step(s: Seq<StreamProperties>, i: int, id: u64)
    requires
        0 <= i < s.len(),
    ensures
        last_index_of_id(s.take(i + 1), id) == if s[i].id == id {
            i
        } else {
            last_index_of_id(s.take(i), id)
        },
{
    assert(s.take(i + 1).drop_last() =~= s.take(i));
    assert(s.take(i + 1).last() == s[i]);
}

/// Everything derived from one trace's descriptors: the shared trace
/// attributes and, per distinct stream identifier, the stream's derived
/// timeline identifier and timeline attributes.
pub struct CtfProperties {
    pub trace: CtfTraceProperties,
    pub streams: Vec<(u64, CtfStreamProperties)>,
}

impl CtfProperties {
    /// Derives the trace and per-stream attribute sets; descriptors sharing
    /// one stream identifier collapse to one timeline, the last descriptor
    /// winning. Timeline identifiers are a deterministic composite of the
    /// trace UUID (the override where given, else the reported UUID, else a
    /// freshly generated one, in which case identity is not idempotent
    /// across imports) and the stream identifier.
    pub fn new(
        run_id: Option<UuidValue>,
        trace_uuid_override: Option<UuidValue>,
        t: &TraceProperties,
        s: &Vec<StreamProperties>,
    ) -> (r: CtfProperties)
        ensures
            forall|p: int, q: int|
                0 <= p < q < r.streams@.len() ==> (#[trigger] r.streams@[p]).0 != (
                #[trigger] r.streams@[q]).0,
            forall|i: int| 0 <= i < s@.len() ==> stream_declared(r.streams@, (#[trigger] s@[i]).id),
            forall|j: int|
                0 <= j < r.streams@.len() ==> ({
                    let li = last_index_of_id(s@, (#[trigger] r.streams@[j]).0);
                    &&& 0 <= li < s@.len()
                    &&& s@[li].id == r.streams@[j].0
                    &&& stream_entry_ok(s@[li], r.streams@[j].1)
                }),
            exists|tu: u128|
                {
                    &&& (trace_uuid_override matches Some(u) ==> tu == u.bits)
                    &&& (trace_uuid_override is None ==> (t.uuid matches Some(u) ==> tu == u.bits))
                    &&& #[trigger] streams_derived_from(r.streams@, tu)
                },
            trace_entry_ok(run_id, trace_uuid_override, s@.len() as u64, *t, r.trace),
    {
        let trace_uuid: UuidValue = match trace_uuid_override {
            Some(u) => u,
            None => match t.uuid {
                Some(u) => u,
                None => uuid_new_v4(),
            },
        };
        let stream_count: u64 = s.len() as u64;
        let trace = CtfTraceProperties::new(run_id, trace_uuid_override, stream_count, t);
        let mut streams: Vec<(u64, CtfStreamProperties)> = Vec::new();
        let n = s.len();
        let mut i: usize = 0;
        while i < n
            invariant
                0 <= i <= n,
                n == s@.len(),
                forall|p: int, q: int|
                    0 <= p < q < streams@.len() ==> (#[trigger] streams@[p]).0 != (
                    #[trigger] streams@[q]).0,
                forall|ii: int| 0 <= ii < i ==> stream_declared(streams@, (#[trigger] s@[ii]).id),
                forall|j: int|
                    0 <= j < streams@.len() ==> ({
                        let li = last_index_of_id(s@.take(i as int), (#[trigger] streams@[j]).0);
                        &&& 0 <= li < i
                        &&& s@[li].id == streams@[j].0
                        &&& stream_entry_ok(s@[li], streams@[j].1)
                    }),
                streams_derived_from(streams@, trace_uuid.bits),
            decreases n - i,
        {
            let sp = &s[i];
            let props = CtfStreamProperties::new(&trace_uuid, sp);
            let ghost pre = streams@;
            proof {
                assert forall|id: u64| true implies last_index_of_id(s@.take(i + 1), id) == (
                if s@[i as int].id == id {
                    i as int
                } else {
                    last_index_of_id(s@.take(i as int), id)
                }) by {
                    lemma_last_index_step(s@, i as int, id);
                }
            }
            // Replace the entry of a stream identifier reported before; the
            // last descriptor for an identifier wins, as in a keyed map.
            let m = streams.len();
            let mut j: usize = 0;
            let mut found_at: usize = m;
            while j < m
                invariant
                    0 <= j <= m,
                    found_at <= m,
                    m == streams@.len(),
                    streams@ == pre,
                    found_at == m ==> forall|q: int|
                        0 <= q < j ==> (#[trigger] streams@[q]).0 != sp.id,
                    found_at < m ==> streams@[found_at as int].0 == sp.id,
                decreases m - j,
            {
                if streams[j].0 == sp.id {
                    found_at = j;
                    j = m;
                } else {
                    j += 1;
                }
            }
            proof {
                if found_at == m {
                    assert(forall|q: int| 0 <= q < pre.len() ==> (#[trigger] pre[q]).0 != sp.id);
                }
            }
            if found_at < m {
                streams[found_at] = (sp.id, props);
                proof {
                    assert(streams@ =~= pre.update(found_at as int, (sp.id, props)));
                }
            } else {
                streams.push((sp.id, props));
                proof {
                    assert(streams@.drop_last() =~= pre);
                }
            }
            proof {
                if found_at < m {
                    assert forall|p: int, q: int|
                        0 <= p < q < streams@.len() implies (#[trigger] streams@[p]).0 != (
                    #[trigger] streams@[q]).0 by {
                        assert(pre[p].0 != pre[q].0);
                        assert(streams@[p].0 == pre[p].0);
                        assert(streams@[q].0 == pre[q].0);
                    }
                } else {
                    assert forall|p: int, q: int|
                        0 <= p < q < streams@.len() implies (#[trigger] streams@[p]).0 != (
                    #[trigger] streams@[q]).0 by {
                        if q < streams@.len() - 1 {
                            assert(pre[p].0 != pre[q].0);
                        } else {
                            assert(streams@[p].0 == pre[p].0);
                            assert(pre[p].0 != sp.id);
                        }
                    }
                }
                assert forall|j: int| 0 <= j < streams@.len() implies ({
                    let li = last_index_of_id(s@.take(i + 1), (#[trigger] streams@[j]).0);
                    &&& 0 <= li < i + 1
                    &&& s@[li].id == streams@[j].0
                    &&& stream_entry_ok(s@[li], streams@[j].1)
                }) by {
                    let fresh_j: int = if found_at < m {
                        found_at as int
                    } else {
                        streams@.len() - 1
                    };
                    if j == fresh_j {
                        assert(streams@[j].0 == sp.id);
                        assert(streams@[j].1 == props);
                        assert(last_index_of_id(s@.take(i + 1), sp.id) == i);
                    } else {
                        assert(streams@[j] == pre[j]);
                        if found_at < m {
                            assert(pre[j].0 != pre[found_at as int].0);
                            assert(pre[found_at as int].0 == sp.id);
                        } else {
                            assert(pre[j].0 != sp.id);
                        }
                        assert(last_index_of_id(s@.take(i + 1), streams@[j].0)
                            == last_index_of_id(s@.take(i as int), streams@[j].0));
                    }
                }
                assert forall|ii: int| 0 <= ii < i + 1 implies stream_declared(
                    streams@,
                    (#[trigger] s@[ii]).id,
                ) by {
                    if ii == i {
                        if found_at < m {
                            assert(streams@[found_at as int].0 == s@[ii].id);
                        } else {
                            assert(streams@[streams@.len() - 1].0 == s@[ii].id);
                        }
                    } else {
                        let w = choose|w: int| 0 <= w < pre.len() && (#[trigger] pre[w]).0
                            == s@[ii].id;
                        assert(streams@[w].0 == s@[ii].id);
                    }
                }
            }
            i += 1;
        }
        proof {
            assert(s@.take(n as int) =~= s@);
        }
        let r = CtfProperties { trace, streams };
        proof {
            assert(streams_derived_from(r.streams@, trace_uuid.bits));
        }
        r
    }

    /// One (stream identifier, timeline identifier, merged attribute
    /// entries) triple per stream, the stream's attributes taking precedence
    /// over the trace's on key collision.
    pub fn timelines(&self) -> (r: Vec<(u64, TimelineId, Vec<(TimelineAttrKey, AttrVal)>)>)
        ensures
            r@.len() == self.streams@.len(),
            forall|j: int|
                0 <= j < r@.len() ==> (#[trigger] r@[j]).0 == self.streams@[j].0 && r@[j].1
                    == self.streams@[j].1.timeline_id && timeline_entries_map(r@[j].2@)
                    == timeline_entries_map(self.trace.attrs@).union_prefer_right(
                    timeline_entries_map(self.streams@[j].1.attrs@),
                ),
    {
        let mut out: Vec<(u64, TimelineId, Vec<(TimelineAttrKey, AttrVal)>)> = Vec::new();
        let n = self.streams.len();
        let mut i: usize = 0;
        while i < n
            invariant
                0 <= i <= n,
                n == self.streams@.len(),
                out@.len() == i,
                forall|j: int|
                    0 <= j < i ==> (#[trigger] out@[j]).0 == self.streams@[j].0 && out@[j].1
                        == self.streams@[j].1.timeline_id && timeline_entries_map(out@[j].2@)
                        == timeline_entries_map(self.trace.attrs@).union_prefer_right(
                        timeline_entries_map(self.streams@[j].1.attrs@),
                    ),
            decreases n - i,
        {
            let entry = &self.streams[i];
            let mut merged: Vec<(TimelineAttrKey, AttrVal)> = Vec::new();
            push_dup_attrs(&mut merged, &self.trace.attrs);
            proof {
                assert(timeline_entries_map(merged@) =~= timeline_entries_map(self.trace.attrs@));
            }
            push_dup_attrs(&mut merged, &entry.1.attrs);
            out.push((entry.0, entry.1.timeline_id, merged));
            i += 1;
        }
        out
    }
}

} // verus!
