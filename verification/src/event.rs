//! The field-flattening engine: turns one decoded event's nested field trees
//! into flat attribute key/value maps with deterministic key naming,
//! including the anonymous-field naming convention, the enumeration-label
//! convention, and the reserved-field remapping rules for cross-timeline
//! interaction metadata and mutation lifecycle events.

use crate::attrs::EventAttrKey;
use crate::error::Error;
use crate::ids::{parse_uuid, parsed_uuid, TimelineId};
use crate::text::{
    contains_seq, contains_sub, decimal_str, first_char_is, full_key, join_key, last_char_is,
    push_decimal,
};
use crate::text::str_eq;
use crate::values::{
    entries_map, int_attr, integer_attr_val, parse_logical_time, parsed_logical_time, AttrVal,
    AttrValView, FloatBits, KvMap, LogicalTimeQuad,
};
use vstd::prelude::*;

verus! {

broadcast use {vstd::std_specs::vec::axiom_vec_decreases_to_view, vstd::seq::axiom_seq_index_decreases};

/// A decoded scalar field value. Floating-point scalars carry their IEEE-754
/// bit patterns. Enumerations carry the discriminant and its label set.
#[derive(Clone, PartialEq, Eq, Debug)]
pub enum ScalarField {
    Bool(bool),
    UnsignedInteger(u64),
    SignedInteger(i64),
    SinglePrecisionReal(u32),
    DoublePrecisionReal(u64),
    String(String),
    UnsignedEnumeration(u64, Vec<String>),
    SignedEnumeration(i64, Vec<String>),
}

/// A decoded field: a possibly named scalar, or a possibly named structure
/// holding an ordered sequence of fields. Field names never contain `.`.
#[derive(PartialEq, Eq, Debug)]
pub enum OwnedField {
    Scalar(Option<String>, ScalarField),
    Structure(Option<String>, Vec<OwnedField>),
}

/// The value attribute of one scalar field, before any remapping: booleans,
/// strings and floats pass through; unsigned integers and enumeration
/// discriminants become minimal integer attributes.
pub open spec fn scalar_val(s: ScalarField) -> AttrValView {
    match s {
        ScalarField::Bool(v) => AttrValView::Bool(v),
        ScalarField::UnsignedInteger(v) => int_attr(v as i128),
        ScalarField::SignedInteger(v) => AttrValView::Integer(v),
        ScalarField::SinglePrecisionReal(b) => AttrValView::Float(FloatBits::Single(b)),
        ScalarField::DoublePrecisionReal(b) => AttrValView::Float(FloatBits::Double(b)),
        ScalarField::String(v) => AttrValView::String(v@),
        ScalarField::UnsignedEnumeration(v, _) => int_attr(v as i128),
        ScalarField::SignedEnumeration(v, _) => AttrValView::Integer(v),
    }
}

/// Converts one scalar field to its value attribute.
pub fn scalar_field_to_val(s: &ScalarField) -> (r: AttrVal)
    ensures
        r@ == scalar_val(*s),
{
    match s {
        ScalarField::Bool(v) => AttrVal::Bool(*v),
        ScalarField::UnsignedInteger(v) => integer_attr_val(*v as i128),
        ScalarField::SignedInteger(v) => AttrVal::Integer(*v),
        ScalarField::SinglePrecisionReal(b) => AttrVal::Float(FloatBits::Single(*b)),
        ScalarField::DoublePrecisionReal(b) => AttrVal::Float(FloatBits::Double(*b)),
        ScalarField::String(v) => AttrVal::String(v.clone()),
        ScalarField::UnsignedEnumeration(v, _) => integer_attr_val(*v as i128),
        ScalarField::SignedEnumeration(v, _) => AttrVal::Integer(*v),
    }
}

/// The extra `.label` attribute of an enumeration scalar: present exactly
/// when the discriminant has exactly one label; zero or several labels emit
/// no label attribute.
pub open spec fn enum_label_entry(k: Seq<char>, labels: Seq<String>) -> Option<
    (Seq<char>, AttrValView),
> {
    if labels.len() == 1 {
        Some((k + ".label"@, AttrValView::String(labels[0]@)))
    } else {
        None
    }
}

/// Builds the `.label` attribute for an enumeration scalar, if any.
pub fn enum_label_attr(key_prefix: &str, labels: &Vec<String>) -> (r: Option<(String, AttrVal)>)
    ensures
        match r {
            Some(kv) => enum_label_entry(key_prefix@, labels@) == Some((kv.0@, kv.1@)),
            None => enum_label_entry(key_prefix@, labels@) is None,
        },
{
    if labels.len() == 1 {
        let mut k = String::from_str(key_prefix);
        k.append(".label");
        Some((k, AttrVal::String(labels[0].clone())))
    } else {
        None
    }
}

/// A reserved field convention: a scalar whose computed key contains the
/// conventional token is redirected to the corresponding canonical key.
#[derive(Clone, Copy, PartialEq, Eq, Structural, Debug)]
pub enum ReservedAttrKey {
    TimelineId,
    LogicalTime,
    Timestamp,
    Nonce,
    MutatorId,
    MutationId,
    MutationSuccess,
}

impl ReservedAttrKey {
    /// The conventional token looked for inside computed keys.
    pub open spec fn ctf_key(self) -> Seq<char> {
        match self {
            ReservedAttrKey::TimelineId => "remote_timeline_id"@,
            ReservedAttrKey::LogicalTime => "remote_logical_time"@,
            ReservedAttrKey::Timestamp => "remote_timestamp"@,
            ReservedAttrKey::Nonce => "remote_nonce"@,
            ReservedAttrKey::MutatorId => "mutator_id"@,
            ReservedAttrKey::MutationId => "mutation_id"@,
            ReservedAttrKey::MutationSuccess => "mutation_success"@,
        }
    }

    /// The canonical key the field is redirected to.
    pub open spec fn modality_key(self) -> Seq<char> {
        match self {
            ReservedAttrKey::TimelineId => "interaction.remote_timeline_id"@,
            ReservedAttrKey::LogicalTime => "interaction.remote_logical_time"@,
            ReservedAttrKey::Timestamp => "interaction.remote_timestamp"@,
            ReservedAttrKey::Nonce => "interaction.remote_nonce"@,
            ReservedAttrKey::MutatorId => "mutator.id"@,
            ReservedAttrKey::MutationId => "mutation.id"@,
            ReservedAttrKey::MutationSuccess => "mutation.success"@,
        }
    }

    /// A computed key matches when it contains the conventional token but
    /// does not already contain the canonical key.
    pub open spec fn spec_matches_key(self, k: Seq<char>) -> bool {
        !contains_seq(k, self.modality_key()) && contains_seq(k, self.ctf_key())
    }

    /// Decides whether a computed key matches this reserved convention.
    pub fn matches_key(self, k: &str) -> (r: bool)
        ensures
            r == self.spec_matches_key(k@),
    {
        !contains_sub(k, self.to_modality_key()) && contains_sub(k, self.to_ctf_key())
    }

    /// The conventional token as a string slice.
    pub fn to_ctf_key(self) -> (r: &'static str)
        ensures
            r@ == self.ctf_key(),
    {
        match self {
            ReservedAttrKey::TimelineId => "remote_timeline_id",
            ReservedAttrKey::LogicalTime => "remote_logical_time",
            ReservedAttrKey::Timestamp => "remote_timestamp",
            ReservedAttrKey::Nonce => "remote_nonce",
            ReservedAttrKey::MutatorId => "mutator_id",
            ReservedAttrKey::MutationId => "mutation_id",
            ReservedAttrKey::MutationSuccess => "mutation_success",
        }
    }

    /// The canonical key as a string slice.
    pub fn to_modality_key(self) -> (r: &'static str)
        ensures
            r@ == self.modality_key(),
    {
        match self {
            ReservedAttrKey::TimelineId => "interaction.remote_timeline_id",
            ReservedAttrKey::LogicalTime => "interaction.remote_logical_time",
            ReservedAttrKey::Timestamp => "interaction.remote_timestamp",
            ReservedAttrKey::Nonce => "interaction.remote_nonce",
            ReservedAttrKey::MutatorId => "mutator.id",
            ReservedAttrKey::MutationId => "mutation.id",
            ReservedAttrKey::MutationSuccess => "mutation.success",
        }
    }
}

/// A one-entry attribute map.
pub open spec fn map1(k: Seq<char>, v: AttrValView) -> Map<Seq<char>, AttrValView> {
    Map::empty().insert(k, v)
}

/// The UUID bits re-read as a signed 128-bit integer (two's complement).
pub open spec fn uuid_bits_as_int(bits: u128) -> i128 {
    bits as i128
}

/// The reserved-event remapping of one non-enumeration scalar, tried after
/// the interaction remapping: mutator and mutation identifiers are parsed
/// from string scalars as UUIDs and re-encoded as 128-bit integers; mutation
/// success is accepted from boolean or integer scalars. A scalar that fails
/// its matched remapping, or matches none, keeps its computed key and value.
pub open spec fn reserved_event_entries(k: Seq<char>, s: ScalarField, ire: bool) -> Map<
    Seq<char>,
    AttrValView,
> {
    if ire && ReservedAttrKey::MutatorId.spec_matches_key(k) {
        match s {
            ScalarField::String(id) => match parsed_uuid(id@) {
                Some(bits) => map1(
                    ReservedAttrKey::MutatorId.modality_key(),
                    int_attr(uuid_bits_as_int(bits)),
                ),
                None => map1(k, scalar_val(s)),
            },
            _ => map1(k, scalar_val(s)),
        }
    } else if ire && ReservedAttrKey::MutationId.spec_matches_key(k) {
        match s {
            ScalarField::String(id) => match parsed_uuid(id@) {
                Some(bits) => map1(
                    ReservedAttrKey::MutationId.modality_key(),
                    int_attr(uuid_bits_as_int(bits)),
                ),
                None => map1(k, scalar_val(s)),
            },
            _ => map1(k, scalar_val(s)),
        }
    } else if ire && ReservedAttrKey::MutationSuccess.spec_matches_key(k) {
        match s {
            ScalarField::Bool(v) => map1(
                ReservedAttrKey::MutationSuccess.modality_key(),
                AttrValView::Bool(v),
            ),
            ScalarField::UnsignedInteger(v) => map1(
                ReservedAttrKey::MutationSuccess.modality_key(),
                AttrValView::Bool(v != 0),
            ),
            ScalarField::SignedInteger(v) => map1(
                ReservedAttrKey::MutationSuccess.modality_key(),
                AttrValView::Bool(v != 0),
            ),
            _ => map1(k, scalar_val(s)),
        }
    } else {
        map1(k, scalar_val(s))
    }
}

/// The interaction remapping of one non-enumeration scalar, tried first when
/// interaction auto-mapping is on; the first matching convention wins. A
/// remote-timeline-id field whose scalar is not a string, or whose string is
/// not a UUID, is silently omitted; the other conventions fall through to
/// the reserved-event remapping when their required shape is not met.
pub open spec fn plain_scalar_entries(k: Seq<char>, s: ScalarField, amif: bool, ire: bool) -> Map<
    Seq<char>,
    AttrValView,
> {
    if amif && ReservedAttrKey::TimelineId.spec_matches_key(k) {
        match s {
            ScalarField::String(tid) => match parsed_uuid(tid@) {
                Some(bits) => map1(
                    ReservedAttrKey::TimelineId.modality_key(),
                    AttrValView::TimelineId(bits),
                ),
                None => Map::empty(),
            },
            _ => Map::empty(),
        }
    } else if amif && ReservedAttrKey::LogicalTime.spec_matches_key(k) {
        match s {
            ScalarField::String(t) => match parsed_logical_time(t@) {
                Some(q) => map1(
                    ReservedAttrKey::LogicalTime.modality_key(),
                    AttrValView::LogicalTime(
                        LogicalTimeQuad { a: q.0, b: q.1, c: q.2, d: q.3 },
                    ),
                ),
                None => reserved_event_entries(k, s, ire),
            },
            _ => reserved_event_entries(k, s, ire),
        }
    } else if amif && ReservedAttrKey::Timestamp.spec_matches_key(k) {
        match s {
            ScalarField::UnsignedInteger(t) => map1(
                ReservedAttrKey::Timestamp.modality_key(),
                AttrValView::Timestamp(t),
            ),
            _ => reserved_event_entries(k, s, ire),
        }
    } else if amif && ReservedAttrKey::Nonce.spec_matches_key(k) {
        map1(ReservedAttrKey::Nonce.modality_key(), scalar_val(s))
    } else {
        reserved_event_entries(k, s, ire)
    }
}

/// The attribute entries of one scalar field at computed key `k`:
/// enumeration scalars emit their value and possibly a `.label` attribute
/// and are never remapped; all other scalars go through the interaction and
/// reserved-event remapping.
pub open spec fn scalar_entries(k: Seq<char>, s: ScalarField, amif: bool, ire: bool) -> Map<
    Seq<char>,
    AttrValView,
> {
    match s {
        ScalarField::UnsignedEnumeration(_, labels) => enum_entries(k, scalar_val(s), labels@),
        ScalarField::SignedEnumeration(_, labels) => enum_entries(k, scalar_val(s), labels@),
        _ => plain_scalar_entries(k, s, amif, ire),
    }
}

/// The one or two entries of an enumeration scalar.
pub open spec fn enum_entries(k: Seq<char>, v: AttrValView, labels: Seq<String>) -> Map<
    Seq<char>,
    AttrValView,
> {
    match enum_label_entry(k, labels) {
        Some(kv) => map1(k, v).insert(kv.0, kv.1),
        None => map1(k, v),
    }
}

/// The enumeration-label rule: an enumeration scalar with exactly one label
/// yields both the value attribute and a `.label` attribute holding that
/// label; with zero or two or more labels it yields only the value
/// attribute.
pub proof fn lemma_enum_label_rule(k: Seq<char>, v: AttrValView, labels: Seq<String>)
    ensures
        labels.len() == 1 ==> enum_entries(k, v, labels) == map1(k, v).insert(
            k + ".label"@,
            AttrValView::String(labels[0]@),
        ),
        labels.len() != 1 ==> enum_entries(k, v, labels) == map1(k, v),
{
}

/// Synthesized anonymous field names are non-empty and never contain `.`,
/// so splitting a flattened key on `.` recovers them as single path
/// components, like given field names (which never contain `.` by the
/// upstream format's guarantee).
pub proof fn lemma_anon_name_dot_free(n: nat)
    ensures
        anon_name(n).len() > 0,
        crate::text::dot_free(anon_name(n)),
{
    reveal_strlit("anonymous_");
    crate::text::lemma_decimal_str_dot_free(n);
    assert forall|i: int| 0 <= i < anon_name(n).len() implies anon_name(n)[i] != '.' by {
        if i >= "anonymous_"@.len() {
            assert(anon_name(n)[i] == decimal_str(n)[i - "anonymous_"@.len()]);
        } else {
            assert(anon_name(n)[i] == "anonymous_"@[i]);
        }
    }
}

/// An optional field name as a sequence of characters.
pub open spec fn name_view(n: Option<String>) -> Option<Seq<char>> {
    match n {
        Some(s) => Some(s@),
        None => None,
    }
}

/// The synthetic name of the `n`-th anonymous field at one nesting depth.
pub open spec fn anon_name(n: nat) -> Seq<char> {
    "anonymous_"@ + decimal_str(n)
}

/// The traversal state of the flattening engine: the attributes emitted so
/// far, one anonymous-field counter per nesting depth, the key-path
/// component stack, and whether the transparent root structure has been
/// entered.
#[verifier::ext_equal]
pub struct FlatState {
    pub attrs: Map<Seq<char>, AttrValView>,
    pub counters: Seq<nat>,
    pub stack: Seq<Seq<char>>,
    pub root_seen: bool,
}

/// The resolved name of a field: its given name, or the synthetic anonymous
/// name numbered by the current depth's counter.
pub open spec fn resolved_of(st: FlatState, name: Option<Seq<char>>) -> Seq<char> {
    match name {
        Some(n) => n,
        None => anon_name(st.counters.last()),
    }
}

/// The state after resolving a field name: resolving an anonymous name
/// post-increments the current depth's counter.
pub open spec fn bumped(st: FlatState, name: Option<Seq<char>>) -> FlatState {
    match name {
        Some(_) => st,
        None => FlatState {
            counters: st.counters.update(st.counters.len() - 1, (st.counters.last() + 1) as nat),
            ..st
        },
    }
}

/// Entering a structure: the outermost root structure is transparent (no
/// path component); any other structure pushes its resolved name and a fresh
/// anonymous counter.
pub open spec fn begin_spec(st: FlatState, name: Option<Seq<char>>) -> FlatState {
    if !st.root_seen {
        FlatState { root_seen: true, ..st }
    } else {
        let suffix = resolved_of(st, name);
        let st1 = bumped(st, name);
        FlatState { stack: st1.stack.push(suffix), counters: st1.counters.push(0), ..st1 }
    }
}

/// Leaving a structure: pops one path component and one counter.
pub open spec fn end_spec(st: FlatState) -> FlatState {
    FlatState { counters: st.counters.drop_last(), stack: st.stack.drop_last(), ..st }
}

/// Flattening one scalar field: resolve its name, join the full key, and
/// merge its entries over the attributes emitted so far.
pub open spec fn scalar_step(
    st: FlatState,
    name: Option<Seq<char>>,
    s: ScalarField,
    amif: bool,
    ire: bool,
) -> FlatState {
    let suffix = resolved_of(st, name);
    let st1 = bumped(st, name);
    let k = full_key(st1.stack, suffix);
    FlatState { attrs: st1.attrs.union_prefer_right(scalar_entries(k, s, amif, ire)), ..st1 }
}

/// Flattening one field: depth-first, pre-order, left-to-right.
pub open spec fn flatten_field(st: FlatState, f: OwnedField, amif: bool, ire: bool) -> FlatState
    decreases f,
{
    match f {
        OwnedField::Scalar(name, s) => scalar_step(st, name_view(name), s, amif, ire),
        OwnedField::Structure(name, fields) => end_spec(
            flatten_fields(begin_spec(st, name_view(name)), fields@, amif, ire),
        ),
    }
}

/// Flattening a run of sibling fields in order.
pub open spec fn flatten_fields(
    st: FlatState,
    fs: Seq<OwnedField>,
    amif: bool,
    ire: bool,
) -> FlatState
    decreases fs,
{
    if fs.len() == 0 {
        st
    } else {
        flatten_fields(
            flatten_field(st, fs[0], amif, ire),
            fs.subrange(1, fs.len() as int),
            amif,
            ire,
        )
    }
}

/// Flattening a field in an already-entered tree leaves the stack alone,
/// preserves all outer anonymous counters, and bumps the current depth's
/// counter at most once.
proof fn lemma_flatten_field_frame(st: FlatState, f: OwnedField, amif: bool, ire: bool)
    requires
        st.root_seen,
        st.counters.len() >= 1,
    ensures
        ({
            let r = flatten_field(st, f, amif, ire);
            &&& r.root_seen
            &&& r.stack == st.stack
            &&& r.counters.len() == st.counters.len()
            &&& r.counters.drop_last() == st.counters.drop_last()
            &&& st.counters.last() <= r.counters.last() <= st.counters.last() + 1
        }),
    decreases f,
{
    match f {
        OwnedField::Scalar(name, s) => {
            let st1 = bumped(st, name_view(name));
            assert(st1.counters.drop_last() =~= st.counters.drop_last());
        },
        OwnedField::Structure(name, fields) => {
            let stb = begin_spec(st, name_view(name));
            let st1 = bumped(st, name_view(name));
            assert(st1.counters.drop_last() =~= st.counters.drop_last());
            lemma_flatten_fields_frame(stb, fields@, amif, ire);
            let st2 = flatten_fields(stb, fields@, amif, ire);
            let r = end_spec(st2);
            assert(st2.counters.drop_last() == stb.counters.drop_last());
            assert(stb.counters.drop_last() =~= st1.counters);
            assert(stb.stack.drop_last() =~= st1.stack);
            assert(r.counters =~= st1.counters);
            assert(r.stack == st.stack);
        },
    }
}

/// Flattening sibling fields leaves the stack alone, preserves outer
/// counters, and bumps the current depth's counter at most once per field.
proof fn lemma_flatten_fields_frame(st: FlatState, fs: Seq<OwnedField>, amif: bool, ire: bool)
    requires
        st.root_seen,
        st.counters.len() >= 1,
    ensures
        ({
            let r = flatten_fields(st, fs, amif, ire);
            &&& r.root_seen
            &&& r.stack == st.stack
            &&& r.counters.len() == st.counters.len()
            &&& r.counters.drop_last() == st.counters.drop_last()
            &&& st.counters.last() <= r.counters.last() <= st.counters.last() + fs.len()
        }),
    decreases fs,
{
    if fs.len() > 0 {
        lemma_flatten_field_frame(st, fs[0], amif, ire);
        lemma_flatten_fields_frame(
            flatten_field(st, fs[0], amif, ire),
            fs.subrange(1, fs.len() as int),
            amif,
            ire,
        );
    }
}

/// Sibling flattening steps one field at a time from the right.
proof fn lemma_flatten_fields_snoc(st: FlatState, fs: Seq<OwnedField>, amif: bool, ire: bool)
    requires
        fs.len() > 0,
    ensures
        flatten_fields(st, fs, amif, ire) == flatten_field(
            flatten_fields(st, fs.drop_last(), amif, ire),
            fs.last(),
            amif,
            ire,
        ),
    decreases fs,
{
    if fs.len() == 1 {
        assert(fs.drop_last() =~= Seq::<OwnedField>::empty());
        assert(fs.subrange(1, fs.len() as int) =~= Seq::<OwnedField>::empty());
        assert(fs.last() == fs[0]);
        assert(flatten_fields(st, fs, amif, ire) == flatten_fields(
            flatten_field(st, fs[0], amif, ire),
            fs.subrange(1, fs.len() as int),
            amif,
            ire,
        ));
        assert(flatten_fields(flatten_field(st, fs[0], amif, ire), Seq::<OwnedField>::empty(), amif, ire)
            == flatten_field(st, fs[0], amif, ire));
        assert(flatten_fields(st, Seq::<OwnedField>::empty(), amif, ire) == st);
    } else {
        let st1 = flatten_field(st, fs[0], amif, ire);
        let tail = fs.subrange(1, fs.len() as int);
        lemma_flatten_fields_snoc(st1, tail, amif, ire);
        let dl = fs.drop_last();
        assert(tail.last() == fs.last());
        assert(tail.drop_last() =~= dl.subrange(1, dl.len() as int));
        assert(dl[0] == fs[0]);
        assert(flatten_fields(st, fs, amif, ire) == flatten_fields(st1, tail, amif, ire));
        assert(flatten_fields(st, dl, amif, ire) == flatten_fields(
            flatten_field(st, dl[0], amif, ire),
            dl.subrange(1, dl.len() as int),
            amif,
            ire,
        ));
        assert(flatten_fields(st, dl, amif, ire) == flatten_fields(
            st1,
            tail.drop_last(),
            amif,
            ire,
        ));
    }
}

/// A field tree in which every field carries a given name and no scalar is
/// an enumeration: the shape over which flattened keys are exactly the
/// leaf-path joins.
pub open spec fn all_named_plain(f: OwnedField) -> bool
    decreases f,
{
    match f {
        OwnedField::Scalar(name, s) => name is Some && !(s is UnsignedEnumeration) && !(
        s is SignedEnumeration),
        OwnedField::Structure(name, fields) => name is Some && (forall|i: int|
            0 <= i < fields@.len() ==> all_named_plain(#[trigger] fields@[i])),
    }
}

/// The keys of every scalar leaf of a named field: the dot-join of the
/// surrounding key-path components, then the names of the structures on the
/// leaf's path (outermost first), then the leaf's own name.
pub open spec fn named_leaf_keys(stack: Seq<Seq<char>>, f: OwnedField) -> Set<Seq<char>>
    decreases f,
{
    match f {
        OwnedField::Scalar(name, _) => match name {
            Some(n) => set![full_key(stack, n@)],
            None => Set::empty(),
        },
        OwnedField::Structure(name, fields) => match name {
            Some(n) => named_leaf_keys_fields(stack.push(n@), fields@),
            None => Set::empty(),
        },
    }
}

/// The leaf keys of a run of sibling fields.
pub open spec fn named_leaf_keys_fields(stack: Seq<Seq<char>>, fs: Seq<OwnedField>) -> Set<
    Seq<char>,
>
    decreases fs,
{
    if fs.len() == 0 {
        Set::empty()
    } else {
        named_leaf_keys(stack, fs[0]).union(
            named_leaf_keys_fields(stack, fs.subrange(1, fs.len() as int)),
        )
    }
}

/// Flattening one all-named, enumeration-free field without remapping emits
/// exactly its leaf-path keys over what was there before.
proof fn lemma_flatten_field_keys(st: FlatState, f: OwnedField)
    requires
        st.root_seen,
        st.counters.len() >= 1,
        all_named_plain(f),
    ensures
        flatten_field(st, f, false, false).attrs.dom() =~= st.attrs.dom().union(
            named_leaf_keys(st.stack, f),
        ),
    decreases f,
{
    match f {
        OwnedField::Scalar(name, s) => {
            let suffix = resolved_of(st, name_view(name));
            let st1 = bumped(st, name_view(name));
            let k = full_key(st1.stack, suffix);
            assert(scalar_entries(k, s, false, false) == map1(k, scalar_val(s)));
            assert(flatten_field(st, f, false, false).attrs.dom() =~= st.attrs.dom().insert(k));
        },
        OwnedField::Structure(name, fields) => {
            let stb = begin_spec(st, name_view(name));
            lemma_flatten_fields_keys(stb, fields@);
            assert(stb.stack == st.stack.push(name->0@));
        },
    }
}

/// Flattening a run of all-named, enumeration-free siblings without
/// remapping emits exactly their leaf-path keys over what was there before.
proof fn lemma_flatten_fields_keys(st: FlatState, fs: Seq<OwnedField>)
    requires
        st.root_seen,
        st.counters.len() >= 1,
        forall|i: int| 0 <= i < fs.len() ==> all_named_plain(#[trigger] fs[i]),
    ensures
        flatten_fields(st, fs, false, false).attrs.dom() =~= st.attrs.dom().union(
            named_leaf_keys_fields(st.stack, fs),
        ),
    decreases fs,
{
    if fs.len() > 0 {
        lemma_flatten_field_keys(st, fs[0]);
        lemma_flatten_field_frame(st, fs[0], false, false);
        let st1 = flatten_field(st, fs[0], false, false);
        lemma_flatten_fields_keys(st1, fs.subrange(1, fs.len() as int));
    }
}

/// The per-leaf half of the key-path round trip: flattening a tree whose
/// fields are all named (names never contain `.`) and hold no enumerations,
/// with both remapping switches off, yields exactly one key per scalar
/// leaf — the dot-join of the prefix and the names on the leaf's path,
/// outermost first. By `lemma_flattened_key_recovers_path`, splitting any
/// such key on `.` recovers the prefix components, one component per
/// nesting level in order, and the leaf's name — the leaf's nesting depth
/// and the names of its ancestors.
pub proof fn lemma_flatten_recovers_named_leaf_paths(
    prefix: Seq<char>,
    root_name: Option<String>,
    fields: Vec<OwnedField>,
)
    requires
        forall|i: int| 0 <= i < fields@.len() ==> all_named_plain(#[trigger] fields@[i]),
    ensures
        flatten_field(
            init_state(prefix),
            OwnedField::Structure(root_name, fields),
            false,
            false,
        ).attrs.dom() =~= named_leaf_keys_fields(seq![prefix], fields@),
{
    let st0 = begin_spec(init_state(prefix), name_view(root_name));
    assert(st0 == FlatState { root_seen: true, ..init_state(prefix) });
    lemma_flatten_fields_keys(st0, fields@);
    assert(st0.attrs.dom() =~= Set::<Seq<char>>::empty());
}

/// A prefix that begins or ends with the reserved `.` delimiter.
pub open spec fn bad_prefix(p: Seq<char>) -> bool {
    p.len() > 0 && (p[0] == '.' || p[p.len() - 1] == '.')
}

/// The starting traversal state for a given key prefix.
pub open spec fn init_state(prefix: Seq<char>) -> FlatState {
    FlatState {
        attrs: Map::empty(),
        counters: seq![0 as nat],
        stack: seq![prefix],
        root_seen: false,
    }
}

/// The flattening engine: a key-path stack, a stack of per-depth
/// anonymous-field counters, and the attributes emitted so far, scoped to
/// one top-level flattening call.
pub struct FieldToAttrKeysGen {
    /// One counter per nesting depth, naming anonymous fields; never empty
    /// while a traversal is in progress.
    pub anonymous_field_idices_per_nesting_depth: Vec<usize>,
    /// The key components of the structures entered so far, seeded with the
    /// caller's prefix; entries never contain `.`.
    pub attr_key_stack: Vec<String>,
    /// Whether the transparent root structure has been entered.
    pub root_struct_observed: bool,
    /// Whether interaction fields are auto-mapped to the canonical
    /// `interaction.` keys.
    pub auto_map_interaction_fields: bool,
    /// Whether mutation lifecycle remappings are considered.
    pub is_reserved_event: bool,
    /// The attributes emitted so far.
    pub attrs: KvMap<AttrVal>,
}

impl FieldToAttrKeysGen {
    /// The traversal state this engine is in.
    pub open spec fn st(&self) -> FlatState {
        FlatState {
            attrs: self.attrs@,
            counters: self.anonymous_field_idices_per_nesting_depth@.map_values(
                |c: usize| c as nat,
            ),
            stack: self.attr_key_stack.deep_view(),
            root_seen: self.root_struct_observed,
        }
    }

    /// The emitted-attribute store is well formed.
    pub open spec fn wf(&self) -> bool {
        self.attrs.wf()
    }

    /// The two remapping switches, unchanged across a traversal.
    pub open spec fn cfg(&self) -> (bool, bool) {
        (self.auto_map_interaction_fields, self.is_reserved_event)
    }

    /// Builds an engine for one flattening call. Fails with
    /// `InvalidAttrKeyPrefix`, before any traversal, exactly when the prefix
    /// begins or ends with `.`.
    pub fn new(key_prefix: &str, auto_map_interaction_fields: bool, is_reserved_event: bool) -> (r:
        Result<Self, Error>)
        ensures
            match r {
                Ok(g) => !bad_prefix(key_prefix@) && g.wf() && g.st() == init_state(key_prefix@)
                    && g.cfg() == (auto_map_interaction_fields, is_reserved_event),
                Err(e) => bad_prefix(key_prefix@) && e == Error::InvalidAttrKeyPrefix,
            },
    {
        if first_char_is(key_prefix, '.') || last_char_is(key_prefix, '.') {
            Err(Error::InvalidAttrKeyPrefix)
        } else {
            let mut counters: Vec<usize> = Vec::new();
            counters.push(0);
            let mut stack: Vec<String> = Vec::new();
            stack.push(String::from_str(key_prefix));
            let g = FieldToAttrKeysGen {
                anonymous_field_idices_per_nesting_depth: counters,
                attr_key_stack: stack,
                root_struct_observed: false,
                auto_map_interaction_fields,
                is_reserved_event,
                attrs: KvMap::new(),
            };
            proof {
                assert(g.st().counters =~= init_state(key_prefix@).counters);
                assert(g.st().stack =~= init_state(key_prefix@).stack);
                assert(g.st() =~= init_state(key_prefix@));
            }
            Ok(g)
        }
    }

    /// Destructures `root_field` into its representative attribute map.
    pub fn generate(self, root_field: &OwnedField) -> (r: KvMap<AttrVal>)
        requires
            self.wf(),
            !self.st().root_seen,
            self.st().counters == seq![0 as nat],
            self.st().stack.len() == 1,
        ensures
            r.wf(),
            r@ == flatten_field(
                self.st(),
                *root_field,
                self.auto_map_interaction_fields,
                self.is_reserved_event,
            ).attrs,
    {
        let mut g = self;
        g.generate_inner(root_field);
        g.attrs
    }

    /// Flattens one field into the emitted attributes.
    #[verifier::loop_isolation(false)]
    fn generate_inner(&mut self, root_field: &OwnedField)
        requires
            old(self).wf(),
            old(self).st().counters.len() >= 1,
            old(self).st().stack.len() >= 1,
            old(self).st().root_seen ==> old(self).st().counters.last() < usize::MAX,
            !old(self).st().root_seen ==> old(self).st().counters == seq![0 as nat],
        ensures
            final(self).wf(),
            final(self).cfg() == old(self).cfg(),
            final(self).st() == flatten_field(
                old(self).st(),
                *root_field,
                old(self).auto_map_interaction_fields,
                old(self).is_reserved_event,
            ),
        decreases *root_field,
    {
        let ghost amif = self.auto_map_interaction_fields;
        let ghost ire = self.is_reserved_event;
        match root_field {
            OwnedField::Scalar(name, scalar) => {
                self.handle_scalar_field(name, scalar);
            },
            OwnedField::Structure(name, fields) => {
                self.begin_nested_struture(name);
                let ghost st0 = self.st();
                proof {
                    assert(st0.counters.last() == 0);
                }
                let n = fields.len();
                let mut idx: usize = 0;
                while idx < n
                    invariant
                        0 <= idx <= n,
                        n == fields@.len(),
                        self.wf(),
                        self.cfg() == (amif, ire),
                        st0.root_seen,
                        st0.counters.len() >= 1,
                        st0.stack.len() >= 1,
                        st0.counters.last() == 0,
                        self.st() == flatten_fields(st0, fields@.take(idx as int), amif, ire),
                    decreases n - idx,
                {
                    proof {
                        lemma_flatten_fields_frame(st0, fields@.take(idx as int), amif, ire);
                        assert(fields@.take(idx as int).len() == idx);
                        assert(self.st().counters.last() <= idx);
                        assert(decreases_to!(*fields => fields@));
                        assert(decreases_to!(fields@ => fields@[idx as int]));
                    }
                    self.generate_inner(&fields[idx]);
                    proof {
                        assert(fields@.take(idx + 1).drop_last() =~= fields@.take(idx as int));
                        assert(fields@.take(idx + 1).last() == fields@[idx as int]);
                        lemma_flatten_fields_snoc(st0, fields@.take(idx + 1), amif, ire);
                    }
                    idx += 1;
                }
                proof {
                    assert(fields@.take(n as int) =~= fields@);
                    lemma_flatten_fields_frame(st0, fields@, amif, ire);
                }
                self.end_nested_structure();
            },
        }
    }

    /// Emits the entries of one scalar field at its computed key.
    fn handle_scalar_field(&mut self, field_name: &Option<String>, s: &ScalarField)
        requires
            old(self).wf(),
            old(self).st().counters.len() >= 1,
            old(self).st().counters.last() < usize::MAX,
        ensures
            final(self).wf(),
            final(self).cfg() == old(self).cfg(),
            final(self).st() == scalar_step(
                old(self).st(),
                name_view(*field_name),
                *s,
                old(self).auto_map_interaction_fields,
                old(self).is_reserved_event,
            ),
    {
        let k = self.attr_key_for_field_name(field_name);
        let ghost st1 = self.st();
        match s {
            ScalarField::UnsignedEnumeration(_, labels) => {
                self.insert_enum_entries(k, s, labels);
            },
            ScalarField::SignedEnumeration(_, labels) => {
                self.insert_enum_entries(k, s, labels);
            },
            _ => {
                if self.auto_map_interaction_fields {
                    if ReservedAttrKey::TimelineId.matches_key(k.as_str()) {
                        if let ScalarField::String(tid) = s {
                            match parse_uuid(tid.as_str()) {
                                Some(u) => {
                                    self.attrs.insert(
                                        String::from_str(
                                            ReservedAttrKey::TimelineId.to_modality_key(),
                                        ),
                                        AttrVal::TimelineId(TimelineId { bits: u.bits }),
                                    );
                                    proof {
                                        lemma_union_map1(
                                            st1.attrs,
                                            ReservedAttrKey::TimelineId.modality_key(),
                                            AttrValView::TimelineId(u.bits),
                                        );
                                    }
                                    return ;
                                },
                                None => {},
                            }
                        }
                        // A remote timeline id of the wrong shape, or with an
                        // unparsable UUID, is silently omitted.
                        proof {
                            assert(st1.attrs.union_prefer_right(
                                Map::<Seq<char>, AttrValView>::empty(),
                            ) =~= st1.attrs);
                        }
                        return ;
                    } else if ReservedAttrKey::LogicalTime.matches_key(k.as_str()) {
                        if let ScalarField::String(t) = s {
                            match parse_logical_time(t.as_str()) {
                                Some(q) => {
                                    self.attrs.insert(
                                        String::from_str(
                                            ReservedAttrKey::LogicalTime.to_modality_key(),
                                        ),
                                        AttrVal::LogicalTime(q),
                                    );
                                    proof {
                                        lemma_union_map1(
                                            st1.attrs,
                                            ReservedAttrKey::LogicalTime.modality_key(),
                                            AttrValView::LogicalTime(q),
                                        );
                                    }
                                    return ;
                                },
                                None => {},
                            }
                        }
                        self.insert_reserved_or_default(k, s);
                        return ;
                    } else if ReservedAttrKey::Timestamp.matches_key(k.as_str()) {
                        if let ScalarField::UnsignedInteger(t) = s {
                            self.attrs.insert(
                                String::from_str(ReservedAttrKey::Timestamp.to_modality_key()),
                                AttrVal::Timestamp(*t),
                            );
                            proof {
                                lemma_union_map1(
                                    st1.attrs,
                                    ReservedAttrKey::Timestamp.modality_key(),
                                    AttrValView::Timestamp(*t),
                                );
                            }
                            return ;
                        }
                        self.insert_reserved_or_default(k, s);
                        return ;
                    } else if ReservedAttrKey::Nonce.matches_key(k.as_str()) {
                        let v = scalar_field_to_val(s);
                        self.attrs.insert(
                            String::from_str(ReservedAttrKey::Nonce.to_modality_key()),
                            v,
                        );
                        proof {
                            lemma_union_map1(
                                st1.attrs,
                                ReservedAttrKey::Nonce.modality_key(),
                                scalar_val(*s),
                            );
                        }
                        return ;
                    }
                }
                self.insert_reserved_or_default(k, s);
            },
        }
    }

    /// Emits the value attribute of an enumeration scalar and, when the
    /// discriminant has exactly one label, the extra `.label` attribute.
    fn insert_enum_entries(&mut self, k: String, s: &ScalarField, labels: &Vec<String>)
        requires
            old(self).wf(),
            match *s {
                ScalarField::UnsignedEnumeration(_, _) => true,
                ScalarField::SignedEnumeration(_, _) => true,
                _ => false,
            },
            match *s {
                ScalarField::UnsignedEnumeration(_, l) => l@ == labels@,
                ScalarField::SignedEnumeration(_, l) => l@ == labels@,
                _ => true,
            },
        ensures
            final(self).wf(),
            final(self).cfg() == old(self).cfg(),
            final(self).attrs@ == old(self).attrs@.union_prefer_right(
                enum_entries(k@, scalar_val(*s), labels@),
            ),
            final(self).anonymous_field_idices_per_nesting_depth == old(
                self,
            ).anonymous_field_idices_per_nesting_depth,
            final(self).attr_key_stack == old(self).attr_key_stack,
            final(self).root_struct_observed == old(self).root_struct_observed,
    {
        let ghost m0 = self.attrs@;
        match enum_label_attr(k.as_str(), labels) {
            Some(extra) => {
                let v = scalar_field_to_val(s);
                proof {
                    lemma_union_map2(m0, k@, scalar_val(*s), extra.0@, extra.1@);
                }
                self.attrs.insert(k, v);
                self.attrs.insert(extra.0, extra.1);
            },
            None => {
                let v = scalar_field_to_val(s);
                proof {
                    lemma_union_map1(m0, k@, scalar_val(*s));
                }
                self.attrs.insert(k, v);
            },
        }
    }

    /// Emits one non-enumeration scalar after the interaction remapping has
    /// passed: tries the mutation lifecycle remappings, else the computed
    /// key and default value.
    fn insert_reserved_or_default(&mut self, k: String, s: &ScalarField)
        requires
            old(self).wf(),
        ensures
            final(self).wf(),
            final(self).cfg() == old(self).cfg(),
            final(self).attrs@ == old(self).attrs@.union_prefer_right(
                reserved_event_entries(k@, *s, old(self).is_reserved_event),
            ),
            final(self).anonymous_field_idices_per_nesting_depth == old(
                self,
            ).anonymous_field_idices_per_nesting_depth,
            final(self).attr_key_stack == old(self).attr_key_stack,
            final(self).root_struct_observed == old(self).root_struct_observed,
    {
        let ghost m0 = self.attrs@;
        if self.is_reserved_event {
            if ReservedAttrKey::MutatorId.matches_key(k.as_str()) {
                if let ScalarField::String(id) = s {
                    match parse_uuid(id.as_str()) {
                        Some(u) => {
                            let v = integer_attr_val(uuid_bits_to_i128(u.bits));
                            proof {
                                lemma_union_map1(
                                    m0,
                                    ReservedAttrKey::MutatorId.modality_key(),
                                    int_attr(uuid_bits_as_int(u.bits)),
                                );
                            }
                            self.attrs.insert(
                                String::from_str(ReservedAttrKey::MutatorId.to_modality_key()),
                                v,
                            );
                            return ;
                        },
                        None => {},
                    }
                }
                let v = scalar_field_to_val(s);
                proof {
                    lemma_union_map1(m0, k@, scalar_val(*s));
                }
                self.attrs.insert(k, v);
                return ;
            } else if ReservedAttrKey::MutationId.matches_key(k.as_str()) {
                if let ScalarField::String(id) = s {
                    match parse_uuid(id.as_str()) {
                        Some(u) => {
                            let v = integer_attr_val(uuid_bits_to_i128(u.bits));
                            proof {
                                lemma_union_map1(
                                    m0,
                                    ReservedAttrKey::MutationId.modality_key(),
                                    int_attr(uuid_bits_as_int(u.bits)),
                                );
                            }
                            self.attrs.insert(
                                String::from_str(ReservedAttrKey::MutationId.to_modality_key()),
                                v,
                            );
                            return ;
                        },
                        None => {},
                    }
                }
                let v = scalar_field_to_val(s);
                proof {
                    lemma_union_map1(m0, k@, scalar_val(*s));
                }
                self.attrs.insert(k, v);
                return ;
            } else if ReservedAttrKey::MutationSuccess.matches_key(k.as_str()) {
                let maybe_success: Option<bool> = match s {
                    ScalarField::Bool(val) => Some(*val),
                    ScalarField::UnsignedInteger(val) => Some(*val != 0),
                    ScalarField::SignedInteger(val) => Some(*val != 0),
                    _ => None,
                };
                match maybe_success {
                    Some(success) => {
                        proof {
                            lemma_union_map1(
                                m0,
                                ReservedAttrKey::MutationSuccess.modality_key(),
                                AttrValView::Bool(success),
                            );
                        }
                        self.attrs.insert(
                            String::from_str(ReservedAttrKey::MutationSuccess.to_modality_key()),
                            AttrVal::Bool(success),
                        );
                    },
                    None => {
                        let v = scalar_field_to_val(s);
                        proof {
                            lemma_union_map1(m0, k@, scalar_val(*s));
                        }
                        self.attrs.insert(k, v);
                    },
                }
                return ;
            }
        }
        let v = scalar_field_to_val(s);
        proof {
            lemma_union_map1(m0, k@, scalar_val(*s));
        }
        self.attrs.insert(k, v);
    }

    /// The fully qualified attribute key for the given field name: resolve
    /// the name (bumping the anonymous counter if needed), then join the
    /// stack and the resolved name with `.`.
    fn attr_key_for_field_name(&mut self, field_name: &Option<String>) -> (k: String)
        requires
            old(self).wf(),
            old(self).st().counters.len() >= 1,
            old(self).st().counters.last() < usize::MAX,
        ensures
            final(self).wf(),
            final(self).cfg() == old(self).cfg(),
            final(self).st() == bumped(old(self).st(), name_view(*field_name)),
            k@ == full_key(old(self).st().stack, resolved_of(old(self).st(), name_view(*field_name))),
    {
        let key_suffix = self.resolve_field_name(field_name);
        join_key(&self.attr_key_stack, key_suffix.as_str())
    }

    /// The field's given name, or the next anonymous name at the current
    /// nesting depth (post-incrementing that depth's counter).
    fn resolve_field_name(&mut self, field_name: &Option<String>) -> (n: String)
        requires
            old(self).wf(),
            old(self).st().counters.len() >= 1,
            old(self).st().counters.last() < usize::MAX,
        ensures
            final(self).wf(),
            final(self).cfg() == old(self).cfg(),
            final(self).st() == bumped(old(self).st(), name_view(*field_name)),
            n@ == resolved_of(old(self).st(), name_view(*field_name)),
            final(self).attr_key_stack == old(self).attr_key_stack,
            final(self).attrs == old(self).attrs,
    {
        match field_name {
            Some(given) => given.clone(),
            None => {
                let depth = self.anonymous_field_idices_per_nesting_depth.len() - 1;
                let c = self.anonymous_field_idices_per_nesting_depth[depth];
                let mut n = String::from_str("anonymous_");
                push_decimal(c as u64, &mut n);
                self.anonymous_field_idices_per_nesting_depth[depth] = c + 1;
                proof {
                    assert(self.st().counters =~= bumped(
                        old(self).st(),
                        name_view(*field_name),
                    ).counters);
                }
                n
            },
        }
    }

    /// Pushes one level of structure nesting; the transparent root structure
    /// only marks itself as entered.
    fn begin_nested_struture(&mut self, field_name: &Option<String>)
        requires
            old(self).wf(),
            old(self).st().counters.len() >= 1,
            old(self).st().root_seen ==> old(self).st().counters.last() < usize::MAX,
        ensures
            final(self).wf(),
            final(self).cfg() == old(self).cfg(),
            final(self).st() == begin_spec(old(self).st(), name_view(*field_name)),
            final(self).st().counters.last() == 0 || !old(self).st().root_seen,
    {
        if !self.root_struct_observed {
            self.root_struct_observed = true;
            return ;
        }
        let name = self.resolve_field_name(field_name);
        self.attr_key_stack.push(name);
        self.anonymous_field_idices_per_nesting_depth.push(0);
        proof {
            assert(self.st().counters =~= begin_spec(
                old(self).st(),
                name_view(*field_name),
            ).counters);
            assert(self.st().stack =~= begin_spec(old(self).st(), name_view(*field_name)).stack);
        }
    }

    /// Pops one level of structure nesting.
    fn end_nested_structure(&mut self)
        requires
            old(self).wf(),
            old(self).st().counters.len() >= 1,
            old(self).st().stack.len() >= 1,
        ensures
            final(self).wf(),
            final(self).cfg() == old(self).cfg(),
            final(self).st() == end_spec(old(self).st()),
    {
        let _ = self.anonymous_field_idices_per_nesting_depth.pop();
        let _ = self.attr_key_stack.pop();
        proof {
            assert(self.st().counters =~= end_spec(old(self).st()).counters);
            assert(self.st().stack =~= end_spec(old(self).st()).stack);
        }
    }
}

/// Re-reads the UUID bits as a signed 128-bit integer.
fn uuid_bits_to_i128(bits: u128) -> (r: i128)
    ensures
        r == uuid_bits_as_int(bits),
{
    #[verifier::truncate] (bits as i128)
}

/// Merging a one-entry map on the right is inserting that entry.
proof fn lemma_union_map1(m: Map<Seq<char>, AttrValView>, k: Seq<char>, v: AttrValView)
    ensures
        m.union_prefer_right(map1(k, v)) == m.insert(k, v),
{
    assert(m.union_prefer_right(map1(k, v)) =~= m.insert(k, v));
}

/// Merging a two-entry map on the right is inserting its entries in order.
proof fn lemma_union_map2(
    m: Map<Seq<char>, AttrValView>,
    k1: Seq<char>,
    v1: AttrValView,
    k2: Seq<char>,
    v2: AttrValView,
)
    ensures
        m.union_prefer_right(map1(k1, v1).insert(k2, v2)) == m.insert(k1, v1).insert(k2, v2),
{
    assert(m.union_prefer_right(map1(k1, v1).insert(k2, v2)) =~= m.insert(k1, v1).insert(k2, v2));
}

/// The severity reported for an event class by the decoder.
#[derive(Clone, Copy, PartialEq, Eq, Structural, Debug)]
pub enum EventLogLevel {
    Emergency,
    Alert,
    Critical,
    Error,
    Warning,
    Notice,
    Info,
    DebugSystem,
    DebugProgram,
    DebugProcess,
    DebugModule,
    DebugUnit,
    DebugFunction,
    DebugLine,
    Debug,
}

impl EventLogLevel {
    /// The lower-case name of this severity.
    pub open spec fn lowercase_name(self) -> Seq<char> {
        match self {
            EventLogLevel::Emergency => "emergency"@,
            EventLogLevel::Alert => "alert"@,
            EventLogLevel::Critical => "critical"@,
            EventLogLevel::Error => "error"@,
            EventLogLevel::Warning => "warning"@,
            EventLogLevel::Notice => "notice"@,
            EventLogLevel::Info => "info"@,
            EventLogLevel::DebugSystem => "debugsystem"@,
            EventLogLevel::DebugProgram => "debugprogram"@,
            EventLogLevel::DebugProcess => "debugprocess"@,
            EventLogLevel::DebugModule => "debugmodule"@,
            EventLogLevel::DebugUnit => "debugunit"@,
            EventLogLevel::DebugFunction => "debugfunction"@,
            EventLogLevel::DebugLine => "debugline"@,
            EventLogLevel::Debug => "debug"@,
        }
    }

    /// Renders the lower-case name of this severity.
    pub fn to_lowercase_string(self) -> (r: String)
        ensures
            r@ == self.lowercase_name(),
    {
        match self {
            EventLogLevel::Emergency => String::from_str("emergency"),
            EventLogLevel::Alert => String::from_str("alert"),
            EventLogLevel::Critical => String::from_str("critical"),
            EventLogLevel::Error => String::from_str("error"),
            EventLogLevel::Warning => String::from_str("warning"),
            EventLogLevel::Notice => String::from_str("notice"),
            EventLogLevel::Info => String::from_str("info"),
            EventLogLevel::DebugSystem => String::from_str("debugsystem"),
            EventLogLevel::DebugProgram => String::from_str("debugprogram"),
            EventLogLevel::DebugProcess => String::from_str("debugprocess"),
            EventLogLevel::DebugModule => String::from_str("debugmodule"),
            EventLogLevel::DebugUnit => String::from_str("debugunit"),
            EventLogLevel::DebugFunction => String::from_str("debugfunction"),
            EventLogLevel::DebugLine => String::from_str("debugline"),
            EventLogLevel::Debug => String::from_str("debug"),
        }
    }
}

/// The class-level properties of one decoded event.
#[derive(PartialEq, Eq, Debug)]
pub struct EventClassProperties {
    pub id: u64,
    pub name: Option<String>,
    pub log_level: Option<EventLogLevel>,
}

/// The up-to-four field groups of one decoded event.
#[derive(PartialEq, Eq, Debug)]
pub struct EventProperties {
    pub payload: Option<OwnedField>,
    pub specific_context: Option<OwnedField>,
    pub common_context: Option<OwnedField>,
    pub packet_context: Option<OwnedField>,
}

/// One decoded event as handed over by the trace decoder: the stream it
/// belongs to, an optional clock snapshot in signed nanoseconds, its class
/// properties, and its field groups.
#[derive(PartialEq, Eq, Debug)]
pub struct OwnedEvent {
    pub stream_id: u64,
    pub clock_snapshot: Option<i64>,
    pub class_properties: EventClassProperties,
    pub properties: EventProperties,
}

/// The well-known reserved event names and their canonical spellings, with
/// whether the name marks a reserved (mutation lifecycle) event.
pub open spec fn mapped_event_name(n: Seq<char>) -> (Seq<char>, bool) {
    if n == "modality_mutator_announced"@ {
        ("modality.mutator.announced"@, true)
    } else if n == "modality_mutator_retired"@ {
        ("modality.mutator.retired"@, true)
    } else if n == "modality_mutation_command_communicated"@ {
        ("modality.mutation.command_communicated"@, true)
    } else if n == "modality_mutation_clear_communicated"@ {
        ("modality.mutation.clear_communicated"@, true)
    } else if n == "modality_mutation_triggered"@ {
        ("modality.mutation.triggered"@, true)
    } else if n == "modality_mutation_injected"@ {
        ("modality.mutation.injected"@, true)
    } else {
        (n, false)
    }
}

/// Maps a well-known reserved event name to its canonical spelling; any
/// other name passes through.
fn map_event_name(n: &str) -> (r: (String, bool))
    ensures
        (r.0@, r.1) == mapped_event_name(n@),
{
    if str_eq(n, "modality_mutator_announced") {
        (String::from_str("modality.mutator.announced"), true)
    } else if str_eq(n, "modality_mutator_retired") {
        (String::from_str("modality.mutator.retired"), true)
    } else if str_eq(n, "modality_mutation_command_communicated") {
        (String::from_str("modality.mutation.command_communicated"), true)
    } else if str_eq(n, "modality_mutation_clear_communicated") {
        (String::from_str("modality.mutation.clear_communicated"), true)
    } else if str_eq(n, "modality_mutation_triggered") {
        (String::from_str("modality.mutation.triggered"), true)
    } else if str_eq(n, "modality_mutation_injected") {
        (String::from_str("modality.mutation.injected"), true)
    } else {
        (String::from_str(n), false)
    }
}

/// Whether the event's reported name marks a reserved (mutation lifecycle)
/// event.
pub open spec fn is_reserved_event_name(e: OwnedEvent) -> bool {
    match e.class_properties.name {
        Some(n) => mapped_event_name(n@).1,
        None => false,
    }
}

/// The flattened attributes of one optional field group under an empty
/// prefix.
pub open spec fn group_attrs(f: Option<OwnedField>, amif: bool, ire: bool) -> Map<
    Seq<char>,
    AttrValView,
> {
    match f {
        Some(fld) => flatten_field(init_state(Seq::empty()), fld, amif, ire).attrs,
        None => Map::empty(),
    }
}

/// The map with every key of `m` prefixed by `p`.
pub open spec fn prefixed_keys(p: Seq<char>, m: Map<Seq<char>, AttrValView>) -> Map<
    Seq<char>,
    AttrValView,
> {
    Map::new(
        |k: Seq<char>| exists|k0: Seq<char>| #[trigger] m.contains_key(k0) && k == p + k0,
        |k: Seq<char>|
            m[choose|k0: Seq<char>| #[trigger] m.contains_key(k0) && k == p + k0],
    )
}

/// Appending to a common prefix is injective.
proof fn lemma_prefix_injective(p: Seq<char>, a: Seq<char>, b: Seq<char>)
    requires
        p + a == p + b,
    ensures
        a == b,
{
    assert(a =~= (p + a).subrange(p.len() as int, (p + a).len() as int));
    assert(b =~= (p + b).subrange(p.len() as int, (p + b).len() as int));
}

/// Prefixing distributes over insertion.
proof fn lemma_prefixed_insert(
    p: Seq<char>,
    m: Map<Seq<char>, AttrValView>,
    k: Seq<char>,
    v: AttrValView,
)
    ensures
        prefixed_keys(p, m.insert(k, v)) == prefixed_keys(p, m).insert(p + k, v),
{
    let lhs = prefixed_keys(p, m.insert(k, v));
    let rhs = prefixed_keys(p, m).insert(p + k, v);
    assert forall|q: Seq<char>| lhs.contains_key(q) implies rhs.contains_key(q) by {
        let k0 = choose|k0: Seq<char>| #[trigger] m.insert(k, v).contains_key(k0) && q == p + k0;
        if k0 != k {
            assert(m.contains_key(k0) && q == p + k0);
        }
    }
    assert forall|q: Seq<char>| rhs.contains_key(q) implies lhs.contains_key(q) by {
        if q == p + k {
            assert(m.insert(k, v).contains_key(k) && q == p + k);
        } else {
            let k0 = choose|k0: Seq<char>| #[trigger] m.contains_key(k0) && q == p + k0;
            assert(k0 != k) by {
                if k0 == k {
                    assert(q == p + k);
                }
            }
            assert(m.insert(k, v).contains_key(k0) && q == p + k0);
        }
    }
    assert forall|q: Seq<char>| lhs.contains_key(q) && rhs.contains_key(q) implies lhs[q] == rhs[q]
        by {
        let k0 = choose|k0: Seq<char>| #[trigger] m.insert(k, v).contains_key(k0) && q == p + k0;
        if q == p + k {
            lemma_prefix_injective(p, k0, k);
            assert(lhs[q] == v);
        } else {
            assert(k0 != k) by {
                if k0 == k {
                    assert(q == p + k);
                }
            }
            let k1 = choose|k1: Seq<char>| #[trigger] m.contains_key(k1) && q == p + k1;
            lemma_prefix_injective(p, k0, k1);
        }
    }
    assert(lhs =~= rhs);
}

/// Merging an inserted-into map on the right is merging then inserting.
pub(crate) proof fn lemma_union_insert(
    m: Map<Seq<char>, AttrValView>,
    n: Map<Seq<char>, AttrValView>,
    k: Seq<char>,
    v: AttrValView,
)
    ensures
        m.union_prefer_right(n.insert(k, v)) == m.union_prefer_right(n).insert(k, v),
{
    assert(m.union_prefer_right(n.insert(k, v)) =~= m.union_prefer_right(n).insert(k, v));
}

/// Merging an empty map changes nothing; prefixing it yields it.
pub(crate) proof fn lemma_union_empty(m: Map<Seq<char>, AttrValView>, p: Seq<char>)
    ensures
        m.union_prefer_right(prefixed_keys(p, Map::empty())) == m,
{
    assert(m.union_prefer_right(prefixed_keys(p, Map::<Seq<char>, AttrValView>::empty())) =~= m);
}

/// The map denoted by a run of event attribute entries, later entries
/// winning on equal canonical keys.
pub open spec fn event_entries_map(s: Seq<(EventAttrKey, AttrVal)>) -> Map<Seq<char>, AttrValView>
    decreases s.len(),
{
    if s.len() == 0 {
        Map::empty()
    } else {
        event_entries_map(s.drop_last()).insert(s.last().0.canonical(), s.last().1@)
    }
}

/// Appending one entry denotes inserting it.
proof fn lemma_event_entries_push(s: Seq<(EventAttrKey, AttrVal)>, kv: (EventAttrKey, AttrVal))
    ensures
        event_entries_map(s.push(kv)) == event_entries_map(s).insert(kv.0.canonical(), kv.1@),
{
    assert(s.push(kv).drop_last() =~= s);
}

/// One fold step of a prefixed group over the entry list.
pub(crate) proof fn lemma_group_step<V: View<V = AttrValView>>(
    base: Map<Seq<char>, AttrValView>,
    p: Seq<char>,
    s: Seq<(String, V)>,
    i: int,
)
    requires
        0 <= i < s.len(),
    ensures
        base.union_prefer_right(prefixed_keys(p, entries_map(s.take(i)))).insert(
            p + s[i].0@,
            s[i].1@,
        ) == base.union_prefer_right(prefixed_keys(p, entries_map(s.take(i + 1)))),
{
    assert(s.take(i + 1).drop_last() =~= s.take(i));
    assert(s.take(i + 1).last() == s[i]);
    assert(entries_map(s.take(i + 1)) == entries_map(s.take(i)).insert(s[i].0@, s[i].1@));
    lemma_prefixed_insert(p, entries_map(s.take(i)), s[i].0@, s[i].1@);
    lemma_union_insert(base, prefixed_keys(p, entries_map(s.take(i))), p + s[i].0@, s[i].1@);
}

/// The attribute map derived for one decoded event: the (possibly remapped)
/// event name; the clock snapshot as timestamp attributes when it is not
/// negative (a negative snapshot is dropped); the stream and event class
/// identifiers; the lower-case log level; then the four field groups
/// flattened under their namespaces, the payload with interaction
/// auto-mapping on and mutation remapping for reserved events.
pub open spec fn event_attrs_spec(e: OwnedEvent) -> Map<Seq<char>, AttrValView> {
    let m0 = Map::<Seq<char>, AttrValView>::empty();
    let m1 = match e.class_properties.name {
        Some(n) => m0.insert(
            EventAttrKey::Name.canonical(),
            AttrValView::String(mapped_event_name(n@).0),
        ),
        None => m0,
    };
    let m2 = match e.clock_snapshot {
        Some(c) => if c >= 0 {
            m1.insert(EventAttrKey::Timestamp.canonical(), AttrValView::Timestamp(c as u64)).insert(
                EventAttrKey::ClockSnapshot.canonical(),
                AttrValView::Timestamp(c as u64),
            )
        } else {
            m1
        },
        None => m1,
    };
    let m3 = m2.insert(EventAttrKey::StreamId.canonical(), int_attr(e.stream_id as i128));
    let m4 = m3.insert(EventAttrKey::Id.canonical(), int_attr(e.class_properties.id as i128));
    let m5 = match e.class_properties.log_level {
        Some(ll) => m4.insert(
            EventAttrKey::LogLevel.canonical(),
            AttrValView::String(ll.lowercase_name()),
        ),
        None => m4,
    };
    let ire = is_reserved_event_name(e);
    let m6 = m5.union_prefer_right(
        prefixed_keys(
            "event.internal.ctf.common_context."@,
            group_attrs(e.properties.common_context, false, false),
        ),
    );
    let m7 = m6.union_prefer_right(
        prefixed_keys(
            "event.internal.ctf.specific_context."@,
            group_attrs(e.properties.specific_context, false, false),
        ),
    );
    let m8 = m7.union_prefer_right(
        prefixed_keys(
            "event.internal.ctf.packet_context."@,
            group_attrs(e.properties.packet_context, false, false),
        ),
    );
    m8.union_prefer_right(
        prefixed_keys("event."@, group_attrs(e.properties.payload, true, ire)),
    )
}

/// Flattens one optional field group under the empty prefix; the empty
/// prefix is never malformed, so this cannot fail.
fn group_to_attr(f: &Option<OwnedField>, amif: bool, ire: bool) -> (r: KvMap<AttrVal>)
    ensures
        r.wf(),
        r@ == group_attrs(*f, amif, ire),
{
    proof {
        reveal_strlit("");
        assert(""@ =~= Seq::<char>::empty());
    }
    match f {
        Some(fld) => match field_to_attr(fld, "", amif, ire) {
            Ok(m) => m,
            Err(_) => {
                proof {
                    assert(false);
                }
                KvMap::new()
            },
        },
        None => KvMap::new(),
    }
}

/// One decoded event re-expressed as flat attribute entries, in emission
/// order: what the ingestion pipeline submits for the event.
pub struct CtfEvent {
    pub attrs: Vec<(EventAttrKey, AttrVal)>,
}

impl CtfEvent {
    /// The attribute map this event denotes, later entries winning on equal
    /// canonical keys.
    pub open spec fn view(&self) -> Map<Seq<char>, AttrValView> {
        event_entries_map(self.attrs@)
    }

    /// Derives the attribute entries of one decoded event.
    #[verifier::loop_isolation(false)]
    pub fn new(event: &OwnedEvent) -> (r: CtfEvent)
        ensures
            r@ == event_attrs_spec(*event),
    {
        let mut out: Vec<(EventAttrKey, AttrVal)> = Vec::new();
        let mut is_reserved_event = false;
        if let Some(n) = &event.class_properties.name {
            let (event_name, reserved_event) = map_event_name(n.as_str());
            is_reserved_event = reserved_event;
            proof {
                lemma_event_entries_push(
                    out@,
                    (EventAttrKey::Name, AttrVal::String(event_name)),
                );
            }
            out.push((EventAttrKey::Name, AttrVal::String(event_name)));
        }
        proof {
            assert(is_reserved_event == is_reserved_event_name(*event));
        }
        if let Some(c) = event.clock_snapshot {
            if c >= 0 {
                let ts: u64 = c as u64;
                proof {
                    lemma_event_entries_push(
                        out@,
                        (EventAttrKey::Timestamp, AttrVal::Timestamp(ts)),
                    );
                }
                out.push((EventAttrKey::Timestamp, AttrVal::Timestamp(ts)));
                proof {
                    lemma_event_entries_push(
                        out@,
                        (EventAttrKey::ClockSnapshot, AttrVal::Timestamp(ts)),
                    );
                }
                out.push((EventAttrKey::ClockSnapshot, AttrVal::Timestamp(ts)));
            }
        }
        let sid = integer_attr_val(event.stream_id as i128);
        proof {
            lemma_event_entries_push(out@, (EventAttrKey::StreamId, sid));
        }
        out.push((EventAttrKey::StreamId, sid));
        let eid = integer_attr_val(event.class_properties.id as i128);
        proof {
            lemma_event_entries_push(out@, (EventAttrKey::Id, eid));
        }
        out.push((EventAttrKey::Id, eid));
        if let Some(ll) = event.class_properties.log_level {
            let lls = AttrVal::String(ll.to_lowercase_string());
            proof {
                lemma_event_entries_push(out@, (EventAttrKey::LogLevel, lls));
            }
            out.push((EventAttrKey::LogLevel, lls));
        }
        let ghost m5 = event_entries_map(out@);

        let common_context = group_to_attr(&event.properties.common_context, false, false);
        let n_cc = common_context.entries.len();
        let mut i: usize = 0;
        while i < n_cc
            invariant
                0 <= i <= n_cc,
                n_cc == common_context.entries@.len(),
                event_entries_map(out@) == m5.union_prefer_right(
                    prefixed_keys(
                        "event.internal.ctf.common_context."@,
                        entries_map(common_context.entries@.take(i as int)),
                    ),
                ),
            decreases n_cc - i,
        {
            let kv = &common_context.entries[i];
            let entry = (EventAttrKey::CommonContext(kv.0.clone()), kv.1.dup());
            proof {
                lemma_event_entries_push(out@, entry);
                lemma_group_step(
                    m5,
                    "event.internal.ctf.common_context."@,
                    common_context.entries@,
                    i as int,
                );
            }
            out.push(entry);
            i += 1;
        }
        proof {
            assert(common_context.entries@.take(n_cc as int) =~= common_context.entries@);
            if event.properties.common_context is None {
                lemma_union_empty(m5, "event.internal.ctf.common_context."@);
            }
        }
        let ghost m6 = event_entries_map(out@);

        let specific_context = group_to_attr(&event.properties.specific_context, false, false);
        let n_sc = specific_context.entries.len();
        let mut i: usize = 0;
        while i < n_sc
            invariant
                0 <= i <= n_sc,
                n_sc == specific_context.entries@.len(),
                event_entries_map(out@) == m6.union_prefer_right(
                    prefixed_keys(
                        "event.internal.ctf.specific_context."@,
                        entries_map(specific_context.entries@.take(i as int)),
                    ),
                ),
            decreases n_sc - i,
        {
            let kv = &specific_context.entries[i];
            let entry = (EventAttrKey::SpecificContext(kv.0.clone()), kv.1.dup());
            proof {
                lemma_event_entries_push(out@, entry);
                lemma_group_step(
                    m6,
                    "event.internal.ctf.specific_context."@,
                    specific_context.entries@,
                    i as int,
                );
            }
            out.push(entry);
            i += 1;
        }
        proof {
            assert(specific_context.entries@.take(n_sc as int) =~= specific_context.entries@);
            if event.properties.specific_context is None {
                lemma_union_empty(m6, "event.internal.ctf.specific_context."@);
            }
        }
        let ghost m7 = event_entries_map(out@);

        let packet_context = group_to_attr(&event.properties.packet_context, false, false);
        let n_pc = packet_context.entries.len();
        let mut i: usize = 0;
        while i < n_pc
            invariant
                0 <= i <= n_pc,
                n_pc == packet_context.entries@.len(),
                event_entries_map(out@) == m7.union_prefer_right(
                    prefixed_keys(
                        "event.internal.ctf.packet_context."@,
                        entries_map(packet_context.entries@.take(i as int)),
                    ),
                ),
            decreases n_pc - i,
        {
            let kv = &packet_context.entries[i];
            let entry = (EventAttrKey::PacketContext(kv.0.clone()), kv.1.dup());
            proof {
                lemma_event_entries_push(out@, entry);
                lemma_group_step(
                    m7,
                    "event.internal.ctf.packet_context."@,
                    packet_context.entries@,
                    i as int,
                );
            }
            out.push(entry);
            i += 1;
        }
        proof {
            assert(packet_context.entries@.take(n_pc as int) =~= packet_context.entries@);
            if event.properties.packet_context is None {
                lemma_union_empty(m7, "event.internal.ctf.packet_context."@);
            }
        }
        let ghost m8 = event_entries_map(out@);

        let event_fields = group_to_attr(&event.properties.payload, true, is_reserved_event);
        let n_pl = event_fields.entries.len();
        let mut i: usize = 0;
        while i < n_pl
            invariant
                0 <= i <= n_pl,
                n_pl == event_fields.entries@.len(),
                event_entries_map(out@) == m8.union_prefer_right(
                    prefixed_keys(
                        "event."@,
                        entries_map(event_fields.entries@.take(i as int)),
                    ),
                ),
            decreases n_pl - i,
        {
            let kv = &event_fields.entries[i];
            let entry = (EventAttrKey::Field(kv.0.clone()), kv.1.dup());
            proof {
                lemma_event_entries_push(out@, entry);
                lemma_group_step(m8, "event."@, event_fields.entries@, i as int);
            }
            out.push(entry);
            i += 1;
        }
        proof {
            assert(event_fields.entries@.take(n_pl as int) =~= event_fields.entries@);
            if event.properties.payload is None {
                lemma_union_empty(m8, "event."@);
            }
        }
        CtfEvent { attrs: out }
    }

    /// The attribute entries of this event, one per distinct canonical key
    /// (a later emission for the same key wins), denoting exactly this
    /// event's attribute map. The downstream store therefore never receives
    /// one key twice for one event.
    pub fn attr_kvs(&self) -> (r: Vec<(EventAttrKey, AttrVal)>)
        ensures
            event_entries_map(r@) == self@,
            forall|i: int, j: int|
                0 <= i < j < r@.len() ==> (#[trigger] r@[i]).0.canonical() != (
                #[trigger] r@[j]).0.canonical(),
    {
        let n = self.attrs.len();
        let mut r: Vec<(EventAttrKey, AttrVal)> = Vec::new();
        let mut i: usize = 0;
        while i < n
            invariant
                0 <= i <= n,
                n == self.attrs@.len(),
                event_entries_map(r@) == event_entries_map(self.attrs@.take(i as int)),
                forall|p: int, q: int|
                    0 <= p < q < r@.len() ==> (#[trigger] r@[p]).0.canonical() != (
                    #[trigger] r@[q]).0.canonical(),
            decreases n - i,
        {
            let kv = &self.attrs[i];
            let entry = (kv.0.dup(), kv.1.dup());
            proof {
                assert(self.attrs@.take(i + 1).drop_last() =~= self.attrs@.take(i as int));
                assert(self.attrs@.take(i + 1).last() == self.attrs@[i as int]);
            }
            push_event_entry(&mut r, entry);
            i += 1;
        }
        proof {
            assert(self.attrs@.take(n as int) =~= self.attrs@);
        }
        r
    }
}

/// Binds one event attribute entry, replacing any earlier entry with the
/// same canonical key.
fn push_event_entry(out: &mut Vec<(EventAttrKey, AttrVal)>, entry: (EventAttrKey, AttrVal))
    requires
        forall|p: int, q: int|
            0 <= p < q < old(out)@.len() ==> (#[trigger] old(out)@[p]).0.canonical() != (
            #[trigger] old(out)@[q]).0.canonical(),
    ensures
        event_entries_map(final(out)@) == event_entries_map(old(out)@).insert(
            entry.0.canonical(),
            entry.1@,
        ),
        forall|p: int, q: int|
            0 <= p < q < final(out)@.len() ==> (#[trigger] final(out)@[p]).0.canonical() != (
            #[trigger] final(out)@[q]).0.canonical(),
{
    let key_str = entry.0.canonical_string();
    let n = out.len();
    let mut p: usize = 0;
    while p < n
        invariant
            0 <= p <= n,
            out@ == old(out)@,
            n == out@.len(),
            forall|a: int, b: int|
                0 <= a < b < out@.len() ==> (#[trigger] out@[a]).0.canonical() != (
                #[trigger] out@[b]).0.canonical(),
            key_str@ == entry.0.canonical(),
            forall|j: int| 0 <= j < p ==> (#[trigger] out@[j]).0.canonical() != entry.0.canonical(),
        decreases n - p,
    {
        let cand = out[p].0.canonical_string();
        if str_eq(cand.as_str(), key_str.as_str()) {
            proof {
                lemma_event_entries_update(out@, p as int, entry);
            }
            out[p] = entry;
            return ;
        }
        p += 1;
    }
    proof {
        lemma_event_entries_push(out@, entry);
        assert(out@.push(entry).drop_last() =~= out@);
    }
    out.push(entry);
}

/// Replacing the entry that holds a canonical key denotes inserting over
/// that key.
proof fn lemma_event_entries_update(
    s: Seq<(EventAttrKey, AttrVal)>,
    i: int,
    kv: (EventAttrKey, AttrVal),
)
    requires
        0 <= i < s.len(),
        s[i].0.canonical() == kv.0.canonical(),
        forall|p: int, q: int|
            0 <= p < q < s.len() ==> (#[trigger] s[p]).0.canonical() != (
            #[trigger] s[q]).0.canonical(),
    ensures
        event_entries_map(s.update(i, kv)) == event_entries_map(s).insert(
            kv.0.canonical(),
            kv.1@,
        ),
        forall|p: int, q: int|
            0 <= p < q < s.update(i, kv).len() ==> (#[trigger] s.update(i, kv)[p]).0.canonical()
                != (#[trigger] s.update(i, kv)[q]).0.canonical(),
    decreases s.len(),
{
    let s2 = s.update(i, kv);
    if i == s.len() - 1 {
        assert(s2.drop_last() =~= s.drop_last());
        assert(event_entries_map(s).insert(kv.0.canonical(), kv.1@) == event_entries_map(
            s.drop_last(),
        ).insert(s.last().0.canonical(), s.last().1@).insert(kv.0.canonical(), kv.1@));
        assert(event_entries_map(s.drop_last()).insert(s.last().0.canonical(), s.last().1@).insert(
            kv.0.canonical(),
            kv.1@,
        ) =~= event_entries_map(s.drop_last()).insert(kv.0.canonical(), kv.1@));
    } else {
        assert(s2.drop_last() =~= s.drop_last().update(i, kv));
        assert(s.drop_last()[i] == s[i]);
        lemma_event_entries_update(s.drop_last(), i, kv);
        assert(s2.last() == s.last());
        assert(s.last().0.canonical() != kv.0.canonical());
        assert(event_entries_map(s2) == event_entries_map(s.drop_last()).insert(
            kv.0.canonical(),
            kv.1@,
        ).insert(s.last().0.canonical(), s.last().1@));
        assert(event_entries_map(s.drop_last()).insert(kv.0.canonical(), kv.1@).insert(
            s.last().0.canonical(),
            s.last().1@,
        ) =~= event_entries_map(s.drop_last()).insert(s.last().0.canonical(), s.last().1@).insert(
            kv.0.canonical(),
            kv.1@,
        ));
    }
}

/// Yields the attribute map of one root field under the given prefix:
/// exactly the flattening relation, or `InvalidAttrKeyPrefix` before any
/// traversal when the prefix begins or ends with `.`.
pub fn field_to_attr(
    f: &OwnedField,
    prefix: &str,
    auto_map_interaction_fields: bool,
    is_reserved_event: bool,
) -> (r: Result<KvMap<AttrVal>, Error>)
    ensures
        match r {
            Ok(m) => !bad_prefix(prefix@) && m.wf() && m@ == flatten_field(
                init_state(prefix@),
                *f,
                auto_map_interaction_fields,
                is_reserved_event,
            ).attrs,
            Err(e) => bad_prefix(prefix@) && e == Error::InvalidAttrKeyPrefix,
        },
{
    match FieldToAttrKeysGen::new(prefix, auto_map_interaction_fields, is_reserved_event) {
        Ok(g) => Ok(g.generate(f)),
        Err(e) => Err(e),
    }
}

} // verus!
