//! The closed attribute value model, and a small string-keyed map with
//! last-write-wins insertion used wherever the attribute pipeline collects
//! key/value pairs.
//!
//! Floating-point scalars are carried as their IEEE-754 bit patterns; the
//! unverified rim converts them back at the store boundary.

use crate::ids::TimelineId;
use crate::text::str_eq;
use vstd::prelude::*;

verus! {

/// An IEEE-754 value as its bit pattern.
#[derive(Clone, Copy, PartialEq, Eq, Structural, Debug)]
pub enum FloatBits {
    Single(u32),
    Double(u64),
}

/// A four-segment logical clock value.
#[derive(Clone, Copy, PartialEq, Eq, Structural, Debug)]
pub struct LogicalTimeQuad {
    pub a: u64,
    pub b: u64,
    pub c: u64,
    pub d: u64,
}

/// One attribute value as handed to the downstream store.
#[derive(Clone, PartialEq, Eq, Debug)]
pub enum AttrVal {
    TimelineId(TimelineId),
    String(String),
    Integer(i64),
    BigInt(i128),
    Float(FloatBits),
    Bool(bool),
    Timestamp(u64),
    LogicalTime(LogicalTimeQuad),
}

/// The mathematical shape of an attribute value.
pub enum AttrValView {
    TimelineId(u128),
    String(Seq<char>),
    Integer(i64),
    BigInt(i128),
    Float(FloatBits),
    Bool(bool),
    Timestamp(u64),
    LogicalTime(LogicalTimeQuad),
}

impl AttrVal {
    /// An equal copy of this value.
    pub fn dup(&self) -> (r: AttrVal)
        ensures
            r@ == self@,
    {
        match self {
            AttrVal::TimelineId(t) => AttrVal::TimelineId(*t),
            AttrVal::String(s) => AttrVal::String(s.clone()),
            AttrVal::Integer(v) => AttrVal::Integer(*v),
            AttrVal::BigInt(v) => AttrVal::BigInt(*v),
            AttrVal::Float(b) => AttrVal::Float(*b),
            AttrVal::Bool(b) => AttrVal::Bool(*b),
            AttrVal::Timestamp(t) => AttrVal::Timestamp(*t),
            AttrVal::LogicalTime(q) => AttrVal::LogicalTime(*q),
        }
    }
}

impl View for AttrVal {
    type V = AttrValView;

    open spec fn view(&self) -> AttrValView {
        match self {
            AttrVal::TimelineId(t) => AttrValView::TimelineId(t.bits),
            AttrVal::String(s) => AttrValView::String(s@),
            AttrVal::Integer(v) => AttrValView::Integer(*v),
            AttrVal::BigInt(v) => AttrValView::BigInt(*v),
            AttrVal::Float(b) => AttrValView::Float(*b),
            AttrVal::Bool(b) => AttrValView::Bool(*b),
            AttrVal::Timestamp(t) => AttrValView::Timestamp(*t),
            AttrVal::LogicalTime(q) => AttrValView::LogicalTime(*q),
        }
    }
}

/// What `modality_api::LogicalTime::from_str` yields on a given string: up
/// to four `:`-separated unsigned decimal segments, right-aligned into four
/// 64-bit segments; `None` where parsing fails. A function of the string
/// alone.
pub uninterp spec fn parsed_logical_time(s: Seq<char>) -> Option<(u64, u64, u64, u64)>;

/// Relies on `modality_api::LogicalTime::from_str` and
/// `modality_api::LogicalTime::get_raw`: parses a segmented logical clock
/// value.
#[verifier::external_body]
pub(crate) fn parse_logical_time(s: &str) -> (r: Option<LogicalTimeQuad>)
    ensures
        match r {
            Some(q) => parsed_logical_time(s@) == Some((q.a, q.b, q.c, q.d)),
            None => parsed_logical_time(s@) is None,
        },
{
    match s.parse::<modality_api::LogicalTime>() {
        Ok(t) => {
            let raw = t.get_raw();
            Some(LogicalTimeQuad { a: raw[0], b: raw[1], c: raw[2], d: raw[3] })
        },
        Err(_) => None,
    }
}

/// The minimal integer attribute value: a plain 64-bit integer when the
/// value fits, a big integer otherwise.
pub open spec fn int_attr(v: i128) -> AttrValView {
    if v < i64::MIN as i128 || v > i64::MAX as i128 {
        AttrValView::BigInt(v)
    } else {
        AttrValView::Integer(v as i64)
    }
}

/// Builds the minimal integer attribute value for `v`.
pub fn integer_attr_val(v: i128) -> (r: AttrVal)
    ensures
        r@ == int_attr(v),
{
    if v < i64::MIN as i128 || v > i64::MAX as i128 {
        AttrVal::BigInt(v)
    } else {
        AttrVal::Integer(v as i64)
    }
}

/// The map denoted by an association list, later entries winning.
pub open spec fn entries_map<V: View>(s: Seq<(String, V)>) -> Map<Seq<char>, V::V>
    decreases s.len(),
{
    if s.len() == 0 {
        Map::empty()
    } else {
        entries_map(s.drop_last()).insert(s.last().0@, s.last().1@)
    }
}

/// A string-keyed map held as an association list with unique keys;
/// insertion replaces the value of an existing key.
pub struct KvMap<V> {
    pub entries: Vec<(String, V)>,
}

impl<V: View> KvMap<V> {
    /// The keys are pairwise distinct.
    pub open spec fn wf(&self) -> bool {
        forall|i: int, j: int|
            0 <= i < j < self.entries@.len() ==> self.entries@[i].0@ != self.entries@[j].0@
    }

    pub open spec fn view(&self) -> Map<Seq<char>, V::V> {
        entries_map(self.entries@)
    }

    /// An empty map.
    pub fn new() -> (r: Self)
        ensures
            r.wf(),
            r.view() == Map::<Seq<char>, V::V>::empty(),
            r.entries@.len() == 0,
    {
        KvMap { entries: Vec::new() }
    }

    /// Binds `k` to `v`, replacing any existing binding of `k`.
    pub fn insert(&mut self, k: String, v: V)
        requires
            old(self).wf(),
        ensures
            final(self).wf(),
            final(self).view() == old(self).view().insert(k@, v@),
            final(self).entries@.len() <= old(self).entries@.len() + 1,
    {
        let n = self.entries.len();
        let mut i: usize = 0;
        while i < n
            invariant
                0 <= i <= n,
                self.entries@ == old(self).entries@,
                self.wf(),
                n == self.entries@.len(),
                forall|j: int| 0 <= j < i ==> self.entries@[j].0@ != k@,
            decreases n - i,
        {
            if str_eq(self.entries[i].0.as_str(), k.as_str()) {
                proof {
                    lemma_entries_map_update(self.entries@, i as int, (k, v));
                }
                self.entries[i] = (k, v);
                return ;
            }
            i += 1;
        }
        proof {
            lemma_entries_map_last(self.entries@.push((k, v)));
            assert(self.entries@.push((k, v)).drop_last() =~= self.entries@);
        }
        self.entries.push((k, v));
    }

    /// Looks `k` up.
    pub fn get(&self, k: &str) -> (r: Option<&V>)
        requires
            self.wf(),
        ensures
            match r {
                Some(v) => self.view().contains_key(k@) && self.view()[k@] == v@,
                None => !self.view().contains_key(k@),
            },
    {
        let n = self.entries.len();
        let mut i: usize = 0;
        while i < n
            invariant
                0 <= i <= n,
                self.wf(),
                n == self.entries@.len(),
                forall|j: int| 0 <= j < i ==> self.entries@[j].0@ != k@,
            decreases n - i,
        {
            if str_eq(self.entries[i].0.as_str(), k) {
                proof {
                    lemma_entries_map_get(self.entries@, i as int);
                }
                return Some(&self.entries[i].1);
            }
            i += 1;
        }
        proof {
            lemma_entries_map_no_key(self.entries@, k@);
        }
        None
    }

    /// The number of bindings.
    pub fn len(&self) -> (r: usize)
        ensures
            r == self.entries@.len(),
    {
        self.entries.len()
    }
}

/// Pushing a fresh entry denotes inserting it.
proof fn lemma_entries_map_last<V: View>(s: Seq<(String, V)>)
    requires
        s.len() > 0,
    ensures
        entries_map(s) == entries_map(s.drop_last()).insert(s.last().0@, s.last().1@),
{
}

/// A key bound somewhere in the list is in the denoted map, with the value
/// of its last binding; with unique keys, of its only binding.
proof fn lemma_entries_map_get<V: View>(s: Seq<(String, V)>, i: int)
    requires
        0 <= i < s.len(),
        forall|p: int, q: int| 0 <= p < q < s.len() ==> s[p].0@ != s[q].0@,
    ensures
        entries_map(s).contains_key(s[i].0@),
        entries_map(s)[s[i].0@] == s[i].1@,
    decreases s.len(),
{
    if i == s.len() - 1 {
    } else {
        assert(s.drop_last()[i] == s[i]);
        lemma_entries_map_get(s.drop_last(), i);
        assert(s[i].0@ != s.last().0@);
    }
}

/// A key bound nowhere in the list is absent from the denoted map.
proof fn lemma_entries_map_no_key<V: View>(s: Seq<(String, V)>, k: Seq<char>)
    requires
        forall|j: int| 0 <= j < s.len() ==> s[j].0@ != k,
    ensures
        !entries_map(s).contains_key(k),
    decreases s.len(),
{
    if s.len() > 0 {
        lemma_entries_map_no_key(s.drop_last(), k);
    }
}

/// Replacing the entry that holds a key denotes inserting over that key.
proof fn lemma_entries_map_update<V: View>(s: Seq<(String, V)>, i: int, kv: (String, V))
    requires
        0 <= i < s.len(),
        s[i].0@ == kv.0@,
        forall|p: int, q: int| 0 <= p < q < s.len() ==> s[p].0@ != s[q].0@,
    ensures
        entries_map(s.update(i, kv)) == entries_map(s).insert(kv.0@, kv.1@),
        forall|p: int, q: int|
            0 <= p < q < s.update(i, kv).len() ==> s.update(i, kv)[p].0@ != s.update(
                i,
                kv,
            )[q].0@,
    decreases s.len(),
{
    let s2 = s.update(i, kv);
    if i == s.len() - 1 {
        assert(s2.drop_last() =~= s.drop_last());
        assert(entries_map(s2) == entries_map(s.drop_last()).insert(kv.0@, kv.1@));
        assert(entries_map(s).insert(kv.0@, kv.1@) == entries_map(s.drop_last()).insert(
            s.last().0@,
            s.last().1@,
        ).insert(kv.0@, kv.1@));
        assert(entries_map(s.drop_last()).insert(s.last().0@, s.last().1@).insert(kv.0@, kv.1@)
            =~= entries_map(s.drop_last()).insert(kv.0@, kv.1@));
    } else {
        assert(s2.drop_last() =~= s.drop_last().update(i, kv));
        assert(s.drop_last()[i] == s[i]);
        lemma_entries_map_update(s.drop_last(), i, kv);
        assert(s2.last() == s.last());
        assert(s.last().0@ != kv.0@);
        assert(entries_map(s2) == entries_map(s.drop_last()).insert(kv.0@, kv.1@).insert(
            s.last().0@,
            s.last().1@,
        ));
        assert(entries_map(s.drop_last()).insert(kv.0@, kv.1@).insert(s.last().0@, s.last().1@)
            =~= entries_map(s.drop_last()).insert(s.last().0@, s.last().1@).insert(
            kv.0@,
            kv.1@,
        ));
    }
}

} // verus!
