//! The attribute-key interning registry: normalizes and renames keys, then
//! caches the store's interned handle per final key string, so each distinct
//! final key is declared to the downstream store at most once. Designed for
//! single-writer sequential use; the store round trip itself is the
//! unverified rim's concern and follows the lookup/record protocol below.

use crate::attrs::{EventAttrKey, TimelineAttrKey};
use crate::config::AttrKeyRename;
use crate::text::starts_with;
use crate::values::KvMap;
use vstd::prelude::*;

verus! {

/// The compact handle the downstream store returns once per declared key.
#[derive(Clone, Copy, PartialEq, Eq, Structural, Debug)]
pub struct InternedAttrKey {
    pub id: u32,
}

impl View for InternedAttrKey {
    type V = u32;

    open spec fn view(&self) -> u32 {
        self.id
    }
}

/// A key string carrying its `timeline.` namespace prefix.
pub open spec fn spec_normalize_timeline_key(s: Seq<char>) -> Seq<char> {
    if s.len() >= "timeline."@.len() && s.subrange(0, "timeline."@.len() as int)
        == "timeline."@ {
        s
    } else {
        "timeline."@ + s
    }
}

/// Prepends the `timeline.` namespace prefix unless the key already carries
/// it.
pub fn normalize_timeline_key(s: String) -> (r: String)
    ensures
        r@ == spec_normalize_timeline_key(s@),
{
    if starts_with(s.as_str(), "timeline.") {
        s
    } else {
        let mut r = String::from_str("timeline.");
        r.append(s.as_str());
        r
    }
}

/// A key string carrying its `event.` namespace prefix.
pub open spec fn spec_normalize_event_key(s: Seq<char>) -> Seq<char> {
    if s.len() >= "event."@.len() && s.subrange(0, "event."@.len() as int) == "event."@ {
        s
    } else {
        "event."@ + s
    }
}

/// Prepends the `event.` namespace prefix unless the key already carries it.
pub fn normalize_event_key(s: String) -> (r: String)
    ensures
        r@ == spec_normalize_event_key(s@),
{
    if starts_with(s.as_str(), "event.") {
        s
    } else {
        let mut r = String::from_str("event.");
        r.append(s.as_str());
        r
    }
}

/// A key after the rename table: the configured replacement where one
/// applies, the key itself otherwise.
pub open spec fn renamed(renames: Map<Seq<char>, Seq<char>>, k: Seq<char>) -> Seq<char> {
    if renames.contains_key(k) {
        renames[k]
    } else {
        k
    }
}

/// The rename table built from configuration entries, both sides normalized
/// to carry the `timeline.` prefix; later entries win.
pub open spec fn timeline_rename_map(rs: Seq<AttrKeyRename>) -> Map<Seq<char>, Seq<char>>
    decreases rs.len(),
{
    if rs.len() == 0 {
        Map::empty()
    } else {
        timeline_rename_map(rs.drop_last()).insert(
            spec_normalize_timeline_key(rs.last().original@),
            spec_normalize_timeline_key(rs.last().new@),
        )
    }
}

/// The rename table built from configuration entries, both sides normalized
/// to carry the `event.` prefix; later entries win.
pub open spec fn event_rename_map(rs: Seq<AttrKeyRename>) -> Map<Seq<char>, Seq<char>>
    decreases rs.len(),
{
    if rs.len() == 0 {
        Map::empty()
    } else {
        event_rename_map(rs.drop_last()).insert(
            spec_normalize_event_key(rs.last().original@),
            spec_normalize_event_key(rs.last().new@),
        )
    }
}

/// What an interning lookup asks of the caller: reuse a cached handle, or
/// declare the final key string to the store and record the answer.
pub enum KeyLookup {
    Interned(InternedAttrKey),
    Declare(String),
}

/// The per-connection interning registry: two rename tables fixed at
/// construction, and one handle cache per key namespace.
pub struct Client {
    pub timeline_keys: KvMap<InternedAttrKey>,
    pub event_keys: KvMap<InternedAttrKey>,
    pub rename_timeline_attrs: KvMap<String>,
    pub rename_event_attrs: KvMap<String>,
}

impl Client {
    /// The caches and rename tables are well formed.
    pub open spec fn wf(&self) -> bool {
        self.timeline_keys.wf() && self.event_keys.wf() && self.rename_timeline_attrs.wf()
            && self.rename_event_attrs.wf()
    }

    /// The final string a timeline key is interned under.
    pub open spec fn final_timeline_key(&self, key: TimelineAttrKey) -> Seq<char> {
        renamed(self.rename_timeline_attrs@, key.canonical())
    }

    /// The final string an event key is interned under.
    pub open spec fn final_event_key(&self, key: EventAttrKey) -> Seq<char> {
        renamed(self.rename_event_attrs@, key.canonical())
    }

    /// Builds a registry with empty caches from the configured renames.
    pub fn new(
        rename_timeline_attrs: Vec<AttrKeyRename>,
        rename_event_attrs: Vec<AttrKeyRename>,
    ) -> (r: Client)
        ensures
            r.wf(),
            r.timeline_keys@ == Map::<Seq<char>, u32>::empty(),
            r.event_keys@ == Map::<Seq<char>, u32>::empty(),
            r.rename_timeline_attrs@ == timeline_rename_map(rename_timeline_attrs@),
            r.rename_event_attrs@ == event_rename_map(rename_event_attrs@),
    {
        let mut tl_renames: KvMap<String> = KvMap::new();
        let n = rename_timeline_attrs.len();
        let mut i: usize = 0;
        while i < n
            invariant
                0 <= i <= n,
                n == rename_timeline_attrs@.len(),
                tl_renames.wf(),
                tl_renames@ == timeline_rename_map(rename_timeline_attrs@.take(i as int)),
            decreases n - i,
        {
            let r = &rename_timeline_attrs[i];
            proof {
                assert(rename_timeline_attrs@.take(i + 1).drop_last() =~= rename_timeline_attrs@.take(
                    i as int,
                ));
            }
            tl_renames.insert(
                normalize_timeline_key(r.original.clone()),
                normalize_timeline_key(r.new.clone()),
            );
            i += 1;
        }
        proof {
            assert(rename_timeline_attrs@.take(n as int) =~= rename_timeline_attrs@);
        }
        let mut ev_renames: KvMap<String> = KvMap::new();
        let m = rename_event_attrs.len();
        let mut j: usize = 0;
        while j < m
            invariant
                0 <= j <= m,
                m == rename_event_attrs@.len(),
                ev_renames.wf(),
                ev_renames@ == event_rename_map(rename_event_attrs@.take(j as int)),
            decreases m - j,
        {
            let r = &rename_event_attrs[j];
            proof {
                assert(rename_event_attrs@.take(j + 1).drop_last() =~= rename_event_attrs@.take(
                    j as int,
                ));
            }
            ev_renames.insert(
                normalize_event_key(r.original.clone()),
                normalize_event_key(r.new.clone()),
            );
            j += 1;
        }
        proof {
            assert(rename_event_attrs@.take(m as int) =~= rename_event_attrs@);
        }
        Client {
            timeline_keys: KvMap::new(),
            event_keys: KvMap::new(),
            rename_timeline_attrs: tl_renames,
            rename_event_attrs: ev_renames,
        }
    }

    /// Looks one timeline key up: the rename table is applied to the
    /// canonical string before the cache, and a declaration is asked for
    /// exactly when the final string is not cached yet.
    pub fn interned_timeline_key(&self, key: &TimelineAttrKey) -> (r: KeyLookup)
        requires
            self.wf(),
        ensures
            match r {
                KeyLookup::Interned(h) => self.timeline_keys@.contains_key(
                    self.final_timeline_key(*key),
                ) && self.timeline_keys@[self.final_timeline_key(*key)] == h.id,
                KeyLookup::Declare(s) => s@ == self.final_timeline_key(*key)
                    && !self.timeline_keys@.contains_key(self.final_timeline_key(*key)),
            },
    {
        let canonical = key.canonical_string();
        let fin = match self.rename_timeline_attrs.get(canonical.as_str()) {
            Some(new) => new.clone(),
            None => canonical,
        };
        match self.timeline_keys.get(fin.as_str()) {
            Some(h) => KeyLookup::Interned(*h),
            None => KeyLookup::Declare(fin),
        }
    }

    /// Records the handle the store returned for a timeline key's final
    /// string.
    pub fn insert_timeline_key(&mut self, key: &TimelineAttrKey, interned: InternedAttrKey)
        requires
            old(self).wf(),
        ensures
            final(self).wf(),
            final(self).timeline_keys@ == old(self).timeline_keys@.insert(
                old(self).final_timeline_key(*key),
                interned.id,
            ),
            final(self).event_keys == old(self).event_keys,
            final(self).rename_timeline_attrs == old(self).rename_timeline_attrs,
            final(self).rename_event_attrs == old(self).rename_event_attrs,
    {
        let canonical = key.canonical_string();
        let fin = match self.rename_timeline_attrs.get(canonical.as_str()) {
            Some(new) => new.clone(),
            None => canonical,
        };
        self.timeline_keys.insert(fin, interned);
    }

    /// Looks one event key up: the rename table is applied to the canonical
    /// string before the cache, and a declaration is asked for exactly when
    /// the final string is not cached yet.
    pub fn interned_event_key(&self, key: &EventAttrKey) -> (r: KeyLookup)
        requires
            self.wf(),
        ensures
            match r {
                KeyLookup::Interned(h) => self.event_keys@.contains_key(self.final_event_key(*key))
                    && self.event_keys@[self.final_event_key(*key)] == h.id,
                KeyLookup::Declare(s) => s@ == self.final_event_key(*key)
                    && !self.event_keys@.contains_key(self.final_event_key(*key)),
            },
    {
        let canonical = key.canonical_string();
        let fin = match self.rename_event_attrs.get(canonical.as_str()) {
            Some(new) => new.clone(),
            None => canonical,
        };
        match self.event_keys.get(fin.as_str()) {
            Some(h) => KeyLookup::Interned(*h),
            None => KeyLookup::Declare(fin),
        }
    }

    /// Records the handle the store returned for an event key's final
    /// string.
    pub fn insert_event_key(&mut self, key: &EventAttrKey, interned: InternedAttrKey)
        requires
            old(self).wf(),
        ensures
            final(self).wf(),
            final(self).event_keys@ == old(self).event_keys@.insert(
                old(self).final_event_key(*key),
                interned.id,
            ),
            final(self).timeline_keys == old(self).timeline_keys,
            final(self).rename_timeline_attrs == old(self).rename_timeline_attrs,
            final(self).rename_event_attrs == old(self).rename_event_attrs,
    {
        let canonical = key.canonical_string();
        let fin = match self.rename_event_attrs.get(canonical.as_str()) {
            Some(new) => new.clone(),
            None => canonical,
        };
        self.event_keys.insert(fin, interned);
    }
}

/// Interning one logical key twice declares it at most once: once the handle
/// of a key's final string is recorded in the cache, any later lookup of a
/// key with the same final string is a cache hit on that handle, never a
/// second declaration. The rename table is applied before the cache lookup,
/// so a renamed-from spelling and its renamed-to target share one cache
/// entry rather than appearing as two.
pub proof fn lemma_intern_at_most_once(
    cache: Map<Seq<char>, u32>,
    renames: Map<Seq<char>, Seq<char>>,
    a: Seq<char>,
    b: Seq<char>,
    h: u32,
)
    requires
        renamed(renames, a) == renamed(renames, b),
    ensures
        cache.insert(renamed(renames, a), h).contains_key(renamed(renames, b)),
        cache.insert(renamed(renames, a), h)[renamed(renames, b)] == h,
{
}

} // verus!
