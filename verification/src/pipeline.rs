//! The ingestion pipeline's sequential core: resolves each decoded event's
//! stream identifier to a declared timeline, maintains one monotonically
//! increasing ordering counter per timeline, and decides when an event must
//! be dropped rather than ingested. The unverified rim drives decoder
//! iteration and store submission around these decisions and polls the
//! interruption flag between events.

use crate::ids::TimelineId;
use crate::properties::CtfProperties;
use crate::types::SessionNotFoundAction;
use vstd::prelude::*;

verus! {

/// The map denoted by an integer-keyed association list, later entries
/// winning.
pub open spec fn id_entries_map(s: Seq<(u128, u128)>) -> Map<u128, u128>
    decreases s.len(),
{
    if s.len() == 0 {
        Map::empty()
    } else {
        id_entries_map(s.drop_last()).insert(s.last().0, s.last().1)
    }
}

/// An integer-keyed map held as an association list with unique keys;
/// insertion replaces the value of an existing key.
pub struct CounterMap {
    pub entries: Vec<(u128, u128)>,
}

impl CounterMap {
    /// The keys are pairwise distinct.
    pub open spec fn wf(&self) -> bool {
        forall|i: int, j: int|
            0 <= i < j < self.entries@.len() ==> self.entries@[i].0 != self.entries@[j].0
    }

    pub open spec fn view(&self) -> Map<u128, u128> {
        id_entries_map(self.entries@)
    }

    /// An empty map.
    pub fn new() -> (r: Self)
        ensures
            r.wf(),
            r@ == Map::<u128, u128>::empty(),
    {
        CounterMap { entries: Vec::new() }
    }

    /// Binds `k` to `v`, replacing any existing binding of `k`.
    pub fn insert(&mut self, k: u128, v: u128)
        requires
            old(self).wf(),
        ensures
            final(self).wf(),
            final(self)@ == old(self)@.insert(k, v),
    {
        let n = self.entries.len();
        let mut i: usize = 0;
        while i < n
            invariant
                0 <= i <= n,
                self.entries@ == old(self).entries@,
                self.wf(),
                n == self.entries@.len(),
                forall|j: int| 0 <= j < i ==> self.entries@[j].0 != k,
            decreases n - i,
        {
            if self.entries[i].0 == k {
                proof {
                    lemma_id_entries_update(self.entries@, i as int, (k, v));
                }
                self.entries[i] = (k, v);
                return ;
            }
            i += 1;
        }
        proof {
            assert(self.entries@.push((k, v)).drop_last() =~= self.entries@);
        }
        self.entries.push((k, v));
    }

    /// Looks `k` up.
    pub fn get(&self, k: u128) -> (r: Option<u128>)
        requires
            self.wf(),
        ensures
            match r {
                Some(v) => self@.contains_key(k) && self@[k] == v,
                None => !self@.contains_key(k),
            },
    {
        let n = self.entries.len();
        let mut i: usize = 0;
        while i < n
            invariant
                0 <= i <= n,
                self.wf(),
                n == self.entries@.len(),
                forall|j: int| 0 <= j < i ==> self.entries@[j].0 != k,
            decreases n - i,
        {
            if self.entries[i].0 == k {
                proof {
                    lemma_id_entries_get(self.entries@, i as int);
                }
                return Some(self.entries[i].1);
            }
            i += 1;
        }
        proof {
            lemma_id_entries_no_key(self.entries@, k);
        }
        None
    }
}

/// A key bound in a unique-keyed list denotes its value.
proof fn lemma_id_entries_get(s: Seq<(u128, u128)>, i: int)
    requires
        0 <= i < s.len(),
        forall|p: int, q: int| 0 <= p < q < s.len() ==> s[p].0 != s[q].0,
    ensures
        id_entries_map(s).contains_key(s[i].0),
        id_entries_map(s)[s[i].0] == s[i].1,
    decreases s.len(),
{
    if i < s.len() - 1 {
        assert(s.drop_last()[i] == s[i]);
        lemma_id_entries_get(s.drop_last(), i);
    }
}

/// A key bound nowhere is absent.
proof fn lemma_id_entries_no_key(s: Seq<(u128, u128)>, k: u128)
    requires
        forall|j: int| 0 <= j < s.len() ==> s[j].0 != k,
    ensures
        !id_entries_map(s).contains_key(k),
    decreases s.len(),
{
    if s.len() > 0 {
        lemma_id_entries_no_key(s.drop_last(), k);
    }
}

/// Replacing the entry that holds a key denotes inserting over that key.
proof fn lemma_id_entries_update(s: Seq<(u128, u128)>, i: int, kv: (u128, u128))
    requires
        0 <= i < s.len(),
        s[i].0 == kv.0,
        forall|p: int, q: int| 0 <= p < q < s.len() ==> s[p].0 != s[q].0,
    ensures
        id_entries_map(s.update(i, kv)) == id_entries_map(s).insert(kv.0, kv.1),
        forall|p: int, q: int|
            0 <= p < q < s.update(i, kv).len() ==> s.update(i, kv)[p].0 != s.update(i, kv)[q].0,
    decreases s.len(),
{
    let s2 = s.update(i, kv);
    if i == s.len() - 1 {
        assert(s2.drop_last() =~= s.drop_last());
        assert(id_entries_map(s.drop_last()).insert(s.last().0, s.last().1).insert(kv.0, kv.1)
            =~= id_entries_map(s.drop_last()).insert(kv.0, kv.1));
    } else {
        assert(s2.drop_last() =~= s.drop_last().update(i, kv));
        assert(s.drop_last()[i] == s[i]);
        lemma_id_entries_update(s.drop_last(), i, kv);
        assert(s2.last() == s.last());
        assert(s.last().0 != kv.0);
        assert(id_entries_map(s.drop_last()).insert(kv.0, kv.1).insert(s.last().0, s.last().1)
            =~= id_entries_map(s.drop_last()).insert(s.last().0, s.last().1).insert(
            kv.0,
            kv.1,
        ));
    }
}

/// What one poll of a live source reported.
#[derive(Clone, Copy, PartialEq, Eq, Structural, Debug)]
pub enum PollOutcome {
    /// The decoder made progress; decoded events may be available.
    Progressed,
    /// A transient state: poll again after the configured retry interval.
    TryAgain,
    /// The remote side signalled the end of the session.
    Ended,
}

/// What the live pipeline does after one poll.
#[derive(Clone, Copy, PartialEq, Eq, Structural, Debug)]
pub enum PollAction {
    /// Handle the decoded events of this poll cycle.
    HandleEvents,
    /// Sleep for the configured retry interval, then re-poll; the sole
    /// suspension point of the pipeline.
    SleepThenRepoll,
    /// Stop the run: interruption or end of session, neither an error.
    Stop,
}

/// One poll-loop decision of the live pipeline: interruption stops the run
/// after the in-flight work; a try-again state sleeps and re-polls rather
/// than busy-looping; progress hands the decoded events on; the end of the
/// session stops the run.
pub fn live_poll_decision(outcome: PollOutcome, interrupted: bool) -> (r: PollAction)
    ensures
        interrupted ==> r == PollAction::Stop,
        !interrupted && outcome == PollOutcome::TryAgain ==> r == PollAction::SleepThenRepoll,
        !interrupted && outcome == PollOutcome::Progressed ==> r == PollAction::HandleEvents,
        !interrupted && outcome == PollOutcome::Ended ==> r == PollAction::Stop,
{
    if interrupted {
        PollAction::Stop
    } else {
        match outcome {
            PollOutcome::Progressed => PollAction::HandleEvents,
            PollOutcome::TryAgain => PollAction::SleepThenRepoll,
            PollOutcome::Ended => PollAction::Stop,
        }
    }
}

/// What the pre-connection probe does next.
#[derive(Clone, Copy, PartialEq, Eq, Structural, Debug)]
pub enum ProbeAction {
    /// Hand over to the decoder (the relay answered, or the policy says not
    /// to keep waiting for it).
    Proceed,
    /// Sleep for the retry interval, then probe again.
    SleepThenRetry,
}

/// One decision of the connection-probe loop run before a live session
/// opens: an unreachable relay is retried only under the `Continue`
/// session-not-found policy; any other policy proceeds and lets the decoder
/// report the failure.
pub fn connection_probe_decision(connected: bool, action: SessionNotFoundAction) -> (r:
    ProbeAction)
    ensures
        connected ==> r == ProbeAction::Proceed,
        !connected && action == SessionNotFoundAction::Continue ==> r
            == ProbeAction::SleepThenRetry,
        !connected && action != SessionNotFoundAction::Continue ==> r == ProbeAction::Proceed,
{
    if connected {
        ProbeAction::Proceed
    } else if action == SessionNotFoundAction::Continue {
        ProbeAction::SleepThenRetry
    } else {
        ProbeAction::Proceed
    }
}

/// What the pipeline decides for one decoded event.
#[derive(Clone, Copy, PartialEq, Eq, Structural, Debug)]
pub enum EventDisposition {
    /// The event's stream identifier was not reported in the metadata: drop
    /// the event, warn, and continue the run.
    DropUnknownStream,
    /// The stream resolved to a timeline with no ordering counter
    /// (defensively checked; cannot happen when every timeline was declared
    /// before streaming): drop the event, warn, and continue the run.
    DropUnknownTimeline,
    /// Ingest the event on the given timeline, tagged with the given
    /// ordering value.
    Ingest(TimelineId, u128),
}

/// The per-run ingestion state: the stream-to-timeline resolution built when
/// the timelines were declared, and one ordering counter per declared
/// timeline.
pub struct IngestPipeline {
    /// Stream identifier (widened) to timeline identifier bits.
    pub stream_timelines: CounterMap,
    /// Timeline identifier bits to the ordering value of its next event.
    pub orderings: CounterMap,
}

impl IngestPipeline {
    pub open spec fn wf(&self) -> bool {
        self.stream_timelines.wf() && self.orderings.wf()
    }

    /// Declares the timelines of `props`: each stream resolves to its derived
    /// timeline, and every declared timeline's ordering counter starts at 0.
    pub fn new(props: &CtfProperties) -> (r: IngestPipeline)
        ensures
            r.wf(),
            ({
                let declared = props.streams@;
                &&& forall|j: int|
                    0 <= j < declared.len() ==> r.stream_timelines@.contains_key(
                        (#[trigger] declared[j]).0 as u128,
                    )
                &&& forall|j: int|
                    0 <= j < declared.len() ==> r.orderings@.contains_key(
                        (#[trigger] declared[j]).1.timeline_id.bits,
                    ) && r.orderings@[declared[j].1.timeline_id.bits] == 0
                &&& forall|sid: u128|
                    #[trigger] r.stream_timelines@.contains_key(sid) ==> exists|j: int|
                        0 <= j < declared.len() && (#[trigger] declared[j]).0 as u128 == sid
                            && r.stream_timelines@[sid] == declared[j].1.timeline_id.bits
                            && r.orderings@.contains_key(declared[j].1.timeline_id.bits)
            }),
    {
        let mut stream_timelines = CounterMap::new();
        let mut orderings = CounterMap::new();
        let n = props.streams.len();
        let mut i: usize = 0;
        while i < n
            invariant
                0 <= i <= n,
                n == props.streams@.len(),
                stream_timelines.wf(),
                orderings.wf(),
                forall|j: int|
                    0 <= j < i ==> stream_timelines@.contains_key(
                        (#[trigger] props.streams@[j]).0 as u128,
                    ),
                forall|j: int|
                    0 <= j < i ==> orderings@.contains_key(
                        (#[trigger] props.streams@[j]).1.timeline_id.bits,
                    ) && orderings@[props.streams@[j].1.timeline_id.bits] == 0,
                forall|sid: u128|
                    #[trigger] stream_timelines@.contains_key(sid) ==> exists|j: int|
                        0 <= j < i && (#[trigger] props.streams@[j]).0 as u128 == sid
                            && stream_timelines@[sid] == props.streams@[j].1.timeline_id.bits
                            && orderings@.contains_key(props.streams@[j].1.timeline_id.bits),
            decreases n - i,
        {
            let entry = &props.streams[i];
            stream_timelines.insert(entry.0 as u128, entry.1.timeline_id.bits);
            orderings.insert(entry.1.timeline_id.bits, 0);
            i += 1;
        }
        IngestPipeline { stream_timelines, orderings }
    }

    /// Decides one decoded event: resolve its stream to a timeline, then to
    /// that timeline's current ordering counter; an event that resolves to no
    /// declared timeline, or to a timeline without a counter, is dropped and
    /// nothing changes.
    pub fn event_disposition(&self, stream_id: u64) -> (r: EventDisposition)
        requires
            self.wf(),
        ensures
            match r {
                EventDisposition::DropUnknownStream => !self.stream_timelines@.contains_key(
                    stream_id as u128,
                ),
                EventDisposition::DropUnknownTimeline => self.stream_timelines@.contains_key(
                    stream_id as u128,
                ) && !self.orderings@.contains_key(self.stream_timelines@[stream_id as u128]),
                EventDisposition::Ingest(tid, ord) => self.stream_timelines@.contains_key(
                    stream_id as u128,
                ) && tid.bits == self.stream_timelines@[stream_id as u128]
                    && self.orderings@.contains_key(tid.bits) && ord == self.orderings@[tid.bits],
            },
    {
        match self.stream_timelines.get(stream_id as u128) {
            None => EventDisposition::DropUnknownStream,
            Some(tid_bits) => match self.orderings.get(tid_bits) {
                None => EventDisposition::DropUnknownTimeline,
                Some(ord) => EventDisposition::Ingest(TimelineId { bits: tid_bits }, ord),
            },
        }
    }

    /// Records one successfully ingested event: the timeline's ordering
    /// counter increases by exactly 1 and every other counter, and the
    /// stream resolution, stay as they were.
    pub fn record_ingested(&mut self, timeline_id: &TimelineId)
        requires
            old(self).wf(),
            old(self).orderings@.contains_key(timeline_id.bits),
            old(self).orderings@[timeline_id.bits] < u128::MAX,
        ensures
            final(self).wf(),
            final(self).orderings@ == old(self).orderings@.insert(
                timeline_id.bits,
                (old(self).orderings@[timeline_id.bits] + 1) as u128,
            ),
            final(self).orderings@[timeline_id.bits] == old(self).orderings@[timeline_id.bits]
                + 1,
            forall|t: u128|
                t != timeline_id.bits && old(self).orderings@.contains_key(t)
                    ==> final(self).orderings@.contains_key(t) && final(self).orderings@[t] == old(
                    self,
                ).orderings@[t],
            final(self).stream_timelines == old(self).stream_timelines,
    {
        let cur = match self.orderings.get(timeline_id.bits) {
            Some(v) => v,
            None => 0,
        };
        self.orderings.insert(timeline_id.bits, cur + 1);
    }
}

/// Per-timeline ordering counters are independent: ingesting on one timeline
/// leaves every other timeline's counter exactly as it was, so interleaved
/// ingestion across timelines perturbs neither counter's monotonic sequence.
pub proof fn lemma_orderings_independent(m: Map<u128, u128>, a: u128, b: u128, v: u128)
    requires
        a != b,
        m.contains_key(a),
    ensures
        m.insert(b, v).contains_key(a),
        m.insert(b, v)[a] == m[a],
{
}

/// Interleaved ingestion across two timelines perturbs neither counter:
/// after recording one event on each, each timeline carries exactly its own
/// recorded value.
pub proof fn lemma_interleaved_ingestion(m: Map<u128, u128>, a: u128, b: u128, va: u128, vb: u128)
    requires
        a != b,
    ensures
        m.insert(a, va).insert(b, vb)[a] == va,
        m.insert(a, va).insert(b, vb)[b] == vb,
{
}

} // verus!
