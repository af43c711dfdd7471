//! The mix registry: one codec-adapter state and one sample queue per remote
//! source, and the linear mix-down of all queues into the device buffer.
use vstd::prelude::*;

use crate::codec::{supported, Codec, CHANNELS, USUAL_FRAME_SIZE};
use crate::queue::{bounded, pulled_len, SourceQueue};

verus! {

/// Identity of one remote audio producer: a connection and a client on it.
#[derive(Clone, Copy, Debug, PartialEq, Eq, Structural)]
pub struct SourceId {
    pub connection: u64,
    pub client: u16,
}

/// Decoder state of one source: usable, or disabled for good after its
/// decoder could not be created.
#[derive(Clone, Copy, Debug, PartialEq, Eq, Structural)]
pub enum AdapterState {
    Ready,
    Failed,
}

/// What came of handing one packet's payload to the source's decoder.
pub enum DecodeOutcome {
    /// The decoder for a new source could not be created.
    InitFailed,
    /// The payload could not be decoded; the decoder is kept.
    Malformed,
    /// The decoded interleaved frame.
    Decoded(Vec<i16>),
}

/// Why a packet was dropped.
#[derive(Clone, Copy, Debug, PartialEq, Eq, Structural)]
pub enum PacketError {
    UnsupportedCodec,
    SourceDisabled,
    DecoderInitFailed,
    MalformedPacket,
}

struct SourceEntry {
    id: SourceId,
    state: AdapterState,
    queue: SourceQueue,
}

/// Sources in the order they first sent audio, and the optional bound on
/// each backlog (oldest samples are dropped past it).
pub struct MixRegistry {
    entries: Vec<SourceEntry>,
    cap: Option<usize>,
}

/// A source as the contracts see it: identity, decoder state, backlog.
pub type SourceView = (SourceId, AdapterState, Seq<i16>);

pub open spec fn unique_ids(v: Seq<SourceView>) -> bool {
    forall|i: int, j: int| 0 <= i < j < v.len() ==> v[i].0 != v[j].0
}

pub open spec fn has_source(v: Seq<SourceView>, id: SourceId) -> bool {
    exists|i: int| 0 <= i < v.len() && v[i].0 == id
}

/// Position of `id`; meaningful where `has_source` holds.
pub open spec fn slot(v: Seq<SourceView>, id: SourceId) -> int {
    choose|i: int| 0 <= i < v.len() && v[i].0 == id
}

pub open spec fn source_failed(v: Seq<SourceView>, id: SourceId) -> bool {
    has_source(v, id) && v[slot(v, id)].1 == AdapterState::Failed
}

/// Whether a packet of `codec` from `id` is to be decoded at all.
pub open spec fn decodes(v: Seq<SourceView>, id: SourceId, codec: Codec) -> bool {
    supported(codec) && !source_failed(v, id)
}

/// The sources after one packet was handled.
pub open spec fn handled_view(
    v: Seq<SourceView>,
    cap: Option<usize>,
    id: SourceId,
    codec: Codec,
    outcome: DecodeOutcome,
) -> Seq<SourceView> {
    if !decodes(v, id, codec) {
        v
    } else {
        match outcome {
            DecodeOutcome::Malformed => v,
            DecodeOutcome::InitFailed => if has_source(v, id) {
                v.update(slot(v, id), (id, AdapterState::Failed, v[slot(v, id)].2))
            } else {
                v.push((id, AdapterState::Failed, Seq::empty()))
            },
            DecodeOutcome::Decoded(f) => if has_source(v, id) {
                v.update(slot(v, id), (id, AdapterState::Ready, bounded(v[slot(v, id)].2 + f@, cap)))
            } else {
                v.push((id, AdapterState::Ready, bounded(f@, cap)))
            },
        }
    }
}

/// What handling one packet reports.
pub open spec fn handled_result(
    v: Seq<SourceView>,
    id: SourceId,
    codec: Codec,
    outcome: DecodeOutcome,
) -> Result<(), PacketError> {
    if !supported(codec) {
        Err(PacketError::UnsupportedCodec)
    } else if source_failed(v, id) {
        Err(PacketError::SourceDisabled)
    } else {
        match outcome {
            DecodeOutcome::Malformed => Err(PacketError::MalformedPacket),
            DecodeOutcome::InitFailed => Err(PacketError::DecoderInitFailed),
            DecodeOutcome::Decoded(_) => Ok(()),
        }
    }
}

/// Sample `i` of a backlog, silence past its end.
pub open spec fn sample_at(q: Seq<i16>, i: int) -> int {
    if 0 <= i < q.len() {
        q[i] as int
    } else {
        0
    }
}

/// Sum of sample `i` over the first `k` sources.
pub open spec fn mix_prefix(v: Seq<SourceView>, k: int, i: int) -> int
    decreases k,
{
    if k <= 0 {
        0
    } else {
        mix_prefix(v, k - 1, i) + sample_at(v[k - 1].2, i)
    }
}

/// Sample `i` of the mix of every source's backlog.
pub open spec fn mix_at(v: Seq<SourceView>, i: int) -> int {
    mix_prefix(v, v.len() as int, i)
}

/// A source after `n` samples were pulled from it.
pub open spec fn drain_entry(e: SourceView, n: int) -> SourceView {
    (e.0, e.1, e.2.skip(pulled_len(e.2.len() as int, n)))
}

/// Every source after one device period of `n` samples.
pub open spec fn drain_all(v: Seq<SourceView>, n: int) -> Seq<SourceView> {
    Seq::new(v.len(), |j: int| drain_entry(v[j], n))
}

/// Every source after `k` device periods of `n` samples each.
pub open spec fn drain_periods(v: Seq<SourceView>, n: int, k: nat) -> Seq<SourceView>
    decreases k,
{
    if k == 0 {
        v
    } else {
        drain_periods(drain_all(v, n), n, (k - 1) as nat)
    }
}

pub open spec fn all_empty(v: Seq<SourceView>) -> bool {
    forall|j: int| 0 <= j < v.len() ==> v[j].2.len() == 0
}

proof fn lemma_mix_bound(v: Seq<SourceView>, k: int, i: int)
    requires
        0 <= k <= v.len(),
    ensures
        -32768 * k <= mix_prefix(v, k, i) <= 32767 * k,
    decreases k,
{
    if k > 0 {
        lemma_mix_bound(v, k - 1, i);
    }
}

/// A packet whose codec is not decoded leaves every source as it was and
/// is reported as unsupported.
pub proof fn lemma_unsupported_codec_keeps_sources(
    v: Seq<SourceView>,
    cap: Option<usize>,
    id: SourceId,
    codec: Codec,
    outcome: DecodeOutcome,
)
    requires
        !supported(codec),
    ensures
        handled_view(v, cap, id, codec, outcome) == v,
        handled_result(v, id, codec, outcome) == Err::<(), PacketError>(PacketError::UnsupportedCodec),
{
}

/// With no new packets, `k` periods of `n > 0` samples empty every backlog
/// of at most `k * n` samples; from then on every mixed period is silence.
pub proof fn lemma_periods_drain(v: Seq<SourceView>, n: int, k: nat)
    requires
        n > 0,
        forall|j: int| 0 <= j < v.len() ==> v[j].2.len() <= k * n,
    ensures
        drain_periods(v, n, k).len() == v.len(),
        all_empty(drain_periods(v, n, k)),
        forall|i: int| mix_at(drain_periods(v, n, k), i) == 0,
    decreases k,
{
    if k == 0 {
        assert forall|j: int| 0 <= j < v.len() implies v[j].2.len() == 0 by {
            assert(k * n == 0) by (nonlinear_arith)
                requires
                    k == 0,
            ;
        };
    } else {
        let d = drain_all(v, n);
        let km1 = (k - 1) as nat;
        assert forall|j: int| 0 <= j < d.len() implies d[j].2.len() <= km1 * n by {
            assert(km1 * n == k * n - n) by (nonlinear_arith)
                requires
                    km1 == k - 1,
            ;
            assert(km1 * n >= 0) by (nonlinear_arith)
                requires
                    n > 0,
            ;
        };
        lemma_periods_drain(d, n, km1);
    }
    assert forall|i: int| mix_at(drain_periods(v, n, k), i) == 0 by {
        lemma_idle_mix_is_silence(drain_periods(v, n, k), i);
    };
}

/// With nothing queued anywhere, every mixed sample is silence.
pub proof fn lemma_idle_mix_is_silence(v: Seq<SourceView>, i: int)
    requires
        all_empty(v),
    ensures
        mix_at(v, i) == 0,
{
    lemma_idle_prefix(v, v.len() as int, i);
}

proof fn lemma_idle_prefix(v: Seq<SourceView>, k: int, i: int)
    requires
        all_empty(v),
        0 <= k <= v.len(),
    ensures
        mix_prefix(v, k, i) == 0,
    decreases k,
{
    if k > 0 {
        lemma_idle_prefix(v, k - 1, i);
    }
}

proof fn lemma_mix_prefix_push(v: Seq<SourceView>, x: SourceView, k: int, i: int)
    requires
        0 <= k <= v.len(),
    ensures
        mix_prefix(v.push(x), k, i) == mix_prefix(v, k, i),
    decreases k,
{
    if k > 0 {
        lemma_mix_prefix_push(v, x, k - 1, i);
    }
}

proof fn lemma_mix_push(v: Seq<SourceView>, x: SourceView, i: int)
    ensures
        mix_at(v.push(x), i) == mix_at(v, i) + sample_at(x.2, i),
{
    lemma_mix_prefix_push(v, x, v.len() as int, i);
}

/// Mixing is a plain sum: two sources joining in either order give the
/// same samples, each the sum of the two sources' samples on top of the
/// rest of the mix.
pub proof fn lemma_mix_commutes(v: Seq<SourceView>, a: SourceView, b: SourceView, i: int)
    ensures
        mix_at(v.push(a).push(b), i) == mix_at(v.push(b).push(a), i),
        mix_at(v.push(a).push(b), i) == mix_at(v, i) + sample_at(a.2, i) + sample_at(b.2, i),
{
    lemma_mix_push(v, a, i);
    lemma_mix_push(v.push(a), b, i);
    lemma_mix_push(v, b, i);
    lemma_mix_push(v.push(b), a, i);
}

impl View for MixRegistry {
    type V = Seq<SourceView>;

    closed spec fn view(&self) -> Seq<SourceView> {
        self.entries@.map_values(|e: SourceEntry| (e.id, e.state, e.queue@))
    }
}

impl MixRegistry {
    /// Registry invariant: one entry per source.
    pub open spec fn wf(&self) -> bool {
        unique_ids(self@)
    }

    /// Bound on each backlog, if one was set.
    pub closed spec fn backlog_cap(&self) -> Option<usize> {
        self.cap
    }

    /// A registry with no sources and unbounded backlogs.
    pub fn new() -> (r: MixRegistry)
        ensures
            r.wf(),
            r@ == Seq::<SourceView>::empty(),
            r.backlog_cap() == None::<usize>,
    {
        let r = MixRegistry { entries: Vec::new(), cap: None };
        assert(r@ =~= Seq::<SourceView>::empty());
        r
    }

    /// A registry with no sources whose backlogs keep at most `cap` samples
    /// each, dropping the oldest past that; the bound holds at least one
    /// nominal frame.
    pub fn with_backlog_cap(cap: usize) -> (r: MixRegistry)
        requires
            cap >= USUAL_FRAME_SIZE * CHANNELS,
        ensures
            r.wf(),
            r@ == Seq::<SourceView>::empty(),
            r.backlog_cap() == Some(cap),
    {
        let r = MixRegistry { entries: Vec::new(), cap: Some(cap) };
        assert(r@ =~= Seq::<SourceView>::empty());
        r
    }

    /// Number of sources that ever sent audio.
    pub fn len(&self) -> (r: usize)
        ensures
            r == self@.len(),
    {
        self.entries.len()
    }

    fn find(&self, id: SourceId) -> (r: Option<usize>)
        requires
            self.wf(),
        ensures
            r is None <==> !has_source(self@, id),
            r matches Some(i) ==> i < self@.len() && i == slot(self@, id),
    {
        let mut i: usize = 0;
        while i < self.entries.len()
            invariant
                self.wf(),
                i <= self@.len(),
                self@.len() == self.entries@.len(),
                forall|k: int| 0 <= k < i ==> self@[k].0 != id,
            decreases self.entries@.len() - i,
        {
            if self.entries[i].id == id {
                assert(self@[i as int].0 == id);
                assert(has_source(self@, id));
                assert(slot(self@, id) == i) by {
                    let s = slot(self@, id);
                    assert(self@[s].0 == id);
                    if s < i {
                        assert(self@[s].0 != self@[i as int].0);
                    } else if s > i {
                        assert(self@[i as int].0 != self@[s].0);
                    }
                };
                return Some(i);
            }
            i = i + 1;
        }
        None
    }

    /// Whether a packet of `codec` from `id` is to be decoded: its codec is
    /// supported and the source is not disabled.
    pub fn needs_decode(&self, id: SourceId, codec: Codec) -> (r: bool)
        requires
            self.wf(),
        ensures
            r == decodes(self@, id, codec),
    {
        if !codec.is_supported() {
            return false;
        }
        match self.find(id) {
            Some(i) => self.entries[i].state != AdapterState::Failed,
            None => true,
        }
    }

    /// Handles one inbound packet of `codec` from `id`, given what its
    /// decoder made of it. An unsupported codec or a disabled source drops
    /// the packet with no change; a decoded frame is queued behind the
    /// source's backlog, creating the source on its first frame; a failed
    /// decoder creation disables the source for good; a malformed payload
    /// changes nothing.
    pub fn handle_decoded(&mut self, id: SourceId, codec: Codec, outcome: DecodeOutcome) -> (r:
        Result<(), PacketError>)
        requires
            old(self).wf(),
        ensures
            final(self).wf(),
            final(self).backlog_cap() == old(self).backlog_cap(),
            final(self)@ == handled_view(old(self)@, old(self).backlog_cap(), id, codec, outcome),
            r == handled_result(old(self)@, id, codec, outcome),
    {
        if !codec.is_supported() {
            return Err(PacketError::UnsupportedCodec);
        }
        let ghost v = self@;
        match self.find(id) {
            Some(i) => {
                if self.entries[i].state == AdapterState::Failed {
                    return Err(PacketError::SourceDisabled);
                }
                match outcome {
                    DecodeOutcome::Malformed => Err(PacketError::MalformedPacket),
                    DecodeOutcome::InitFailed => {
                        self.entries[i].state = AdapterState::Failed;
                        assert(self@ =~= v.update(i as int, (id, AdapterState::Failed, v[i as int].2)));
                        Err(PacketError::DecoderInitFailed)
                    },
                    DecodeOutcome::Decoded(f) => {
                        let cap = self.cap;
                        self.entries[i].queue.push_bounded(&f, cap);
                        assert(self@ =~= v.update(
                            i as int,
                            (id, AdapterState::Ready, bounded(v[i as int].2 + f@, cap)),
                        ));
                        Ok(())
                    },
                }
            },
            None => {
                match outcome {
                    DecodeOutcome::Malformed => Err(PacketError::MalformedPacket),
                    DecodeOutcome::InitFailed => {
                        let e = SourceEntry {
                            id,
                            state: AdapterState::Failed,
                            queue: SourceQueue::new(),
                        };
                        self.entries.push(e);
                        assert(self@ =~= v.push((id, AdapterState::Failed, Seq::empty())));
                        Err(PacketError::DecoderInitFailed)
                    },
                    DecodeOutcome::Decoded(f) => {
                        let mut q = SourceQueue::new();
                        q.push_bounded(&f, self.cap);
                        assert(Seq::<i16>::empty() + f@ =~= f@);
                        let e = SourceEntry { id, state: AdapterState::Ready, queue: q };
                        self.entries.push(e);
                        assert(self@ =~= v.push((id, AdapterState::Ready, bounded(f@, self.cap))));
                        Ok(())
                    },
                }
            },
        }
    }

    /// Whether every source's backlog is empty.
    pub fn is_empty(&self) -> (r: bool)
        ensures
            r == all_empty(self@),
    {
        let mut j: usize = 0;
        while j < self.entries.len()
            invariant
                j <= self@.len(),
                self@.len() == self.entries@.len(),
                forall|k: int| 0 <= k < j ==> self@[k].2.len() == 0,
            decreases self.entries@.len() - j,
        {
            if !self.entries[j].queue.is_empty() {
                assert(self@[j as int].2.len() != 0);
                return false;
            }
            j = j + 1;
        }
        true
    }

    /// Fills one device period: clears `buffer` to silence, then pulls
    /// `buffer.len()` samples from every non-empty backlog and adds them in,
    /// with no normalization or limiting. The accumulator is wide enough
    /// that no number of 16-bit sources can make it wrap.
    pub fn fill_output_buffer(&mut self, buffer: &mut Vec<i128>)
        requires
            old(self).wf(),
        ensures
            final(self).wf(),
            final(self).backlog_cap() == old(self).backlog_cap(),
            final(buffer)@.len() == old(buffer)@.len(),
            forall|i: int|
                0 <= i < final(buffer)@.len() ==> final(buffer)@[i] as int == mix_at(old(self)@, i),
            final(self)@ == drain_all(old(self)@, old(buffer)@.len() as int),
    {
        let ghost v = self@;
        let n = buffer.len();
        let mut i: usize = 0;
        while i < n
            invariant
                n == buffer@.len(),
                i <= n,
                forall|k: int| 0 <= k < i ==> buffer@[k] == 0,
            decreases n - i,
        {
            buffer.set(i, 0);
            i = i + 1;
        }
        let count = self.entries.len();
        assert(v.len() == count);
        let mut j: usize = 0;
        while j < self.entries.len()
            invariant
                v.len() <= usize::MAX,
                unique_ids(v),
                self.cap == old(self).cap,
                self@.len() == v.len(),
                self.entries@.len() == v.len(),
                j <= v.len(),
                n == buffer@.len(),
                forall|k: int| 0 <= k < j ==> self@[k] == drain_entry(v[k], n as int),
                forall|k: int| j <= k < v.len() ==> self@[k] == v[k],
                forall|k: int| 0 <= k < n ==> buffer@[k] as int == mix_prefix(v, j as int, k),
            decreases v.len() - j,
        {
            let ghost before = self@;
            if !self.entries[j].queue.is_empty() {
                let pulled = self.entries[j].queue.pull(n);
                assert(self@ =~= before.update(j as int, drain_entry(v[j as int], n as int)));
                let mut k: usize = 0;
                while k < pulled.len()
                    invariant
                        v.len() <= usize::MAX,
                        j < v.len(),
                        n == buffer@.len(),
                        pulled@ == v[j as int].2.take(pulled_len(v[j as int].2.len() as int, n as int)),
                        k <= pulled@.len(),
                        pulled@.len() <= n,
                        forall|m: int|
                            0 <= m < n ==> buffer@[m] as int == mix_prefix(v, j as int, m) + (if m
                                < k {
                                sample_at(v[j as int].2, m)
                            } else {
                                0
                            }),
                    decreases pulled@.len() - k,
                {
                    proof {
                        lemma_mix_bound(v, j as int, k as int);
                    }
                    let s = buffer[k] + pulled[k] as i128;
                    buffer.set(k, s);
                    k = k + 1;
                }
                assert forall|m: int| 0 <= m < n implies buffer@[m] as int == mix_prefix(
                    v,
                    j + 1,
                    m,
                ) by {
                    assert(mix_prefix(v, j + 1, m) == mix_prefix(v, j as int, m) + sample_at(
                        v[j as int].2,
                        m,
                    ));
                    if m >= pulled@.len() {
                        assert(sample_at(v[j as int].2, m) == 0);
                    }
                };
            } else {
                assert forall|m: int| 0 <= m < n implies buffer@[m] as int == mix_prefix(
                    v,
                    j + 1,
                    m,
                ) by {
                    assert(mix_prefix(v, j + 1, m) == mix_prefix(v, j as int, m) + sample_at(
                        v[j as int].2,
                        m,
                    ));
                    assert(sample_at(v[j as int].2, m) == 0);
                };
                assert(v[j as int].2.skip(0) =~= v[j as int].2);
            }
            j = j + 1;
        }
        assert(self@ =~= drain_all(v, n as int));
    }
}

} // verus!
