//! Playback side of the bridge: the mix registry together with the
//! fixed-point mirror of the last played buffer, kept under one lock by the
//! caller, and the device decisions that depend on them.
use vstd::prelude::*;

use crate::codec::{Codec, CHANNELS, USUAL_FRAME_SIZE};
use crate::convert::{fixed_buffer, fixed_of};
use crate::registry::{
    all_empty, decodes, drain_all, has_source, slot, handled_result, handled_view, mix_at, unique_ids,
    DecodeOutcome, MixRegistry, PacketError, SourceId, SourceView,
};
use crate::supervisor::{packet_command, tick_command, tick_command_of, DeviceCommand, DeviceStatus};

verus! {

/// Registry of sources and the diagnostic mirror of the last played buffer.
pub struct TsToAudio {
    data: MixRegistry,
    buffer_i16: Vec<i16>,
}

/// Result of a handled packet: the device command owed for it on success.
pub open spec fn played_result(
    handled: Result<(), PacketError>,
    status: DeviceStatus,
) -> Result<DeviceCommand, PacketError> {
    match handled {
        Ok(_) => Ok(
            if status == DeviceStatus::Paused {
                DeviceCommand::Resume
            } else {
                DeviceCommand::Keep
            },
        ),
        Err(e) => Err(e),
    }
}

/// A silence gap after a burst of frames: once all backlogs are empty the
/// next tick pauses a playing device; a valid frame then queued from a
/// working source resumes the device at once, without waiting for a tick,
/// and becomes that source's whole backlog (a new source gets one entry).
pub proof fn lemma_gap_pauses_then_packet_resumes(
    v: Seq<SourceView>,
    cap: Option<usize>,
    id: SourceId,
    codec: Codec,
    frame: Vec<i16>,
)
    requires
        cap matches Some(c) ==> frame@.len() <= c,
        all_empty(v),
        unique_ids(v),
        decodes(v, id, codec),
    ensures
        tick_command_of(DeviceStatus::Playing, all_empty(v)) == DeviceCommand::Pause,
        played_result(handled_result(v, id, codec, DecodeOutcome::Decoded(frame)), DeviceStatus::Paused)
            == Ok::<DeviceCommand, PacketError>(DeviceCommand::Resume),
        ({
            let w = handled_view(v, cap, id, codec, DecodeOutcome::Decoded(frame));
            &&& has_source(w, id)
            &&& w[slot(w, id)].2 == frame@
            &&& w.len() == v.len() + (if has_source(v, id) {
                0int
            } else {
                1int
            })
        }),
{
    let w = handled_view(v, cap, id, codec, DecodeOutcome::Decoded(frame));
    assert(Seq::<i16>::empty() + frame@ =~= frame@);
    if has_source(v, id) {
        let k = slot(v, id);
        assert(v[k].2.len() == 0);
        assert(v[k].2 + frame@ =~= frame@);
        assert(w[k].0 == id);
        let s = slot(w, id);
        assert(w[s].0 == id);
        if s != k {
            assert(v[s].0 == id);
            if s < k {
                assert(v[s].0 != v[k].0);
            } else {
                assert(v[k].0 != v[s].0);
            }
        }
    } else {
        let k = v.len() as int;
        assert(w[k].0 == id);
        let s = slot(w, id);
        assert(w[s].0 == id);
        if s != k {
            assert(v[s].0 == id);
        }
    }
}

impl TsToAudio {
    /// Every source with its decoder state and backlog.
    pub closed spec fn sources(&self) -> Seq<SourceView> {
        self.data@
    }

    /// Fixed-point copy of the last played buffer.
    pub closed spec fn mirror(&self) -> Seq<i16> {
        self.buffer_i16@
    }

    /// Bound on each source's backlog, if one was set.
    pub closed spec fn backlog_cap(&self) -> Option<usize> {
        self.data.backlog_cap()
    }

    pub open spec fn wf(&self) -> bool {
        unique_ids(self.sources())
    }

    /// No sources yet, unbounded backlogs, and an empty mirror.
    pub fn new() -> (r: TsToAudio)
        ensures
            r.wf(),
            r.sources() == Seq::<SourceView>::empty(),
            r.backlog_cap() == None::<usize>,
            r.mirror() == Seq::<i16>::empty(),
    {
        TsToAudio { data: MixRegistry::new(), buffer_i16: Vec::new() }
    }

    /// No sources yet, backlogs bounded by `cap` samples each (oldest
    /// dropped first), and an empty mirror. The bound holds at least one
    /// nominal frame.
    pub fn with_backlog_cap(cap: usize) -> (r: TsToAudio)
        requires
            cap >= USUAL_FRAME_SIZE * CHANNELS,
        ensures
            r.wf(),
            r.sources() == Seq::<SourceView>::empty(),
            r.backlog_cap() == Some(cap),
            r.mirror() == Seq::<i16>::empty(),
    {
        TsToAudio { data: MixRegistry::with_backlog_cap(cap), buffer_i16: Vec::new() }
    }

    /// Whether a packet of `codec` from `id` is to go through a decoder.
    pub fn needs_decode(&self, id: SourceId, codec: Codec) -> (r: bool)
        requires
            self.wf(),
        ensures
            r == decodes(self.sources(), id, codec),
    {
        self.data.needs_decode(id, codec)
    }

    /// Queues one packet's decode outcome for `id` and says what the
    /// device, found in `status`, is to do about it: a paused device
    /// resumes at once after a queued frame.
    pub fn play_packet(
        &mut self,
        id: SourceId,
        codec: Codec,
        outcome: DecodeOutcome,
        status: DeviceStatus,
    ) -> (r: Result<DeviceCommand, PacketError>)
        requires
            old(self).wf(),
        ensures
            final(self).wf(),
            final(self).backlog_cap() == old(self).backlog_cap(),
            final(self).sources() == handled_view(
                old(self).sources(),
                old(self).backlog_cap(),
                id,
                codec,
                outcome,
            ),
            final(self).mirror() == old(self).mirror(),
            r == played_result(handled_result(old(self).sources(), id, codec, outcome), status),
    {
        match self.data.handle_decoded(id, codec, outcome) {
            Ok(()) => Ok(packet_command(status)),
            Err(e) => Err(e),
        }
    }

    /// Pause/resume decision of a supervisory tick for a device in `status`
    /// after any reopen.
    pub fn tick(&self, status: DeviceStatus) -> (r: DeviceCommand)
        requires
            self.wf(),
        ensures
            r == tick_command_of(status, all_empty(self.sources())),
    {
        let empty = self.data.is_empty();
        tick_command(status, empty)
    }

    /// Device callback: mixes one period into `buffer` (see
    /// `MixRegistry::fill_output_buffer`).
    pub fn callback(&mut self, buffer: &mut Vec<i128>)
        requires
            old(self).wf(),
        ensures
            final(self).wf(),
            final(self).backlog_cap() == old(self).backlog_cap(),
            final(self).mirror() == old(self).mirror(),
            final(buffer)@.len() == old(buffer)@.len(),
            forall|i: int|
                0 <= i < final(buffer)@.len() ==> final(buffer)@[i] as int == mix_at(
                    old(self).sources(),
                    i,
                ),
            final(self).sources() == drain_all(old(self).sources(), old(buffer)@.len() as int),
    {
        self.data.fill_output_buffer(buffer);
    }

    /// Overwrites the mirror with the fixed-point form of the buffer just
    /// played, given as samples scaled by `65535 * 1.6` and truncated.
    pub fn store_mirror(&mut self, scaled: &Vec<i64>)
        ensures
            final(self).sources() == old(self).sources(),
            final(self).backlog_cap() == old(self).backlog_cap(),
            final(self).mirror().len() == scaled@.len(),
            forall|i: int|
                0 <= i < scaled@.len() ==> final(self).mirror()[i] == fixed_of(scaled@[i] as int),
    {
        self.buffer_i16 = fixed_buffer(scaled);
    }

    /// A copy of the mirror.
    pub fn get_buff_i16(&self) -> (r: Vec<i16>)
        ensures
            r@ == self.mirror(),
    {
        let mut r: Vec<i16> = Vec::with_capacity(self.buffer_i16.len());
        let mut i: usize = 0;
        while i < self.buffer_i16.len()
            invariant
                i <= self.buffer_i16@.len(),
                r@ == self.buffer_i16@.take(i as int),
            decreases self.buffer_i16@.len() - i,
        {
            r.push(self.buffer_i16[i]);
            i = i + 1;
            assert(r@ =~= self.buffer_i16@.take(i as int));
        }
        assert(self.buffer_i16@.take(i as int) =~= self.buffer_i16@);
        r
    }
}

} // verus!
