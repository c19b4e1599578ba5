//! The stream merge/filter engine: concatenates filtered packet streams
//! from an ordered list of inputs onto one re-based timeline and aggregates
//! their session metadata.
//!
//! Each input's packets are re-timed by a running offset; the offset
//! advances after each input by that input's *reported* duration plus a
//! configured inter-stream gap — never by the last packet's timestamp, so
//! gaps are deterministic even if a stream under- or over-runs its declared
//! duration.  Packets from every input but the first are additionally
//! suppressed while their stream is not yet in the `Play` phase, and a
//! configurable reset identifier is dropped from those inputs even within
//! `Play`, so that a later recording's re-login sequence or world reset
//! cannot disturb the session already established by the first input.

use vstd::prelude::*;

use crate::filter::PacketFilterMask;
use crate::mcpr::{next_state, packet_models, MetaData, MetaDataModel, Packet, PacketModel, State};

verus! {

/// One merge input: its packet records, in stream order, and its metadata.
pub struct ReplayInput {
    /// The input's packet records, as read from its packet entry.
    pub packets: Vec<Packet>,
    /// The input's session metadata.
    pub meta: MetaData,
}

/// The mathematical content of a [`ReplayInput`].
pub struct ReplayInputModel {
    /// The input's packet records.
    pub packets: Seq<PacketModel>,
    /// The input's session metadata.
    pub meta: MetaDataModel,
}

impl View for ReplayInput {
    type V = ReplayInputModel;

    open spec fn view(&self) -> ReplayInputModel {
        ReplayInputModel { packets: packet_models(self.packets@), meta: self.meta@ }
    }
}

/// The models of a sequence of merge inputs.
pub open spec fn input_models(inputs: Seq<ReplayInput>) -> Seq<ReplayInputModel> {
    inputs.map_values(|x: ReplayInput| x@)
}

/// No participant identifier occurs twice.
pub open spec fn players_unique(s: Seq<u128>) -> bool {
    forall|i: int, j: int| 0 <= i < j < s.len() ==> s[i] != s[j]
}

/// Whether the merge forwards a packet with identifier `id`, read in phase
/// `st`, from the first (`first`) or a subsequent input: the filter mask
/// must pass it, and a subsequent input's packet must also have been read
/// in the `Play` phase and not carry the configured reset identifier.
pub open spec fn keep_packet(
    mask: PacketFilterMask,
    first: bool,
    st: State,
    id: i32,
    reset: Option<i32>,
) -> bool {
    mask.spec_admits(id) && (first || (st is Play && reset != Some(id)))
}

/// The packet re-based onto the merged timeline.  The guard keeps the
/// definition total; the merge only runs where every re-based time fits.
pub open spec fn rebase_packet(p: PacketModel, off: int) -> PacketModel {
    PacketModel {
        time: if 0 <= p.time + off <= u32::MAX {
            (p.time + off) as u32
        } else {
            p.time
        },
        id: p.id,
        data: p.data,
    }
}

/// Every packet time in `ps`, shifted by `off`, fits the wire format.
pub open spec fn times_fit(ps: Seq<PacketModel>, off: int) -> bool {
    forall|i: int| 0 <= i < ps.len() ==> ps[i].time + off <= u32::MAX
}

/// The packets one input contributes to the merge: walked in order from the
/// `st` phase, filtered by [`keep_packet`], and re-based by `off`.
pub open spec fn merge_seq(
    ps: Seq<PacketModel>,
    st: State,
    off: int,
    mask: PacketFilterMask,
    first: bool,
    reset: Option<i32>,
) -> Seq<PacketModel>
    decreases ps.len(),
{
    if ps.len() == 0 {
        Seq::empty()
    } else {
        let rest = merge_seq(ps.drop_first(), next_state(st, ps[0].id), off, mask, first, reset);
        if keep_packet(mask, first, st, ps[0].id, reset) {
            seq![rebase_packet(ps[0], off)] + rest
        } else {
            rest
        }
    }
}

/// The running offset before input `k`: the durations of all earlier
/// inputs, each followed by the inter-stream gap.
pub open spec fn stream_offset(inputs: Seq<ReplayInputModel>, gap: u32, k: int) -> int
    decreases k,
{
    if k <= 0 {
        0
    } else {
        stream_offset(inputs, gap, k - 1) + inputs[k - 1].meta.duration + gap
    }
}

/// The merged session's total duration: the sum of every input's reported
/// duration plus one inter-stream gap between each adjacent pair.
pub open spec fn merged_duration(inputs: Seq<ReplayInputModel>, gap: u32) -> int {
    if inputs.len() == 0 {
        0
    } else {
        stream_offset(inputs, gap, inputs.len() - 1) + inputs.last().meta.duration
    }
}

/// The union of the participant sets of the first `k` inputs.
pub open spec fn players_union(inputs: Seq<ReplayInputModel>, k: int) -> Set<u128>
    decreases k,
{
    if k <= 0 {
        Set::empty()
    } else {
        players_union(inputs, k - 1).union(inputs[k - 1].meta.players.to_set())
    }
}

/// The packets the merge emits, from input `k` onwards: each input's
/// contribution in list order, scanned from the `Login` phase at its own
/// running offset.
pub open spec fn merged_packets(
    inputs: Seq<ReplayInputModel>,
    gap: u32,
    mask: PacketFilterMask,
    reset: Option<i32>,
    k: int,
) -> Seq<PacketModel>
    decreases inputs.len() - k,
{
    if k < 0 || k >= inputs.len() {
        Seq::empty()
    } else {
        merge_seq(
            inputs[k].packets,
            State::Login,
            stream_offset(inputs, gap, k),
            mask,
            k == 0,
            reset,
        ) + merged_packets(inputs, gap, mask, reset, k + 1)
    }
}

/// The machine limits under which the merge runs: the summed timeline fits
/// the metadata's `u64`, and every re-based packet time fits the wire
/// format's `u32`.
pub open spec fn merge_fits(inputs: Seq<ReplayInputModel>, gap: u32) -> bool {
    &&& merged_duration(inputs, gap) <= u64::MAX
    &&& forall|k: int|
        0 <= k < inputs.len() ==> times_fit(
            #[trigger] inputs[k].packets,
            stream_offset(inputs, gap, k),
        )
}

/// The running offset never decreases along the input list.
pub proof fn lemma_stream_offset_monotone(
    inputs: Seq<ReplayInputModel>,
    gap: u32,
    k1: int,
    k2: int,
)
    requires
        k1 <= k2,
    ensures
        stream_offset(inputs, gap, k1) <= stream_offset(inputs, gap, k2),
    decreases k2 - k1,
{
    if k1 < k2 {
        lemma_stream_offset_monotone(inputs, gap, k1, k2 - 1);
    }
}

/// Every running offset is bounded by the merged duration.
pub proof fn lemma_stream_offset_le_duration(inputs: Seq<ReplayInputModel>, gap: u32, k: int)
    requires
        0 <= k < inputs.len(),
    ensures
        stream_offset(inputs, gap, k) <= merged_duration(inputs, gap),
{
    lemma_stream_offset_monotone(inputs, gap, k, inputs.len() - 1);
}

/// No participant is ever removed: each further input only grows the
/// accumulated participant set.
pub proof fn lemma_players_union_monotone(inputs: Seq<ReplayInputModel>, k: int)
    ensures
        players_union(inputs, k).subset_of(players_union(inputs, k + 1)),
{
    if k + 1 <= 0 {
        assert(players_union(inputs, k) =~= Set::<u128>::empty());
    }
}

/// Suppression of subsequent inputs: whatever the filter mask says, a
/// packet from any input but the first is dropped if it was not read in the
/// `Play` phase, and a packet carrying the configured reset identifier is
/// dropped from such inputs even within `Play`.
pub proof fn lemma_subsequent_input_suppression(
    mask: PacketFilterMask,
    st: State,
    id: i32,
    reset: Option<i32>,
)
    ensures
        !(st is Play) ==> !keep_packet(mask, false, st, id, reset),
        reset == Some(id) ==> !keep_packet(mask, false, st, id, reset),
{
}

/// Whether `v` holds `x`.
fn contains_u128(v: &Vec<u128>, x: u128) -> (b: bool)
    ensures
        b == v@.contains(x),
{
    let mut i: usize = 0;
    while i < v.len()
        invariant
            i <= v@.len(),
            forall|j: int| 0 <= j < i ==> v@[j] != x,
        decreases v@.len() - i,
    {
        if v[i] == x {
            return true;
        }
        i = i + 1;
    }
    false
}

/// Add every identifier of `more` that `acc` does not yet hold: a set
/// union that keeps uniqueness.
fn union_players(acc: &mut Vec<u128>, more: &Vec<u128>)
    requires
        players_unique(old(acc)@),
    ensures
        players_unique(final(acc)@),
        final(acc)@.to_set() == old(acc)@.to_set().union(more@.to_set()),
{
    let mut j: usize = 0;
    while j < more.len()
        invariant
            j <= more@.len(),
            players_unique(acc@),
            forall|a: u128|
                #[trigger] acc@.contains(a) <==> old(acc)@.contains(a) || (exists|u: int|
                    0 <= u < j && more@[u] == a),
        decreases more@.len() - j,
    {
        let x = more[j];
        let ghost before = acc@;
        let present = contains_u128(acc, x);
        if !present {
            acc.push(x);
        }
        proof {
            if !present {
                assert(acc@ =~= before.push(x));
                assert forall|a: int, b: int| 0 <= a < b < acc@.len() implies acc@[a] != acc@[b] by {
                    if b == acc@.len() - 1 {
                        if acc@[a] == x {
                            assert(before[a] == x);
                            assert(before.contains(x));
                        }
                    }
                }
            }
            assert forall|a: u128| #[trigger] acc@.contains(a) implies old(acc)@.contains(a) || (
            exists|u: int| 0 <= u < j + 1 && more@[u] == a) by {
                let w = choose|w: int| 0 <= w < acc@.len() && acc@[w] == a;
                if w < before.len() {
                    assert(before[w] == a);
                    assert(before.contains(a));
                } else {
                    assert(a == x);
                    assert(more@[j as int] == a);
                }
            }
            assert forall|a: u128|
                old(acc)@.contains(a) || (exists|u: int| 0 <= u < j + 1 && more@[u] == a)
                implies #[trigger] acc@.contains(a) by {
                if old(acc)@.contains(a) || (exists|u: int| 0 <= u < j && more@[u] == a) {
                    assert(before.contains(a));
                    let w = choose|w: int| 0 <= w < before.len() && before[w] == a;
                    assert(acc@[w] == a);
                } else {
                    assert(a == x);
                    if present {
                        assert(before.contains(x));
                        let w = choose|w: int| 0 <= w < before.len() && before[w] == x;
                        assert(acc@[w] == x);
                    } else {
                        assert(acc@[acc@.len() - 1] == x);
                    }
                }
            }
        }
        j = j + 1;
    }
    proof {
        assert(final(acc)@.to_set() =~= old(acc)@.to_set().union(more@.to_set())) by {
            assert forall|a: u128|
                final(acc)@.to_set().contains(a) == old(acc)@.to_set().union(
                    more@.to_set(),
                ).contains(a) by {
                assert(acc@.contains(a) <==> old(acc)@.contains(a) || (exists|u: int|
                    0 <= u < more@.len() && more@[u] == a));
            }
        }
    }
}

/// Walk one input's packets from the `Login` phase, appending each kept
/// packet — re-based by `off` — to `out`.
fn merge_one_input(
    packets: &Vec<Packet>,
    off: u64,
    mask: &PacketFilterMask,
    first: bool,
    reset: Option<i32>,
    out: &mut Vec<Packet>,
)
    requires
        mask.wf(),
        times_fit(packet_models(packets@), off as int),
    ensures
        packet_models(final(out)@) == packet_models(old(out)@) + merge_seq(
            packet_models(packets@),
            State::Login,
            off as int,
            *mask,
            first,
            reset,
        ),
{
    let ghost ms = packet_models(packets@);
    let mut st = State::Login;
    let mut i: usize = 0;
    proof {
        assert(ms.skip(0) =~= ms);
    }
    while i < packets.len()
        invariant
            mask.wf(),
            i <= packets@.len(),
            ms == packet_models(packets@),
            times_fit(ms, off as int),
            packet_models(out@) + merge_seq(ms.skip(i as int), st, off as int, *mask, first, reset)
                == packet_models(old(out)@) + merge_seq(ms, State::Login, off as int, *mask, first, reset),
        decreases packets@.len() - i,
    {
        let p = &packets[i];
        let ghost rem = ms.skip(i as int);
        proof {
            assert(rem[0] == ms[i as int]);
            assert(rem.drop_first() =~= ms.skip(i + 1));
        }
        let id = p.id();
        let keep = mask.admits(id) && (first || (matches!(st, State::Play) && !matches!(reset, Some(r) if r == id)));
        if keep {
            let q = p.with_time((p.time() as u64 + off) as u32);
            let ghost before = out@;
            out.push(q);
            proof {
                assert(packet_models(out@) =~= packet_models(before) + seq![q@]);
                assert(q@ == rebase_packet(rem[0], off as int));
                assert(packet_models(before) + (seq![q@] + merge_seq(
                    rem.drop_first(),
                    next_state(st, id),
                    off as int,
                    *mask,
                    first,
                    reset,
                )) =~= (packet_models(before) + seq![q@]) + merge_seq(
                    rem.drop_first(),
                    next_state(st, id),
                    off as int,
                    *mask,
                    first,
                    reset,
                ));
            }
        }
        st = crate::mcpr::advance_state(st, id);
        i = i + 1;
    }
    proof {
        assert(ms.skip(packets@.len() as int) =~= Seq::<PacketModel>::empty());
    }
}

/// The merge engine's configuration: the filter mask, the inter-stream gap,
/// the optional reset identifier suppressed from subsequent inputs, and the
/// compression level handed to an output backend.
#[derive(Debug)]
pub struct ReplayStream {
    mask: PacketFilterMask,
    gap: u32,
    reset_id: Option<i32>,
    level: Option<i64>,
}

impl ReplayStream {
    /// The mask table is fully built.
    pub open spec fn wf(&self) -> bool {
        self.spec_mask().wf()
    }

    /// The identifier filter mask.
    pub closed spec fn spec_mask(&self) -> PacketFilterMask {
        self.mask
    }

    /// The inter-stream gap.
    pub closed spec fn spec_interval(&self) -> u32 {
        self.gap
    }

    /// The reset identifier suppressed from subsequent inputs, if any.
    pub closed spec fn spec_reset_id(&self) -> Option<i32> {
        self.reset_id
    }

    /// The compression level for an output backend, if any.
    pub closed spec fn spec_compression_level(&self) -> Option<i64> {
        self.level
    }

    /// A merge configuration admitting every in-table identifier per
    /// `default_admit` and out-of-table identifiers per `unknown_admit`,
    /// with no gap, no reset identifier, and no compression preference.
    pub fn new(default_admit: bool, unknown_admit: bool) -> (r: Self)
        ensures
            r.wf(),
            forall|i: int|
                0 <= i < 256 ==> r.spec_mask().spec_table()[i] == default_admit,
            r.spec_mask().spec_unknown() == unknown_admit,
            r.spec_interval() == 0,
            r.spec_reset_id() is None,
            r.spec_compression_level() is None,
    {
        ReplayStream {
            mask: PacketFilterMask::new(default_admit, unknown_admit),
            gap: 0,
            reset_id: None,
            level: None,
        }
    }

    /// Let packets with identifier `id` through the mask.
    pub fn allow(&mut self, id: u8)
        requires
            old(self).wf(),
        ensures
            final(self).wf(),
            final(self).spec_mask().spec_table() == old(self).spec_mask().spec_table().update(
                id as int,
                true,
            ),
            final(self).spec_mask().spec_unknown() == old(self).spec_mask().spec_unknown(),
            final(self).spec_interval() == old(self).spec_interval(),
            final(self).spec_reset_id() == old(self).spec_reset_id(),
            final(self).spec_compression_level() == old(self).spec_compression_level(),
    {
        self.mask.allow(id);
    }

    /// Reject packets with identifier `id` at the mask.
    pub fn deny(&mut self, id: u8)
        requires
            old(self).wf(),
        ensures
            final(self).wf(),
            final(self).spec_mask().spec_table() == old(self).spec_mask().spec_table().update(
                id as int,
                false,
            ),
            final(self).spec_mask().spec_unknown() == old(self).spec_mask().spec_unknown(),
            final(self).spec_interval() == old(self).spec_interval(),
            final(self).spec_reset_id() == old(self).spec_reset_id(),
            final(self).spec_compression_level() == old(self).spec_compression_level(),
    {
        self.mask.deny(id);
    }

    /// Set the inter-stream gap added to the running offset after each
    /// input's reported duration.
    pub fn interval(&mut self, gap: u32)
        ensures
            final(self).spec_interval() == gap,
            final(self).spec_mask() == old(self).spec_mask(),
            final(self).spec_reset_id() == old(self).spec_reset_id(),
            final(self).spec_compression_level() == old(self).spec_compression_level(),
            final(self).wf() == old(self).wf(),
    {
        self.gap = gap;
    }

    /// Name the reset identifier to suppress from every input but the
    /// first; the value is protocol-version-specific, so it is configured
    /// rather than built in.
    pub fn reset_packet(&mut self, id: i32)
        ensures
            final(self).spec_reset_id() == Some(id),
            final(self).spec_mask() == old(self).spec_mask(),
            final(self).spec_interval() == old(self).spec_interval(),
            final(self).spec_compression_level() == old(self).spec_compression_level(),
            final(self).wf() == old(self).wf(),
    {
        self.reset_id = Some(id);
    }

    /// Set the compression level an output backend should use.
    pub fn compression_level(&mut self, level: i64)
        ensures
            final(self).spec_compression_level() == Some(level),
            final(self).spec_mask() == old(self).spec_mask(),
            final(self).spec_interval() == old(self).spec_interval(),
            final(self).spec_reset_id() == old(self).spec_reset_id(),
            final(self).wf() == old(self).wf(),
    {
        self.level = Some(level);
    }

    /// The compression level an output backend should use, if one was set.
    pub fn get_compression_level(&self) -> (r: Option<i64>)
        ensures
            r == self.spec_compression_level(),
    {
        self.level
    }

    /// Merge the inputs, in list order, into one packet sequence and one
    /// aggregated metadata record.
    ///
    /// The packet sequence is each input's filtered, re-based contribution,
    /// concatenated.  The metadata takes its tags from the first input,
    /// its duration from the reported durations plus gaps, and its
    /// participants from the union of every input's participants, with
    /// duplicates collapsed.
    pub fn merge(&self, inputs: &Vec<ReplayInput>) -> (r: (Vec<Packet>, MetaData))
        requires
            self.wf(),
            merge_fits(input_models(inputs@), self.spec_interval()),
        ensures
            packet_models(r.0@) == merged_packets(
                input_models(inputs@),
                self.spec_interval(),
                self.spec_mask(),
                self.spec_reset_id(),
                0,
            ),
            r.1@.duration == merged_duration(input_models(inputs@), self.spec_interval()),
            r.1@.players.to_set() == players_union(
                input_models(inputs@),
                inputs@.len() as int,
            ),
            players_unique(r.1@.players),
            inputs@.len() > 0 ==> meta_tags_match(r.1@, inputs@[0]@.meta),
            inputs@.len() == 0 ==> meta_tags_default(r.1@),
    {
        let ghost ims = input_models(inputs@);
        let ghost gap = self.spec_interval();
        let n = inputs.len();
        let mut out: Vec<Packet> = Vec::new();
        let mut players: Vec<u128> = Vec::new();
        let mut offset: u64 = 0;
        let mut i: usize = 0;
        proof {
            assert(packet_models(out@) =~= Seq::<PacketModel>::empty());
            assert(players@.to_set() =~= Set::<u128>::empty());
        }
        while i < n
            invariant
                self.wf(),
                merge_fits(ims, gap),
                n == inputs@.len(),
                ims == input_models(inputs@),
                gap == self.spec_interval(),
                i <= n,
                packet_models(out@) + merged_packets(ims, gap, self.spec_mask(), self.spec_reset_id(), i as int)
                    == merged_packets(ims, gap, self.spec_mask(), self.spec_reset_id(), 0),
                players_unique(players@),
                players@.to_set() == players_union(ims, i as int),
                n > 0 ==> offset == stream_offset(ims, gap, if i < n { i as int } else { n - 1 }),
                n == 0 ==> offset == 0,
            decreases n - i,
        {
            let input = &inputs[i];
            proof {
                assert(ims[i as int] == inputs@[i as int]@);
                lemma_stream_offset_le_duration(ims, gap, i as int);
            }
            let ghost out_before = packet_models(out@);
            merge_one_input(&input.packets, offset, &self.mask, i == 0, self.reset_id, &mut out);
            proof {
                let part = merge_seq(
                    ims[i as int].packets,
                    State::Login,
                    offset as int,
                    self.spec_mask(),
                    i == 0,
                    self.spec_reset_id(),
                );
                let tail = merged_packets(ims, gap, self.spec_mask(), self.spec_reset_id(), i + 1);
                assert((out_before + part) + tail =~= out_before + (part + tail));
            }
            union_players(&mut players, &input.meta.players);
            proof {
                assert(players@.to_set() =~= players_union(ims, i + 1));
            }
            if i + 1 < n {
                proof {
                    lemma_stream_offset_le_duration(ims, gap, i + 1);
                }
                offset = offset + input.meta.duration + self.gap as u64;
            }
            i = i + 1;
        }
        proof {
            assert(merged_packets(ims, gap, self.spec_mask(), self.spec_reset_id(), n as int)
                =~= Seq::<PacketModel>::empty());
            assert(packet_models(out@) + Seq::<PacketModel>::empty() =~= packet_models(out@));
        }
        let mut meta = if n > 0 {
            inputs[0].meta.duplicate()
        } else {
            MetaData::default()
        };
        let total: u64 = if n > 0 {
            proof {
                assert(ims.last() == ims[n - 1]);
            }
            offset + inputs[n - 1].meta.duration
        } else {
            0
        };
        meta.duration = total;
        meta.players = players;
        (out, meta)
    }
}

impl ReplayStream {
    /// Whether the merge's machine limits hold of these inputs: every
    /// re-based packet time fits the wire format, and the summed timeline
    /// fits the metadata's duration field.
    #[verifier::loop_isolation(false)]
    pub fn check_merge_fits(&self, inputs: &Vec<ReplayInput>) -> (b: bool)
        requires
            self.wf(),
        ensures
            b == merge_fits(input_models(inputs@), self.spec_interval()),
    {
        let ghost ims = input_models(inputs@);
        let ghost gap = self.spec_interval();
        let n = inputs.len();
        let mut offset: u64 = 0;
        let mut k: usize = 0;
        while k < n
            invariant
                k <= n,
                k < n ==> offset == stream_offset(ims, gap, k as int),
                forall|j: int|
                    0 <= j < k ==> times_fit(
                        #[trigger] ims[j].packets,
                        stream_offset(ims, gap, j),
                    ),
                k == n && n > 0 ==> merged_duration(ims, gap) <= u64::MAX && offset
                    == stream_offset(ims, gap, n - 1) + ims[n - 1].meta.duration,
            decreases n - k,
        {
            let input = &inputs[k];
            proof {
                assert(ims[k as int] == inputs@[k as int]@);
            }
            let packets = &input.packets;
            let mut j: usize = 0;
            while j < packets.len()
                invariant
                    j <= packets@.len(),
                    forall|i: int|
                        0 <= i < j ==> packet_models(packets@)[i].time + offset <= u32::MAX,
                decreases packets@.len() - j,
            {
                let t = packets[j].time();
                if offset > (0xffff_ffffu64 - t as u64) {
                    proof {
                        assert(packet_models(packets@)[j as int].time == t);
                        assert(!times_fit(ims[k as int].packets, stream_offset(ims, gap, k as int)));
                    }
                    return false;
                }
                j = j + 1;
            }
            match offset.checked_add(input.meta.duration) {
                Some(with_dur) => {
                    if k + 1 < n {
                        match with_dur.checked_add(self.gap as u64) {
                            Some(next) => {
                                offset = next;
                            },
                            None => {
                                proof {
                                    lemma_stream_offset_le_duration(ims, gap, k + 1);
                                }
                                return false;
                            },
                        }
                    } else {
                        offset = with_dur;
                    }
                },
                None => {
                    proof {
                        lemma_stream_offset_le_duration(ims, gap, k as int);
                        if k + 1 < n {
                            lemma_stream_offset_monotone(ims, gap, k + 1, n - 1);
                        }
                    }
                    return false;
                },
            }
            k = k + 1;
        }
        true
    }

    /// Merge the inputs if the machine limits hold of them, as
    /// [`ReplayStream::merge`] does; `None` when a re-based packet time or
    /// the summed duration would overflow its field.
    pub fn merge_checked(&self, inputs: &Vec<ReplayInput>) -> (r: Option<(Vec<Packet>, MetaData)>)
        requires
            self.wf(),
        ensures
            match r {
                Some((packets, meta)) => {
                    &&& merge_fits(input_models(inputs@), self.spec_interval())
                    &&& packet_models(packets@) == merged_packets(
                        input_models(inputs@),
                        self.spec_interval(),
                        self.spec_mask(),
                        self.spec_reset_id(),
                        0,
                    )
                    &&& meta@.duration == merged_duration(
                        input_models(inputs@),
                        self.spec_interval(),
                    )
                    &&& meta@.players.to_set() == players_union(
                        input_models(inputs@),
                        inputs@.len() as int,
                    )
                    &&& players_unique(meta@.players)
                    &&& inputs@.len() > 0 ==> meta_tags_match(meta@, inputs@[0]@.meta)
                    &&& inputs@.len() == 0 ==> meta_tags_default(meta@)
                },
                None => !merge_fits(input_models(inputs@), self.spec_interval()),
            },
    {
        if self.check_merge_fits(inputs) {
            let merged = self.merge(inputs);
            Some(merged)
        } else {
            None
        }
    }
}

/// A lazy, single-pass run of the merge.  Packets come one at a time
/// through [`MergeSession::next_packet`]; the caller may simply stop
/// asking after any packet, so nothing forces the remaining inputs to be
/// consumed.  [`MergeSession::finish`] yields the aggregated metadata only
/// when the run reached the natural end of the last input — a run stopped
/// early produces none, so a caller that needs metadata must not stop.
pub struct MergeSession {
    inputs: Vec<ReplayInput>,
    mask: PacketFilterMask,
    gap: u32,
    reset_id: Option<i32>,
    cur: usize,
    pos: usize,
    st: State,
    offset: u64,
    players: Vec<u128>,
    emitted: Ghost<Seq<PacketModel>>,
}

impl MergeSession {
    /// The models of the session's inputs.
    pub closed spec fn spec_inputs(&self) -> Seq<ReplayInputModel> {
        input_models(self.inputs@)
    }

    /// The identifier filter mask.
    pub closed spec fn spec_mask(&self) -> PacketFilterMask {
        self.mask
    }

    /// The inter-stream gap.
    pub closed spec fn spec_interval(&self) -> u32 {
        self.gap
    }

    /// The reset identifier suppressed from subsequent inputs, if any.
    pub closed spec fn spec_reset_id(&self) -> Option<i32> {
        self.reset_id
    }

    /// The packets the whole run will emit.
    pub open spec fn spec_merged(&self) -> Seq<PacketModel> {
        merged_packets(
            self.spec_inputs(),
            self.spec_interval(),
            self.spec_mask(),
            self.spec_reset_id(),
            0,
        )
    }

    /// The packets emitted so far.
    pub closed spec fn spec_emitted(&self) -> Seq<PacketModel> {
        self.emitted@
    }

    /// Whether the run has reached the natural end of the last input.
    pub closed spec fn spec_done(&self) -> bool {
        self.cur >= self.inputs@.len()
    }

    /// The session's bookkeeping is consistent: the packets emitted so far
    /// followed by the work still ahead make up exactly the whole merge.
    pub closed spec fn wf(&self) -> bool {
        let ims = input_models(self.inputs@);
        let n = ims.len() as int;
        &&& self.mask.wf()
        &&& merge_fits(ims, self.gap)
        &&& self.cur <= n
        &&& (self.cur < n ==> {
            &&& self.pos <= ims[self.cur as int].packets.len()
            &&& self.offset == stream_offset(ims, self.gap, self.cur as int)
            &&& self.emitted@ + merge_seq(
                ims[self.cur as int].packets.skip(self.pos as int),
                self.st,
                self.offset as int,
                self.mask,
                self.cur == 0,
                self.reset_id,
            ) + merged_packets(ims, self.gap, self.mask, self.reset_id, self.cur + 1)
                == merged_packets(ims, self.gap, self.mask, self.reset_id, 0)
        })
        &&& (self.cur == n ==> self.emitted@ == merged_packets(
            ims,
            self.gap,
            self.mask,
            self.reset_id,
            0,
        ))
        &&& (self.cur == n && n > 0 ==> self.offset == stream_offset(ims, self.gap, n - 1))
        &&& (n == 0 ==> self.offset == 0)
        &&& players_unique(self.players@)
        &&& self.players@.to_set() == players_union(ims, self.cur as int)
    }

    /// The next packet the merge emits, re-based onto the combined
    /// timeline, or `None` at the natural end of the last input.  What has
    /// come out so far is always a prefix of the whole merge, so stopping
    /// after any packet loses nothing already taken.
    pub fn next_packet(&mut self) -> (r: Option<Packet>)
        requires
            old(self).wf(),
        ensures
            final(self).wf(),
            final(self).spec_inputs() == old(self).spec_inputs(),
            final(self).spec_mask() == old(self).spec_mask(),
            final(self).spec_interval() == old(self).spec_interval(),
            final(self).spec_reset_id() == old(self).spec_reset_id(),
            match r {
                Some(p) => {
                    &&& final(self).spec_emitted() == old(self).spec_emitted().push(p@)
                    &&& final(self).spec_emitted() == final(self).spec_merged().take(
                        final(self).spec_emitted().len() as int,
                    )
                },
                None => {
                    &&& final(self).spec_done()
                    &&& final(self).spec_emitted() == old(self).spec_emitted()
                    &&& final(self).spec_emitted() == final(self).spec_merged()
                },
            },
    {
        let ghost ims = input_models(self.inputs@);
        let n = self.inputs.len();
        loop
            invariant
                self.wf(),
                n == self.inputs@.len(),
                ims == input_models(self.inputs@),
                self.spec_inputs() == old(self).spec_inputs(),
                self.spec_mask() == old(self).spec_mask(),
                self.spec_interval() == old(self).spec_interval(),
                self.spec_reset_id() == old(self).spec_reset_id(),
                self.spec_emitted() == old(self).spec_emitted(),
            decreases
                    n - self.cur,
                    (if self.cur < n {
                        ims[self.cur as int].packets.len() + 1 - self.pos
                    } else {
                        0
                    }),
        {
            if self.cur >= n {
                proof {
                    lemma_emitted_is_prefix(self.emitted@, self.spec_merged());
                }
                return None;
            }
            proof {
                assert(ims[self.cur as int] == self.inputs@[self.cur as int]@);
            }
            let plen = self.inputs[self.cur].packets.len();
            if self.pos >= plen {
                let ghost before_players = self.players@;
                union_players(&mut self.players, &self.inputs[self.cur].meta.players);
                proof {
                    assert(self.players@.to_set() =~= players_union(ims, self.cur + 1));
                }
                if self.cur + 1 < n {
                    proof {
                        lemma_stream_offset_le_duration(ims, self.gap, self.cur + 1);
                    }
                    self.offset = self.offset + self.inputs[self.cur].meta.duration + self.gap
                        as u64;
                }
                proof {
                    let rem = ims[self.cur as int].packets.skip(self.pos as int);
                    assert(rem =~= Seq::<PacketModel>::empty());
                    assert(self.emitted@ + Seq::<PacketModel>::empty() + merged_packets(
                        ims,
                        self.gap,
                        self.mask,
                        self.reset_id,
                        self.cur + 1,
                    ) =~= self.emitted@ + merged_packets(
                        ims,
                        self.gap,
                        self.mask,
                        self.reset_id,
                        self.cur + 1,
                    ));
                }
                self.cur = self.cur + 1;
                self.pos = 0;
                self.st = State::Login;
                proof {
                    if self.cur < n {
                        let full = ims[self.cur as int].packets;
                        assert(full.skip(0) =~= full);
                        let part = merge_seq(
                            full,
                            State::Login,
                            self.offset as int,
                            self.mask,
                            self.cur == 0,
                            self.reset_id,
                        );
                        let tail = merged_packets(ims, self.gap, self.mask, self.reset_id, self.cur + 1);
                        assert(self.emitted@ + (part + tail) =~= (self.emitted@ + part) + tail);
                    }
                }
            } else {
                let ghost rem = ims[self.cur as int].packets.skip(self.pos as int);
                proof {
                    assert(rem[0] == ims[self.cur as int].packets[self.pos as int]);
                    assert(rem.drop_first() =~= ims[self.cur as int].packets.skip(self.pos + 1));
                }
                let first = self.cur == 0;
                let p = &self.inputs[self.cur].packets[self.pos];
                let id = p.id();
                let keep = self.mask.admits(id) && (first || (matches!(self.st, State::Play)
                    && !matches!(self.reset_id, Some(rid) if rid == id)));
                let ghost tag = self.st;
                if keep {
                    let q = p.with_time((p.time() as u64 + self.offset) as u32);
                    self.st = crate::mcpr::advance_state(self.st, id);
                    self.pos = self.pos + 1;
                    proof {
                        assert(q@ == rebase_packet(rem[0], self.offset as int));
                        let after = merge_seq(
                            rem.drop_first(),
                            next_state(tag, id),
                            self.offset as int,
                            self.mask,
                            first,
                            self.reset_id,
                        );
                        let tail = merged_packets(ims, self.gap, self.mask, self.reset_id, self.cur + 1);
                        assert(self.emitted@ + (seq![q@] + after) + tail =~= (self.emitted@
                            + seq![q@]) + after + tail);
                    }
                    let ghost before_emitted = self.emitted@;
                    self.emitted = Ghost(self.emitted@.push(q@));
                    proof {
                        assert(self.emitted@ =~= before_emitted + seq![q@]);
                        let after = merge_seq(
                            ims[self.cur as int].packets.skip(self.pos as int),
                            self.st,
                            self.offset as int,
                            self.mask,
                            first,
                            self.reset_id,
                        );
                        let tail = merged_packets(ims, self.gap, self.mask, self.reset_id, self.cur + 1);
                        assert(self.emitted@ + after + tail =~= (before_emitted + seq![q@]) + after
                            + tail);
                        assert(self.emitted@ + (after + tail) =~= self.emitted@ + after + tail);
                        lemma_emitted_is_prefix(self.emitted@, after + tail);
                    }
                    return Some(q);
                } else {
                    self.st = crate::mcpr::advance_state(self.st, id);
                    self.pos = self.pos + 1;
                }
            }
        }
    }

    /// The aggregated session metadata, exactly when the run reached the
    /// natural end of the last input: the duration summed from reported
    /// durations and gaps, the participant union, and the first input's
    /// tags.  A run stopped early yields `None`.
    pub fn finish(self) -> (r: Option<MetaData>)
        requires
            self.wf(),
        ensures
            match r {
                Some(meta) => {
                    &&& self.spec_done()
                    &&& meta@.duration == merged_duration(self.spec_inputs(), self.spec_interval())
                    &&& meta@.players.to_set() == players_union(
                        self.spec_inputs(),
                        self.spec_inputs().len() as int,
                    )
                    &&& players_unique(meta@.players)
                    &&& self.spec_inputs().len() > 0 ==> meta_tags_match(
                        meta@,
                        self.spec_inputs()[0].meta,
                    )
                    &&& self.spec_inputs().len() == 0 ==> meta_tags_default(meta@)
                },
                None => !self.spec_done(),
            },
    {
        let ghost ims = input_models(self.inputs@);
        let n = self.inputs.len();
        if self.cur < n {
            return None;
        }
        let mut meta = if n > 0 {
            proof {
                assert(ims[0] == self.inputs@[0]@);
            }
            self.inputs[0].meta.duplicate()
        } else {
            MetaData::default()
        };
        let total: u64 = if n > 0 {
            proof {
                assert(ims[n - 1] == self.inputs@[n - 1]@);
                assert(ims.last() == ims[n - 1]);
            }
            self.offset + self.inputs[n - 1].meta.duration
        } else {
            0
        };
        meta.duration = total;
        meta.players = self.players;
        Some(meta)
    }
}

/// What the session has emitted so far is a prefix of the whole merge.
proof fn lemma_emitted_is_prefix(emitted: Seq<PacketModel>, rest: Seq<PacketModel>)
    ensures
        emitted == (emitted + rest).take(emitted.len() as int),
{
    assert(emitted =~= (emitted + rest).take(emitted.len() as int));
}

impl ReplayStream {
    /// Open a lazy merge run over the inputs: the configuration moves into
    /// the session, packets come one at a time, and the caller may stop
    /// after any admitted packet without consuming the rest.
    pub fn session(self, inputs: Vec<ReplayInput>) -> (r: MergeSession)
        requires
            self.wf(),
            merge_fits(input_models(inputs@), self.spec_interval()),
        ensures
            r.wf(),
            r.spec_inputs() == input_models(inputs@),
            r.spec_mask() == self.spec_mask(),
            r.spec_interval() == self.spec_interval(),
            r.spec_reset_id() == self.spec_reset_id(),
            r.spec_emitted() == Seq::<PacketModel>::empty(),
            r.spec_done() == (inputs@.len() == 0),
    {
        let ghost ims = input_models(inputs@);
        let r = MergeSession {
            inputs,
            mask: self.mask,
            gap: self.gap,
            reset_id: self.reset_id,
            cur: 0,
            pos: 0,
            st: State::Login,
            offset: 0,
            players: Vec::new(),
            emitted: Ghost(Seq::empty()),
        };
        proof {
            assert(r.players@.to_set() =~= Set::<u128>::empty());
            if ims.len() > 0 {
                let full = ims[0].packets;
                assert(full.skip(0) =~= full);
                let part = merge_seq(full, State::Login, 0, r.mask, true, r.reset_id);
                let tail = merged_packets(ims, r.gap, r.mask, r.reset_id, 1);
                assert(Seq::<PacketModel>::empty() + part + tail =~= part + tail);
            } else {
                assert(r.emitted@ =~= merged_packets(ims, r.gap, r.mask, r.reset_id, 0));
            }
        }
        r
    }
}

/// The non-aggregated metadata fields of `a` match `b`: everything but the
/// duration and the participant set.
pub open spec fn meta_tags_match(a: MetaDataModel, b: MetaDataModel) -> bool {
    &&& a.singleplayer == b.singleplayer
    &&& a.server_name == b.server_name
    &&& a.custom_server_name == b.custom_server_name
    &&& a.date == b.date
    &&& a.mcversion == b.mcversion
    &&& a.file_format == b.file_format
    &&& a.file_format_version == b.file_format_version
    &&& a.protocol == b.protocol
    &&& a.generator == b.generator
    &&& a.self_id == b.self_id
}

/// The non-aggregated metadata fields of `a` are the defaults.
pub open spec fn meta_tags_default(a: MetaDataModel) -> bool {
    &&& a.singleplayer == false
    &&& a.server_name.len() == 0
    &&& a.custom_server_name.len() == 0
    &&& a.date == 0
    &&& a.mcversion.len() == 0
    &&& a.file_format.len() == 0
    &&& a.file_format_version == 0
    &&& a.protocol == 0
    &&& a.generator.len() == 0
    &&& a.self_id == -1
}

} // verus!
