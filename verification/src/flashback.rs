//! The action-log replay format's chunk-record framing: a chunk entry
//! opens with a magic number, a table of action names, and a snapshot
//! blob, and then carries a sequence of records — a varint action index, a
//! big-endian length, and an opaque payload.  A scan counts ticks as it
//! walks the records, tagging each non-tick action with the tick it fell
//! on.
//!
//! Only the framing lives here; what the actions mean is out of scope.

use vstd::prelude::*;
use vstd::string::StringSliceAdditionalSpecFns;

use crate::archive::{ArchiveReader, ArchiveWriter};
use crate::error::Error;
use crate::mcpr::copy_range;
use crate::protocol::{be32_val, read_u32_be, read_varint, u32_to_i32, u32_to_i32_exec, varint_len, varint_status, varint_val32, VarintStatus};

verus! {

/// The magic number opening every chunk entry.
pub const CHUNK_MAGIC: i32 = -679417724;

/// The kinds of record an action log holds; names not in the table read as
/// `Unknown`.
#[derive(Debug, Clone, Copy, PartialEq, Eq, Structural)]
pub enum ActionKind {
    /// Advance the playback clock one tick.
    NextTick,
    /// A captured game packet.
    GamePacket,
    /// A captured configuration packet.
    ConfigurationPacket,
    /// Creation of the local player.
    CreateLocalPlayer,
    /// An entity movement batch.
    MoveEntities,
    /// A cached level chunk.
    LevelChunkCached,
    /// A high-precision player position.
    AccuratePlayerPosition,
    /// A name this table does not know.
    Unknown,
}

/// The action kind a name denotes, by its bytes.
pub open spec fn action_kind_of(name: Seq<u8>) -> ActionKind {
    if name == ("flashback:action/next_tick").spec_bytes() {
        ActionKind::NextTick
    } else if name == ("flashback:action/game_packet").spec_bytes() {
        ActionKind::GamePacket
    } else if name == ("flashback:action/configuration_packet").spec_bytes() {
        ActionKind::ConfigurationPacket
    } else if name == ("flashback:action/create_local_player").spec_bytes() {
        ActionKind::CreateLocalPlayer
    } else if name == ("flashback:action/move_entities").spec_bytes() {
        ActionKind::MoveEntities
    } else if name == ("flashback:action/level_chunk_cached").spec_bytes() {
        ActionKind::LevelChunkCached
    } else if name == ("flashback:action/accurate_player_position").spec_bytes() {
        ActionKind::AccuratePlayerPosition
    } else {
        ActionKind::Unknown
    }
}

/// Whether two byte slices hold the same bytes.
fn bytes_eq(a: &[u8], b: &[u8]) -> (r: bool)
    ensures
        r == (a@ == b@),
{
    if a.len() != b.len() {
        return false;
    }
    let mut i: usize = 0;
    while i < a.len()
        invariant
            i <= a@.len(),
            a@.len() == b@.len(),
            forall|j: int| 0 <= j < i ==> a@[j] == b@[j],
        decreases a@.len() - i,
    {
        if a[i] != b[i] {
            return false;
        }
        i = i + 1;
    }
    proof {
        assert(a@ =~= b@);
    }
    true
}

impl ActionKind {
    /// The action kind a name denotes; names outside the table read as
    /// `Unknown`.  Names are compared byte-for-byte, so — deliberately — a
    /// name that is not valid text also reads as `Unknown` instead of
    /// failing the scan.
    pub fn from_name(name: &[u8]) -> (k: ActionKind)
        ensures
            k == action_kind_of(name@),
    {
        if bytes_eq(name, "flashback:action/next_tick".as_bytes()) {
            ActionKind::NextTick
        } else if bytes_eq(name, "flashback:action/game_packet".as_bytes()) {
            ActionKind::GamePacket
        } else if bytes_eq(name, "flashback:action/configuration_packet".as_bytes()) {
            ActionKind::ConfigurationPacket
        } else if bytes_eq(name, "flashback:action/create_local_player".as_bytes()) {
            ActionKind::CreateLocalPlayer
        } else if bytes_eq(name, "flashback:action/move_entities".as_bytes()) {
            ActionKind::MoveEntities
        } else if bytes_eq(name, "flashback:action/level_chunk_cached".as_bytes()) {
            ActionKind::LevelChunkCached
        } else if bytes_eq(name, "flashback:action/accurate_player_position".as_bytes()) {
            ActionKind::AccuratePlayerPosition
        } else {
            ActionKind::Unknown
        }
    }
}

/// One action-log record: its kind and its opaque payload.
#[derive(Debug)]
pub struct Action {
    id: ActionKind,
    data: Vec<u8>,
}

/// The mathematical content of an [`Action`].
pub struct ActionModel {
    /// The record's kind.
    pub kind: ActionKind,
    /// The record's opaque payload.
    pub data: Seq<u8>,
}

impl View for Action {
    type V = ActionModel;

    closed spec fn view(&self) -> ActionModel {
        ActionModel { kind: self.id, data: self.data@ }
    }
}

impl Action {
    /// Build a record from its parts.
    pub fn new(id: ActionKind, data: Vec<u8>) -> (r: Self)
        ensures
            r@.kind == id,
            r@.data == data@,
    {
        Self { id, data }
    }

    /// The record's kind.
    pub fn id(&self) -> (r: ActionKind)
        ensures
            r == self@.kind,
    {
        self.id
    }

    /// The record's payload.
    pub fn data(&self) -> (r: &Vec<u8>)
        ensures
            r@ == self@.data,
    {
        &self.data
    }
}

/// Per-chunk metadata: how many ticks the chunk covers.
#[derive(Debug, Clone, Copy, PartialEq, Eq, Structural)]
pub struct ChunkMeta {
    /// The chunk's tick count.
    pub duration: u64,
}

/// Parse one record at the front of `s`, against a table of `nactions`
/// action kinds: a varint action index, a big-endian 4-byte length, and
/// that many payload bytes.  `None` when the record is cut short, the
/// index is outside the table, or the length is negative.
pub open spec fn parse_chunk_record(s: Seq<u8>, nactions: int) -> Option<(int, Seq<u8>, int)> {
    if !(varint_status(s, 5) is Done) {
        None
    } else {
        let vlen = varint_len(s) as int;
        let idx = varint_val32(s) as int;
        if s.len() < vlen + 4 {
            None
        } else {
            let l = u32_to_i32(be32_val(s.subrange(vlen, vlen + 4))) as int;
            if idx < 0 || idx >= nactions || l < 0 || s.len() < vlen + 4 + l {
                None
            } else {
                Some((idx, s.subrange(vlen + 4, vlen + 4 + l), vlen + 4 + l))
            }
        }
    }
}

/// A lazy, single-pass reader of action-log records, resolving each
/// record's action index against the chunk's name table.
pub struct ReadableChunkPacketStream {
    actions: Vec<ActionKind>,
    bytes: Vec<u8>,
    pos: usize,
}

impl ReadableChunkPacketStream {
    /// The stream is positioned inside its buffer.
    pub closed spec fn wf(&self) -> bool {
        self.pos <= self.bytes@.len()
    }

    /// The chunk's action-kind table.
    pub closed spec fn spec_actions(&self) -> Seq<ActionKind> {
        self.actions@
    }

    /// The bytes not yet consumed.
    pub closed spec fn remaining(&self) -> Seq<u8> {
        self.bytes@.skip(self.pos as int)
    }

    /// Open a record stream over `bytes` with the given action table.
    pub fn new(actions: Vec<ActionKind>, bytes: Vec<u8>) -> (r: Self)
        ensures
            r.wf(),
            r.spec_actions() == actions@,
            r.remaining() == bytes@,
    {
        let r = Self { actions, bytes, pos: 0 };
        proof {
            assert(r.remaining() =~= r.bytes@);
        }
        r
    }

    /// Read the next record; `None` both at the end of the stream and on a
    /// record that does not parse, which ends the scan quietly.
    pub fn next(&mut self) -> (r: Option<Action>)
        requires
            old(self).wf(),
        ensures
            final(self).wf(),
            final(self).spec_actions() == old(self).spec_actions(),
            match parse_chunk_record(
                old(self).remaining(),
                old(self).spec_actions().len() as int,
            ) {
                Some((idx, payload, n)) => match r {
                    Some(a) => a@.kind == old(self).spec_actions()[idx] && a@.data == payload
                        && final(self).remaining() == old(self).remaining().skip(n),
                    None => false,
                },
                None => r is None && *final(self) == *old(self),
            },
    {
        let ghost rem = self.bytes@.skip(self.pos as int);
        let vr = read_varint(self.bytes.as_slice(), self.pos);
        match vr {
            Ok((idx, vlen)) => {
                let cap: usize = self.bytes.len();
                proof {
                    assert(varint_len(rem) <= 5);
                }
                if cap - (self.pos + vlen) < 4 {
                    return None;
                }
                let l32 = read_u32_be(self.bytes.as_slice(), self.pos + vlen);
                let l = u32_to_i32_exec(l32);
                proof {
                    assert(self.bytes@.subrange(
                        self.pos + vlen,
                        self.pos + vlen + 4,
                    ) =~= rem.subrange(vlen as int, vlen + 4));
                }
                if idx < 0 || l < 0 {
                    return None;
                }
                let idxu = idx as usize;
                let lu = l as usize;
                if idxu >= self.actions.len() || cap - (self.pos + vlen + 4) < lu {
                    return None;
                }
                let data = copy_range(self.bytes.as_slice(), self.pos + vlen + 4, lu);
                proof {
                    assert(data@ =~= rem.subrange(vlen as int, vlen + 4 + l).subrange(
                        4,
                        4 + l,
                    ));
                    assert(data@ =~= rem.subrange(vlen + 4, vlen + 4 + l));
                }
                let kind = self.actions[idxu];
                self.pos = self.pos + vlen + 4 + lu;
                proof {
                    assert(final(self).remaining() =~= rem.skip(vlen + 4 + l));
                }
                Some(Action { id: kind, data })
            },
            Err(_) => None,
        }
    }
}

/// What parsing a chunk's action-name table yields.
pub enum NamesParse {
    /// The table's kinds, and the bytes the table occupies.
    Names(Seq<ActionKind>, int),
    /// The stream ended inside the table.
    Cut,
    /// A length varint in the table was malformed.
    BadVarint,
}

/// Parse `count` length-prefixed action names from the front of `s`,
/// resolving each against the name table.
pub open spec fn parse_action_names(s: Seq<u8>, count: nat) -> NamesParse
    decreases count,
{
    if count == 0 {
        NamesParse::Names(Seq::empty(), 0)
    } else {
        match varint_status(s, 5) {
            VarintStatus::Cut => NamesParse::Cut,
            VarintStatus::TooLong => NamesParse::BadVarint,
            VarintStatus::Done => {
                let vlen = varint_len(s) as int;
                let l = varint_val32(s) as int;
                if l < 0 || s.len() < vlen + l {
                    NamesParse::Cut
                } else {
                    let kind = action_kind_of(s.subrange(vlen, vlen + l));
                    match parse_action_names(s.skip(vlen + l), (count - 1) as nat) {
                        NamesParse::Names(ks, m) => NamesParse::Names(
                            seq![kind] + ks,
                            vlen + l + m,
                        ),
                        other => other,
                    }
                }
            },
        }
    }
}

/// What parsing a chunk header yields.
pub enum ChunkHeaderParse {
    /// The chunk's action table, and the bytes the whole header — magic,
    /// table, and snapshot blob — occupies.
    Header(Seq<ActionKind>, int),
    /// The magic number is wrong, or the action count is negative.
    Malformed,
    /// The stream ended inside the header.
    Cut,
    /// A varint in the header was malformed.
    BadVarint,
}

/// Parse a chunk header from the front of `s`: the magic number, a
/// varint-counted table of length-prefixed action names, and a big-endian
/// snapshot length whose blob the scan skips.
pub open spec fn parse_chunk_header(s: Seq<u8>) -> ChunkHeaderParse {
    if s.len() < 4 {
        ChunkHeaderParse::Cut
    } else if u32_to_i32(be32_val(s.subrange(0, 4))) != CHUNK_MAGIC {
        ChunkHeaderParse::Malformed
    } else {
        let t = s.skip(4);
        match varint_status(t, 5) {
            VarintStatus::Cut => ChunkHeaderParse::Cut,
            VarintStatus::TooLong => ChunkHeaderParse::BadVarint,
            VarintStatus::Done => {
                let vlen = varint_len(t) as int;
                let count = varint_val32(t) as int;
                if count < 0 {
                    ChunkHeaderParse::Malformed
                } else {
                    match parse_action_names(t.skip(vlen), count as nat) {
                        NamesParse::Cut => ChunkHeaderParse::Cut,
                        NamesParse::BadVarint => ChunkHeaderParse::BadVarint,
                        NamesParse::Names(ks, m) => {
                            let q = 4 + vlen + m;
                            if s.len() < q + 4 {
                                ChunkHeaderParse::Cut
                            } else {
                                let snap = u32_to_i32(be32_val(s.subrange(q, q + 4))) as int;
                                let skipn = if snap > 0 {
                                    snap
                                } else {
                                    0
                                };
                                if s.len() < q + 4 + skipn {
                                    ChunkHeaderParse::Cut
                                } else {
                                    ChunkHeaderParse::Header(ks, q + 4 + skipn)
                                }
                            }
                        },
                    }
                }
            },
        }
    }
}

/// Parse the chunk header at `pos`: the action table is returned together
/// with the position just past the header.  `MetadataFormatError` reports
/// a wrong magic number or a negative action count, `TruncatedInput` a
/// header cut short, and `MalformedVarint` an overlong varint.
#[verifier::rlimit(50)]
#[verifier::loop_isolation(false)]
pub fn read_chunk_header(bytes: &[u8], pos: usize) -> (r: Result<(Vec<ActionKind>, usize), Error>)
    requires
        pos <= bytes@.len(),
    ensures
        match parse_chunk_header(bytes@.skip(pos as int)) {
            ChunkHeaderParse::Header(ks, n) => match r {
                Ok((v, q)) => v@ == ks && q == pos + n,
                _ => false,
            },
            ChunkHeaderParse::Malformed => r == Err::<(Vec<ActionKind>, usize), Error>(
                Error::MetadataFormatError,
            ),
            ChunkHeaderParse::Cut => r == Err::<(Vec<ActionKind>, usize), Error>(
                Error::TruncatedInput,
            ),
            ChunkHeaderParse::BadVarint => r == Err::<(Vec<ActionKind>, usize), Error>(
                Error::MalformedVarint,
            ),
        },
{
    let ghost s = bytes@.skip(pos as int);
    let cap: usize = bytes.len();
    if cap - pos < 4 {
        return Err(Error::TruncatedInput);
    }
    let magic = u32_to_i32_exec(read_u32_be(bytes, pos));
    proof {
        assert(bytes@.subrange(pos as int, pos + 4) =~= s.subrange(0, 4));
    }
    if magic != CHUNK_MAGIC {
        return Err(Error::MetadataFormatError);
    }
    let ghost t = s.skip(4);
    proof {
        assert(t =~= bytes@.skip(pos + 4));
    }
    match read_varint(bytes, pos + 4) {
        Ok((count, vlen)) => {
            let count_pos = pos + 4 + vlen;
            if count < 0 {
                return Err(Error::MetadataFormatError);
            }
            let mut actions: Vec<ActionKind> = Vec::new();
            let mut p: usize = count_pos;
            let mut k: u32 = 0;
            let countu = count as u32;
            proof {
                assert(t.skip(vlen as int) =~= bytes@.skip(count_pos as int));
            }
            while k < countu
                invariant
                    k <= countu,
                    actions@.len() == k,
                    pos + 4 + varint_len(t) <= p <= bytes@.len(),
                    parse_action_names(t.skip(varint_len(t) as int), countu as nat)
                        == (match parse_action_names(
                        bytes@.skip(p as int),
                        (countu - k) as nat,
                    ) {
                        NamesParse::Names(ks, m) => NamesParse::Names(
                            actions@ + ks,
                            p - (pos + 4 + varint_len(t)) + m,
                        ),
                        other => other,
                    }),
                    varint_status(t, 5) is Done,
                    vlen == varint_len(t),
                    count_pos == pos + 4 + vlen,
                decreases countu - k,
            {
                let ghost rem = bytes@.skip(p as int);
                match read_varint(bytes, p) {
                    Ok((l, lvlen)) => {
                        if l < 0 {
                            return Err(Error::TruncatedInput);
                        }
                        let lu = l as usize;
                        if cap - (p + lvlen) < lu {
                            return Err(Error::TruncatedInput);
                        }
                        let name = copy_range(bytes, p + lvlen, lu);
                        proof {
                            assert(name@ =~= rem.subrange(lvlen as int, lvlen + l));
                        }
                        let kind = ActionKind::from_name(name.as_slice());
                        let ghost acc_before = actions@;
                        actions.push(kind);
                        p = p + lvlen + lu;
                        k = k + 1;
                        proof {
                            assert(rem.skip(lvlen + l) =~= bytes@.skip(p as int));
                            if parse_action_names(bytes@.skip(p as int), (countu - k) as nat)
                                is Names {
                                let ks = parse_action_names(
                                    bytes@.skip(p as int),
                                    (countu - k) as nat,
                                )->Names_0;
                                assert(acc_before + (seq![kind] + ks) =~= (acc_before + seq![
                                    kind,
                                ]) + ks);
                                assert(actions@ =~= acc_before + seq![kind]);
                            }
                        }
                    },
                    Err(e) => {
                        return Err(e);
                    },
                }
            }
            proof {
                assert(parse_action_names(bytes@.skip(p as int), 0) == NamesParse::Names(
                    Seq::<ActionKind>::empty(),
                    0,
                ));
                assert(actions@ + Seq::<ActionKind>::empty() =~= actions@);
            }
            if cap - p < 4 {
                return Err(Error::TruncatedInput);
            }
            let snap = u32_to_i32_exec(read_u32_be(bytes, p));
            proof {
                assert(bytes@.subrange(p as int, p + 4) =~= s.subrange(
                    p - pos,
                    p - pos + 4,
                ));
            }
            let skipn: usize = if snap > 0 {
                snap as usize
            } else {
                0
            };
            if cap - (p + 4) < skipn {
                return Err(Error::TruncatedInput);
            }
            return Ok((actions, p + 4 + skipn));
        },
        Err(e) => {
            return Err(e);
        },
    }
}

/// One tick forward, holding still at the top of the clock.
pub open spec fn tick_next(t: u64) -> u64 {
    if t < u64::MAX {
        (t + 1) as u64
    } else {
        t
    }
}

/// The models of a sequence of tick-tagged actions.
pub open spec fn action_models(v: Seq<(u64, Action)>) -> Seq<(u64, ActionModel)> {
    v.map_values(|x: (u64, Action)| (x.0, x.1@))
}

/// Walk the records of a chunk from tick `t`: `NextTick` advances the
/// clock and is not emitted; every other record is emitted with the tick
/// it fell on; the walk ends quietly at the first record that does not
/// parse.
pub open spec fn scan_chunk_records(s: Seq<u8>, actions: Seq<ActionKind>, t: u64) -> Seq<
    (u64, ActionModel),
>
    decreases s.len(),
{
    match parse_chunk_record(s, actions.len() as int) {
        None => Seq::empty(),
        Some((idx, payload, n)) => if 1 <= n <= s.len() {
            let kind = actions[idx];
            if kind is NextTick {
                scan_chunk_records(s.skip(n), actions, tick_next(t))
            } else {
                seq![(t, ActionModel { kind, data: payload })] + scan_chunk_records(
                    s.skip(n),
                    actions,
                    t,
                )
            }
        } else {
            Seq::empty()
        },
    }
}

/// Scan one chunk entry from tick `start_ticks`: parse its header, then
/// walk its records, advancing the clock on each `NextTick` and tagging
/// every other action with the tick it fell on.
#[verifier::rlimit(100)]
#[verifier::loop_isolation(false)]
pub fn scan_chunk_bytes(bytes: Vec<u8>, start_ticks: u64) -> (r: Result<Vec<(u64, Action)>, Error>)
    ensures
        match parse_chunk_header(bytes@) {
            ChunkHeaderParse::Header(ks, n) => match r {
                Ok(v) => action_models(v@) == scan_chunk_records(
                    bytes@.skip(n),
                    ks,
                    start_ticks,
                ),
                _ => false,
            },
            ChunkHeaderParse::Malformed => r == Err::<Vec<(u64, Action)>, Error>(
                Error::MetadataFormatError,
            ),
            ChunkHeaderParse::Cut => r == Err::<Vec<(u64, Action)>, Error>(Error::TruncatedInput),
            ChunkHeaderParse::BadVarint => r == Err::<Vec<(u64, Action)>, Error>(
                Error::MalformedVarint,
            ),
        },
{
    let ghost ks = (match parse_chunk_header(bytes@) {
        ChunkHeaderParse::Header(ks, n) => ks,
        _ => Seq::empty(),
    });
    proof {
        assert(bytes@.skip(0) =~= bytes@);
    }
    match read_chunk_header(bytes.as_slice(), 0) {
        Ok((actions, q)) => {
            let tail = copy_range(bytes.as_slice(), q, bytes.len() - q);
            proof {
                assert(tail@ =~= bytes@.skip(q as int));
            }
            let mut stream = ReadableChunkPacketStream::new(actions, tail);
            let mut ticks: u64 = start_ticks;
            let mut out: Vec<(u64, Action)> = Vec::new();
            proof {
                assert(action_models(out@) =~= Seq::<(u64, ActionModel)>::empty());
            }
            loop
                invariant
                    stream.wf(),
                    stream.spec_actions() == ks,
                    action_models(out@) + scan_chunk_records(stream.remaining(), ks, ticks)
                        == scan_chunk_records(bytes@.skip(q as int), ks, start_ticks),
                decreases stream.remaining().len(),
            {
                let ghost rem = stream.remaining();
                match stream.next() {
                    Some(a) => {
                        proof {
                            let parsed = parse_chunk_record(rem, ks.len() as int);
                            assert(parsed is Some);
                            let n = parsed->Some_0.2;
                            assert(1 <= n <= rem.len());
                        }
                        if matches!(a.id(), ActionKind::NextTick) {
                            if ticks < u64::MAX {
                                ticks = ticks + 1;
                            }
                        } else {
                            let ghost out_before = out@;
                            out.push((ticks, a));
                            proof {
                                assert(action_models(out@) =~= action_models(out_before)
                                    + seq![(ticks, a@)]);
                                assert(action_models(out_before) + (seq![(ticks, a@)]
                                    + scan_chunk_records(stream.remaining(), ks, ticks)) =~= (
                                action_models(out_before) + seq![(ticks, a@)])
                                    + scan_chunk_records(stream.remaining(), ks, ticks));
                            }
                        }
                    },
                    None => {
                        proof {
                            assert(action_models(out@) + Seq::<(u64, ActionModel)>::empty()
                                =~= action_models(out@));
                        }
                        return Ok(out);
                    },
                }
            }
        },
        Err(e) => Err(e),
    }
}

/// A reader over an action-log container: a storage backend holding a
/// metadata document and tick-counted chunk entries.
pub struct FlashbackReader<R: ArchiveReader> {
    reader: R,
}

impl<R: ArchiveReader> FlashbackReader<R> {
    /// The backend's entries, by name.
    pub closed spec fn spec_entries(&self) -> Map<Seq<char>, Seq<u8>> {
        self.reader.spec_entries()
    }

    /// Wrap a storage backend.
    pub fn new(reader: R) -> (r: Self)
        ensures
            r.spec_entries() == reader.spec_entries(),
    {
        Self { reader }
    }

    /// The raw bytes of the container's `metadata.json` entry —
    /// `EntryNotFound` exactly when the backend has none; parsing the
    /// document is the caller's concern.
    pub fn get_metadata(&mut self) -> (r: Result<Vec<u8>, Error>)
        ensures
            final(self).spec_entries() == old(self).spec_entries(),
            match r {
                Ok(v) => old(self).spec_entries().dom().contains("metadata.json"@) && v@ == old(
                    self,
                ).spec_entries()["metadata.json"@],
                Err(e) => (e == Error::EntryNotFound || e == Error::IOError) && (e
                    == Error::EntryNotFound <==> !old(self).spec_entries().dom().contains(
                    "metadata.json"@,
                )),
            },
    {
        self.reader.read_entry("metadata.json")
    }

    /// Read the chunk entry called `filename` and scan its records from
    /// tick `start_ticks`: the result is exactly the scan of that entry's
    /// bytes, and each failure names its stage — the entry absent, the
    /// backend failing, or the chunk header malformed, truncated, or
    /// carrying a bad varint.
    pub fn scan_chunk(&mut self, filename: &str, start_ticks: u64) -> (r: Result<
        Vec<(u64, Action)>,
        Error,
    >)
        ensures
            final(self).spec_entries() == old(self).spec_entries(),
            ({
                let doc = old(self).spec_entries();
                match r {
                    Ok(v) => doc.dom().contains(filename@) && match parse_chunk_header(
                        doc[filename@],
                    ) {
                        ChunkHeaderParse::Header(ks, n) => action_models(v@) == scan_chunk_records(
                            doc[filename@].skip(n),
                            ks,
                            start_ticks,
                        ),
                        _ => false,
                    },
                    Err(Error::EntryNotFound) => !doc.dom().contains(filename@),
                    Err(Error::IOError) => true,
                    Err(Error::MetadataFormatError) => doc.dom().contains(filename@)
                        && parse_chunk_header(doc[filename@]) is Malformed,
                    Err(Error::TruncatedInput) => doc.dom().contains(filename@)
                        && parse_chunk_header(doc[filename@]) is Cut,
                    Err(Error::MalformedVarint) => doc.dom().contains(filename@)
                        && parse_chunk_header(doc[filename@]) is BadVarint,
                }
            }),
    {
        match self.reader.read_entry(filename) {
            Ok(bytes) => scan_chunk_bytes(bytes, start_ticks),
            Err(e) => Err(e),
        }
    }
}

/// A writer over an action-log container.
pub struct FlashbackWriter<W: ArchiveWriter> {
    writer: W,
}

impl<W: ArchiveWriter> FlashbackWriter<W> {
    /// The backend's entries so far, by name.
    pub closed spec fn spec_entries(&self) -> Map<Seq<char>, Seq<u8>> {
        self.writer.spec_entries()
    }

    /// Wrap a storage backend.
    pub fn new(writer: W) -> (r: Self)
        ensures
            r.spec_entries() == writer.spec_entries(),
    {
        Self { writer }
    }

    /// Write the serialized metadata document as the container's
    /// `metadata.json` entry: on success the backend gains exactly that
    /// entry.
    pub fn write_metadata(&mut self, document: &[u8]) -> (r: Result<(), Error>)
        ensures
            r is Ok ==> final(self).spec_entries() == old(self).spec_entries().insert(
                "metadata.json"@,
                document@,
            ),
    {
        self.writer.write_entry("metadata.json", document)
    }
}

} // verus!
