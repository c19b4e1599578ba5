//! The replay packet container: packet record framing, the protocol-phase
//! tracker, packet streams over container entries, and session metadata.
//!
//! A packet record on the wire is an 8-byte header — big-endian `u32` time,
//! big-endian `u32` total length — followed by the varint-encoded packet
//! identifier and the raw payload.  The length field counts the identifier
//! varint plus the payload, not the header.

use vstd::prelude::*;

use crate::archive::zip::{zip_entries, ZipArchiveReader, ZipArchiveWriter};
use crate::archive::{ArchiveReader, ArchiveWriter};
use crate::error::Error;
use crate::protocol::{
    be32_bytes, be32_val, i32_to_u32, lemma_be32_round_trip, lemma_varint_bytes_len_at_most,
    lemma_varint_encoding_reads_back, pow128, read_u32_be, read_varint, u32_to_i32, varint_bytes,
    varint_len, varint_nat, varint_status, varint_val32, write_u32_be, write_varint, VarintStatus,
};

verus! {

/// One timestamped, identified, opaque-payload record of a recording stream.
#[derive(Debug)]
pub struct Packet {
    time: u32,
    id: i32,
    data: Vec<u8>,
}

/// The mathematical content of a [`Packet`].
pub struct PacketModel {
    /// Millisecond/tick offset from the start of the source stream.
    pub time: u32,
    /// The protocol packet identifier.
    pub id: i32,
    /// The payload after the identifier varint.
    pub data: Seq<u8>,
}

impl View for Packet {
    type V = PacketModel;

    closed spec fn view(&self) -> PacketModel {
        PacketModel { time: self.time, id: self.id, data: self.data@ }
    }
}

impl Packet {
    /// Build a packet from its parts.
    pub fn new(time: u32, id: i32, data: Vec<u8>) -> (r: Self)
        ensures
            r@.time == time,
            r@.id == id,
            r@.data == data@,
    {
        Self { time, id, data }
    }

    /// The packet's time offset.
    pub fn time(&self) -> (r: u32)
        ensures
            r == self@.time,
    {
        self.time
    }

    /// Rewrite the packet's time offset; used by the merge engine to re-base
    /// packets onto the combined timeline.
    pub fn set_time(&mut self, time: u32)
        ensures
            final(self)@.time == time,
            final(self)@.id == old(self)@.id,
            final(self)@.data == old(self)@.data,
    {
        self.time = time;
    }

    /// The packet identifier.
    pub fn id(&self) -> (r: i32)
        ensures
            r == self@.id,
    {
        self.id
    }

    /// The opaque payload.
    pub fn data(&self) -> (r: &Vec<u8>)
        ensures
            r@ == self@.data,
    {
        &self.data
    }

    /// The derived length field of this packet's record: the bytes of the
    /// identifier varint plus the payload, not counting the 8-byte header;
    /// `None` when it does not fit the wire format's `u32`.
    pub fn length(&self) -> (r: Option<u32>)
        ensures
            match r {
                Some(l) => packet_encodable(self@) && l == packet_body_len(self@),
                None => !packet_encodable(self@),
            },
    {
        let mut id_buf: Vec<u8> = Vec::new();
        write_varint(self.id, &mut id_buf);
        proof {
            reveal_with_fuel(pow128, 6);
            lemma_varint_bytes_len_at_most(i32_to_u32(self.id) as nat, 5);
        }
        if self.data.len() as u64 > 0xffff_ffff {
            None
        } else if id_buf.len() as u64 + self.data.len() as u64 > 0xffff_ffff {
            None
        } else {
            Some((id_buf.len() + self.data.len()) as u32)
        }
    }

    /// A copy of this packet carrying a different time offset.
    pub fn with_time(&self, time: u32) -> (r: Self)
        ensures
            r@.time == time,
            r@.id == self@.id,
            r@.data == self@.data,
    {
        Self { time, id: self.id, data: slice_to_vec_u8(self.data.as_slice()) }
    }

    /// Serialize this packet, appending its encoding to `out`.
    pub fn write_to(&self, out: &mut Vec<u8>)
        requires
            packet_encodable(self@),
        ensures
            final(out)@ == old(out)@ + packet_bytes(self@),
    {
        write_packet(self, out)
    }

    /// Deserialize one packet from `bytes` at `pos`; see [`read_packet`].
    pub fn read_from(bytes: &[u8], pos: usize) -> (r: Result<Option<(Self, usize)>, Error>)
        requires
            pos <= bytes@.len(),
        ensures
            read_packet_ensures(bytes@.skip(pos as int), r),
    {
        read_packet(bytes, pos)
    }
}

/// The varint encoding of a packet's identifier.
pub open spec fn packet_id_bytes(p: PacketModel) -> Seq<u8> {
    varint_bytes(i32_to_u32(p.id) as nat)
}

/// The length stored in a packet's header: identifier varint plus payload.
pub open spec fn packet_body_len(p: PacketModel) -> nat {
    packet_id_bytes(p).len() + p.data.len()
}

/// Whether the derived length field fits the wire format's `u32`.
pub open spec fn packet_encodable(p: PacketModel) -> bool {
    packet_body_len(p) <= u32::MAX
}

/// The full wire encoding of one packet record.
pub open spec fn packet_bytes(p: PacketModel) -> Seq<u8> {
    be32_bytes(p.time) + be32_bytes(packet_body_len(p) as u32) + packet_id_bytes(p) + p.data
}

/// What parsing one packet record at the front of a stream yields.
pub enum PacketParse {
    /// The stream ended cleanly before the first header byte.
    End,
    /// The stream ended mid-header or mid-payload.
    Truncated,
    /// The identifier varint ran past its 5-byte budget.
    BadVarint,
    /// A packet, and the count of bytes its record occupies.
    Found(PacketModel, nat),
}

/// Parse one packet record from the front of `s`.
pub open spec fn parse_packet(s: Seq<u8>) -> PacketParse {
    if s.len() == 0 {
        PacketParse::End
    } else if s.len() < 8 {
        PacketParse::Truncated
    } else {
        let time = be32_val(s.subrange(0, 4));
        let len = be32_val(s.subrange(4, 8)) as nat;
        if s.len() < 8 + len {
            PacketParse::Truncated
        } else {
            let body = s.subrange(8, 8 + len as int);
            match varint_status(body, 5) {
                VarintStatus::Done => PacketParse::Found(
                    PacketModel {
                        time,
                        id: varint_val32(body),
                        data: body.skip(varint_len(body) as int),
                    },
                    8 + len,
                ),
                VarintStatus::TooLong => PacketParse::BadVarint,
                VarintStatus::Cut => PacketParse::Truncated,
            }
        }
    }
}

/// The contract of [`read_packet`]: each parse outcome maps to exactly one
/// result, so clean end-of-stream, truncation, and a malformed identifier
/// varint are all distinguished.
pub open spec fn read_packet_ensures(s: Seq<u8>, r: Result<Option<(Packet, usize)>, Error>) -> bool {
    match parse_packet(s) {
        PacketParse::End => r == Ok::<Option<(Packet, usize)>, Error>(None),
        PacketParse::Truncated => r == Err::<Option<(Packet, usize)>, Error>(Error::TruncatedInput),
        PacketParse::BadVarint => r == Err::<Option<(Packet, usize)>, Error>(
            Error::MalformedVarint,
        ),
        PacketParse::Found(pv, n) => match r {
            Ok(Some((p, m))) => p@ == pv && m == n,
            _ => false,
        },
    }
}

/// Serialize `packet`, appending its wire encoding to `out`.  The length
/// field is always recomputed from the identifier varint and the payload,
/// never taken from a stored value.
pub fn write_packet(packet: &Packet, out: &mut Vec<u8>)
    requires
        packet_encodable(packet@),
    ensures
        final(out)@ == old(out)@ + packet_bytes(packet@),
{
    let mut id_buf: Vec<u8> = Vec::new();
    write_varint(packet.id(), &mut id_buf);
    let data = packet.data();
    let body_len: u32 = (id_buf.len() + data.len()) as u32;
    write_u32_be(packet.time(), out);
    write_u32_be(body_len, out);
    let mut rest = id_buf;
    out.append(&mut rest);
    let mut payload = slice_to_vec_u8(data.as_slice());
    out.append(&mut payload);
    assert(final(out)@ =~= old(out)@ + packet_bytes(packet@));
}

/// Copy a byte slice into a fresh vector.
pub(crate) fn slice_to_vec_u8(s: &[u8]) -> (r: Vec<u8>)
    ensures
        r@ == s@,
{
    let mut r: Vec<u8> = Vec::new();
    let mut i: usize = 0;
    while i < s.len()
        invariant
            i <= s@.len(),
            r@ == s@.take(i as int),
        decreases s@.len() - i,
    {
        r.push(s[i]);
        i = i + 1;
        assert(r@ =~= s@.take(i as int));
    }
    assert(r@ =~= s@);
    r
}

/// Copy `count` bytes starting at `start` into a fresh vector.
pub(crate) fn copy_range(bytes: &[u8], start: usize, count: usize) -> (r: Vec<u8>)
    requires
        start + count <= bytes@.len(),
    ensures
        r@ == bytes@.subrange(start as int, start + count),
{
    let n: usize = bytes.len();
    let sub = vstd::slice::slice_subrange(bytes, start, start + count);
    slice_to_vec_u8(sub)
}

/// Deserialize one packet record from `bytes` at `pos`.
///
/// End-of-stream on the first header byte is the normal exhaustion signal
/// (`Ok(None)`); end-of-stream mid-header or mid-payload is
/// `TruncatedInput`; an identifier varint without a terminator in 5 bytes is
/// `MalformedVarint`.  On success the record's byte count is returned
/// alongside the packet.
pub fn read_packet(bytes: &[u8], pos: usize) -> (r: Result<Option<(Packet, usize)>, Error>)
    requires
        pos <= bytes@.len(),
    ensures
        read_packet_ensures(bytes@.skip(pos as int), r),
{
    let ghost s: Seq<u8> = bytes@.skip(pos as int);
    let avail: usize = bytes.len() - pos;
    if avail == 0 {
        return Ok(None);
    }
    if avail < 8 {
        return Err(Error::TruncatedInput);
    }
    let time: u32 = read_u32_be(bytes, pos);
    let len32: u32 = read_u32_be(bytes, pos + 4);
    proof {
        assert(bytes@.subrange(pos as int, pos + 4) =~= s.subrange(0, 4));
        assert(bytes@.subrange(pos + 4, pos + 8) =~= s.subrange(4, 8));
    }
    let len: usize = len32 as usize;
    if avail - 8 < len {
        return Err(Error::TruncatedInput);
    }
    let body: Vec<u8> = copy_range(bytes, pos + 8, len);
    proof {
        assert(body@ =~= s.subrange(8, 8 + len as int));
    }
    match read_varint(body.as_slice(), 0) {
        Ok((id, id_len)) => {
            proof {
                assert(body@.skip(0) =~= body@);
            }
            let data: Vec<u8> = copy_range(body.as_slice(), id_len, len - id_len);
            let packet = Packet { time, id, data };
            proof {
                assert(packet@.data =~= body@.skip(varint_len(body@) as int));
            }
            Ok(Some((packet, 8 + len)))
        },
        Err(e) => {
            proof {
                assert(body@.skip(0) =~= body@);
            }
            Err(e)
        },
    }
}

/// Parsing an encoded packet record gives the packet back and consumes
/// exactly its encoding, whatever follows it.
pub proof fn lemma_packet_round_trip(p: PacketModel, rest: Seq<u8>)
    requires
        packet_encodable(p),
    ensures
        parse_packet(packet_bytes(p) + rest) == PacketParse::Found(p, packet_bytes(p).len()),
        packet_bytes(p).len() == 8 + packet_body_len(p),
{
    let s = packet_bytes(p) + rest;
    let body_len = packet_body_len(p);
    assert(s.subrange(0, 4) =~= be32_bytes(p.time));
    assert(s.subrange(4, 8) =~= be32_bytes(body_len as u32));
    lemma_be32_round_trip(p.time);
    lemma_be32_round_trip(body_len as u32);
    let body = s.subrange(8, 8 + body_len as int);
    assert(body =~= packet_id_bytes(p) + p.data);
    let u = i32_to_u32(p.id) as nat;
    reveal_with_fuel(pow128, 6);
    lemma_varint_bytes_len_at_most(u, 5);
    lemma_varint_encoding_reads_back(u, p.data, 5);
    assert(varint_nat(body) == u);
    assert(u % 0x1_0000_0000 == u);
    lemma_bit_pattern_inverse(p.id);
    assert(body.skip(varint_len(body) as int) =~= p.data);
    assert(parse_packet(s) == PacketParse::Found(p, 8 + body_len)) by {
        assert(varint_status(body, 5) is Done);
        let found = parse_packet(s);
        match found {
            PacketParse::Found(pv, n) => {
                assert(pv.time == p.time);
                assert(pv.id == p.id);
                assert(pv.data =~= p.data);
            },
            _ => {
                assert(false);
            },
        }
    }
}

/// Converting an `i32` to its bit pattern and back is the identity.
pub proof fn lemma_bit_pattern_inverse(v: i32)
    ensures
        u32_to_i32(i32_to_u32(v)) == v,
{
}

/// The protocol sub-state a packet was recorded in, inferred from packet
/// identifiers alone.  A container stream begins post-handshake, in `Login`.
#[derive(Debug, Clone, Copy, PartialEq, Eq, Structural)]
pub enum State {
    /// The initial wire handshake.
    Handshaking,
    /// The server-list status exchange.
    Status,
    /// The login exchange; the initial state for container streams.
    Login,
    /// The configuration exchange.
    Configuration,
    /// Ordinary play; terminal for stream scanning.
    Play,
}

/// The state after observing one packet identifier: `Login` moves to
/// `Configuration` on identifier `0x02`, `Configuration` moves to `Play` on
/// identifier `0x03`, and nothing else transitions.
pub open spec fn next_state(s: State, id: i32) -> State {
    if s is Login && id == 0x02 {
        State::Configuration
    } else if s is Configuration && id == 0x03 {
        State::Play
    } else {
        s
    }
}

/// A state's position along the forward-only phase order.
pub open spec fn phase_rank(s: State) -> int {
    match s {
        State::Handshaking => 0,
        State::Status => 1,
        State::Login => 2,
        State::Configuration => 3,
        State::Play => 4,
    }
}

/// Phase tracking never regresses: each observed identifier leaves the
/// state where it was or moves it strictly forward, and `Play` is terminal.
pub proof fn lemma_phase_monotone(s: State, id: i32)
    ensures
        phase_rank(next_state(s, id)) >= phase_rank(s),
        s is Play ==> next_state(s, id) is Play,
{
}

/// Advance the phase tracker by one observed packet identifier.
pub fn advance_state(s: State, id: i32) -> (r: State)
    ensures
        r == next_state(s, id),
{
    match s {
        State::Login => if id == 0x02 {
            State::Configuration
        } else {
            State::Login
        },
        State::Configuration => if id == 0x03 {
            State::Play
        } else {
            State::Configuration
        },
        other => other,
    }
}

/// A lazy, single-pass reader of packet records from one container entry,
/// tagging each packet with the phase it was read in.
pub struct ReadablePacketStream {
    state: State,
    bytes: Vec<u8>,
    pos: usize,
}

impl ReadablePacketStream {
    /// The stream is positioned inside its buffer.
    pub closed spec fn wf(&self) -> bool {
        self.pos <= self.bytes@.len()
    }

    /// The phase the next packet will be tagged with.
    pub closed spec fn spec_state(&self) -> State {
        self.state
    }

    /// The bytes not yet consumed.
    pub closed spec fn remaining(&self) -> Seq<u8> {
        self.bytes@.skip(self.pos as int)
    }

    /// Open a packet stream over the bytes of a container entry, starting in
    /// the given phase.
    pub fn new(state: State, bytes: Vec<u8>) -> (r: Self)
        ensures
            r.wf(),
            r.spec_state() == state,
            r.remaining() == bytes@,
    {
        let r = Self { state, bytes, pos: 0 };
        proof {
            assert(r.remaining() =~= r.bytes@);
        }
        r
    }

    /// Read the next packet, tagged with the phase it was read in; the
    /// phase advances only after the packet is tagged, so only subsequent
    /// packets see a transition.  `Ok(None)` is the normal end of the
    /// stream; errors abort the scan and leave the stream where it was.
    pub fn next(&mut self) -> (r: Result<Option<(State, Packet)>, Error>)
        requires
            old(self).wf(),
        ensures
            final(self).wf(),
            match parse_packet(old(self).remaining()) {
                PacketParse::End => r == Ok::<Option<(State, Packet)>, Error>(None) && *final(self)
                    == *old(self),
                PacketParse::Truncated => r == Err::<Option<(State, Packet)>, Error>(
                    Error::TruncatedInput,
                ) && *final(self) == *old(self),
                PacketParse::BadVarint => r == Err::<Option<(State, Packet)>, Error>(
                    Error::MalformedVarint,
                ) && *final(self) == *old(self),
                PacketParse::Found(pv, n) => match r {
                    Ok(Some((tag, p))) => {
                        &&& p@ == pv
                        &&& tag == old(self).spec_state()
                        &&& final(self).spec_state() == next_state(old(self).spec_state(), pv.id)
                        &&& final(self).remaining() == old(self).remaining().skip(n as int)
                    },
                    _ => false,
                },
            },
    {
        match read_packet(self.bytes.as_slice(), self.pos) {
            Ok(Some((packet, n))) => {
                let cap: usize = self.bytes.len();
                proof {
                    assert(n <= old(self).remaining().len());
                    assert(self.pos + n <= cap);
                }
                let tag = self.state;
                self.state = advance_state(self.state, packet.id());
                self.pos = self.pos + n;
                proof {
                    assert(final(self).remaining() =~= old(self).remaining().skip(n as int));
                }
                Ok(Some((tag, packet)))
            },
            Ok(None) => Ok(None),
            Err(e) => Err(e),
        }
    }
}

/// A writer of packet records into an in-memory container entry.
pub struct WritablePacketStream {
    bytes: Vec<u8>,
}

impl WritablePacketStream {
    /// The bytes written so far.
    pub closed spec fn spec_bytes(&self) -> Seq<u8> {
        self.bytes@
    }

    /// Open an empty packet sink.
    pub fn new() -> (r: Self)
        ensures
            r.spec_bytes() == Seq::<u8>::empty(),
    {
        let r = Self { bytes: Vec::new() };
        proof {
            assert(r.spec_bytes() =~= Seq::<u8>::empty());
        }
        r
    }

    /// Append one packet record.
    pub fn push(&mut self, packet: &Packet)
        requires
            packet_encodable(packet@),
        ensures
            final(self).spec_bytes() == old(self).spec_bytes() + packet_bytes(packet@),
    {
        write_packet(packet, &mut self.bytes)
    }

    /// Hand the accumulated entry bytes over.
    pub fn into_bytes(self) -> (r: Vec<u8>)
        ensures
            r@ == self.spec_bytes(),
    {
        self.bytes
    }
}

/// What parsing a whole packet entry yields.
pub enum StreamParse {
    /// Every record parsed; the stream ended cleanly.
    Packets(Seq<PacketModel>),
    /// The stream ended inside a record.
    Truncated,
    /// An identifier varint inside a record was malformed.
    BadVarint,
}

/// Parse packet records from `s` until the clean end of the stream or the
/// first malformed record.
pub open spec fn parse_stream(s: Seq<u8>) -> StreamParse
    decreases s.len(),
{
    match parse_packet(s) {
        PacketParse::End => StreamParse::Packets(Seq::empty()),
        PacketParse::Truncated => StreamParse::Truncated,
        PacketParse::BadVarint => StreamParse::BadVarint,
        PacketParse::Found(p, n) => if 1 <= n <= s.len() {
            match parse_stream(s.skip(n as int)) {
                StreamParse::Packets(r) => StreamParse::Packets(seq![p] + r),
                other => other,
            }
        } else {
            StreamParse::Truncated
        },
    }
}

/// The models of a sequence of packets.
pub open spec fn packet_models(ps: Seq<Packet>) -> Seq<PacketModel> {
    ps.map_values(|p: Packet| p@)
}

/// The encoding of a whole packet sequence: each record's bytes,
/// concatenated with no separators.
pub open spec fn stream_bytes(ps: Seq<PacketModel>) -> Seq<u8>
    decreases ps.len(),
{
    if ps.len() == 0 {
        Seq::empty()
    } else {
        packet_bytes(ps[0]) + stream_bytes(ps.drop_first())
    }
}

/// Stream round trip: parsing the concatenated encodings of any packet
/// sequence gives exactly that sequence back, ending cleanly.
#[verifier::rlimit(40)]
pub proof fn lemma_stream_round_trip(ps: Seq<PacketModel>)
    requires
        forall|i: int| 0 <= i < ps.len() ==> packet_encodable(#[trigger] ps[i]),
    ensures
        parse_stream(stream_bytes(ps)) == StreamParse::Packets(ps),
    decreases ps.len(),
{
    if ps.len() == 0 {
        assert(ps =~= Seq::<PacketModel>::empty());
    } else {
        let rest = ps.drop_first();
        let s = stream_bytes(ps);
        let n = packet_bytes(ps[0]).len() as int;
        lemma_packet_round_trip(ps[0], stream_bytes(rest));
        assert(parse_packet(s) == PacketParse::Found(ps[0], n as nat));
        assert forall|i: int| 0 <= i < rest.len() implies packet_encodable(
            #[trigger] rest[i],
        ) by {
            assert(rest[i] == ps[i + 1]);
        }
        lemma_stream_round_trip(rest);
        assert(s.skip(n) =~= stream_bytes(rest));
        assert(parse_stream(s.skip(n)) == StreamParse::Packets(rest));
        assert(1 <= n <= s.len());
        assert(seq![ps[0]] + rest =~= ps);
    }
}

/// Parse a whole packet entry into its records.  Returns every record in
/// order when the stream ends cleanly, and the first record's failure
/// otherwise.
pub fn read_all_packets(bytes: &[u8]) -> (r: Result<Vec<Packet>, Error>)
    ensures
        match r {
            Ok(v) => parse_stream(bytes@) == StreamParse::Packets(packet_models(v@)),
            Err(Error::TruncatedInput) => parse_stream(bytes@) is Truncated,
            Err(Error::MalformedVarint) => parse_stream(bytes@) is BadVarint,
            Err(_) => false,
        },
{
    let mut acc: Vec<Packet> = Vec::new();
    let mut pos: usize = 0;
    let ghost s0: Seq<u8> = bytes@;
    proof {
        assert(bytes@.skip(0) =~= bytes@);
    }
    loop
        invariant
            pos <= bytes@.len(),
            parse_stream(bytes@) == (match parse_stream(bytes@.skip(pos as int)) {
                StreamParse::Packets(r) => StreamParse::Packets(packet_models(acc@) + r),
                other => other,
            }),
        decreases bytes@.len() - pos,
    {
        let ghost rem = bytes@.skip(pos as int);
        match read_packet(bytes, pos) {
            Ok(Some((p, n))) => {
                proof {
                    assert(parse_packet(rem) matches PacketParse::Found(pv, m) && pv == p@ && m
                        == n);
                    assert(rem.skip(n as int) =~= bytes@.skip(pos + n));
                    assert(packet_models(acc@.push(p)) =~= packet_models(acc@) + seq![p@]);
                    if parse_stream(bytes@.skip(pos + n)) is Packets {
                        let tail = parse_stream(bytes@.skip(pos + n))->Packets_0;
                        assert(packet_models(acc@) + (seq![p@] + tail) =~= (packet_models(acc@)
                            + seq![p@]) + tail);
                    }
                }
                let cap: usize = bytes.len();
                proof {
                    assert(n <= rem.len());
                    assert(pos + n <= cap);
                }
                acc.push(p);
                pos = pos + n;
            },
            Ok(None) => {
                proof {
                    assert(packet_models(acc@) + Seq::<PacketModel>::empty() =~= packet_models(
                        acc@,
                    ));
                }
                return Ok(acc);
            },
            Err(e) => {
                return Err(e);
            },
        }
    }
}

/// A session metadata record: flags, display names, the total duration,
/// format and protocol tags, and the set of unique participants.
///
/// Participants are 128-bit identifiers; the document this record mirrors
/// keeps them as a set, so duplicates collapse to one entry.
#[derive(Debug)]
pub struct MetaData {
    /// Whether the session was recorded in single-player mode.
    pub singleplayer: bool,
    /// The server address the session was recorded on.
    pub server_name: String,
    /// A display name overriding the server address.
    pub custom_server_name: String,
    /// Total elapsed ticks/ms across the session's streams.
    pub duration: u64,
    /// The recording date, in epoch milliseconds.
    pub date: u64,
    /// The game version the session was recorded under.
    pub mcversion: String,
    /// The container format tag.
    pub file_format: String,
    /// The container format version.
    pub file_format_version: u32,
    /// The network protocol version.
    pub protocol: u32,
    /// The tool that produced the container.
    pub generator: String,
    /// The entity identifier of the recording player.
    pub self_id: i32,
    /// The unique participant identifiers, as 128-bit values.
    pub players: Vec<u128>,
}

/// The mathematical content of a [`MetaData`].
pub struct MetaDataModel {
    /// Whether the session was recorded in single-player mode.
    pub singleplayer: bool,
    /// The server address the session was recorded on.
    pub server_name: Seq<char>,
    /// A display name overriding the server address.
    pub custom_server_name: Seq<char>,
    /// Total elapsed ticks/ms across the session's streams.
    pub duration: u64,
    /// The recording date, in epoch milliseconds.
    pub date: u64,
    /// The game version the session was recorded under.
    pub mcversion: Seq<char>,
    /// The container format tag.
    pub file_format: Seq<char>,
    /// The container format version.
    pub file_format_version: u32,
    /// The network protocol version.
    pub protocol: u32,
    /// The tool that produced the container.
    pub generator: Seq<char>,
    /// The entity identifier of the recording player.
    pub self_id: i32,
    /// The unique participant identifiers.
    pub players: Seq<u128>,
}

impl View for MetaData {
    type V = MetaDataModel;

    open spec fn view(&self) -> MetaDataModel {
        MetaDataModel {
            singleplayer: self.singleplayer,
            server_name: self.server_name@,
            custom_server_name: self.custom_server_name@,
            duration: self.duration,
            date: self.date,
            mcversion: self.mcversion@,
            file_format: self.file_format@,
            file_format_version: self.file_format_version,
            protocol: self.protocol,
            generator: self.generator@,
            self_id: self.self_id,
            players: self.players@,
        }
    }
}

impl MetaData {
    /// A deep copy, model-equal to this record.
    pub fn duplicate(&self) -> (r: Self)
        ensures
            r@ == self@,
    {
        let r = MetaData {
            singleplayer: self.singleplayer,
            server_name: self.server_name.clone(),
            custom_server_name: self.custom_server_name.clone(),
            duration: self.duration,
            date: self.date,
            mcversion: self.mcversion.clone(),
            file_format: self.file_format.clone(),
            file_format_version: self.file_format_version,
            protocol: self.protocol,
            generator: self.generator.clone(),
            self_id: self.self_id,
            players: copy_u128_vec(&self.players),
        };
        r
    }
}

/// Copy a vector of 128-bit identifiers.
fn copy_u128_vec(v: &Vec<u128>) -> (r: Vec<u128>)
    ensures
        r@ == v@,
{
    let mut r: Vec<u128> = Vec::new();
    let mut i: usize = 0;
    while i < v.len()
        invariant
            i <= v@.len(),
            r@ == v@.take(i as int),
        decreases v@.len() - i,
    {
        r.push(v[i]);
        i = i + 1;
        assert(r@ =~= v@.take(i as int));
    }
    assert(r@ =~= v@);
    r
}

/// A replay container opened for reading: a compressed archive holding a
/// `metaData.json` entry and a `recording.tmcpr` packet entry.
pub struct MCPRReader {
    archive: ZipArchiveReader,
}

impl MCPRReader {
    /// The container's entries, by name.
    pub closed spec fn spec_entries(&self) -> Map<Seq<char>, Seq<u8>> {
        self.archive.spec_entries()
    }

    /// Open the container held in `bytes`: exactly the entries those
    /// bytes hold become readable; `IOError` when the bytes are not a
    /// readable archive.
    pub fn new(bytes: Vec<u8>) -> (r: Result<Self, Error>)
        ensures
            match r {
                Ok(c) => zip_entries(bytes@) == Some(c.spec_entries()),
                Err(e) => zip_entries(bytes@) is None && e == Error::IOError,
            },
    {
        match ZipArchiveReader::new(bytes) {
            Ok(archive) => Ok(MCPRReader { archive }),
            Err(e) => Err(e),
        }
    }

    /// The raw bytes of the container's `metaData.json` entry —
    /// `EntryNotFound` exactly when the container has none; parsing the
    /// document is the caller's concern.
    pub fn read_metadata(&mut self) -> (r: Result<Vec<u8>, Error>)
        ensures
            final(self).spec_entries() == old(self).spec_entries(),
            match r {
                Ok(v) => old(self).spec_entries().dom().contains("metaData.json"@) && v@ == old(
                    self,
                ).spec_entries()["metaData.json"@],
                Err(e) => (e == Error::EntryNotFound || e == Error::IOError) && (e
                    == Error::EntryNotFound <==> !old(self).spec_entries().dom().contains(
                    "metaData.json"@,
                )),
            },
    {
        self.archive.read_entry("metaData.json")
    }

    /// A packet stream over the bytes of the container's
    /// `recording.tmcpr` entry, starting — as the container format does —
    /// in the `Login` phase; `EntryNotFound` exactly when the container
    /// has no such entry.
    pub fn get_packet_reader(&mut self) -> (r: Result<ReadablePacketStream, Error>)
        ensures
            final(self).spec_entries() == old(self).spec_entries(),
            match r {
                Ok(stream) => {
                    &&& stream.wf()
                    &&& stream.spec_state() is Login
                    &&& old(self).spec_entries().dom().contains("recording.tmcpr"@)
                    &&& stream.remaining() == old(self).spec_entries()["recording.tmcpr"@]
                },
                Err(e) => (e == Error::EntryNotFound || e == Error::IOError) && (e
                    == Error::EntryNotFound <==> !old(self).spec_entries().dom().contains(
                    "recording.tmcpr"@,
                )),
            },
    {
        match self.archive.read_entry("recording.tmcpr") {
            Ok(bytes) => Ok(ReadablePacketStream::new(State::Login, bytes)),
            Err(e) => Err(e),
        }
    }
}

/// A replay container being written: a compressed archive taking a
/// metadata entry and a packet entry, each written whole.
pub struct MCPRWriter {
    archive: ZipArchiveWriter,
}

impl MCPRWriter {
    /// The container's entries so far, by name.
    pub closed spec fn spec_entries(&self) -> Map<Seq<char>, Seq<u8>> {
        self.archive.spec_entries()
    }

    /// The compression level entries are stored at.
    pub closed spec fn spec_level(&self) -> Option<i64> {
        self.archive.spec_level()
    }

    /// An empty container compressing its entries at `compression_level`;
    /// the level never changes what an entry reads back as.
    pub fn new(compression_level: Option<i64>) -> (r: Self)
        ensures
            r.spec_entries() =~= Map::empty(),
            r.spec_level() == compression_level,
    {
        MCPRWriter { archive: ZipArchiveWriter::new(compression_level) }
    }

    /// Write the serialized metadata document as the container's
    /// `metaData.json` entry: on success the container gains exactly that
    /// entry.
    pub fn write_metadata(&mut self, document: &[u8]) -> (r: Result<(), Error>)
        ensures
            r is Ok ==> final(self).spec_entries() == old(self).spec_entries().insert(
                "metaData.json"@,
                document@,
            ),
    {
        self.archive.write_entry("metaData.json", document)
    }

    /// Write an accumulated packet stream as the container's
    /// `recording.tmcpr` entry: on success the container gains exactly
    /// that entry, holding the stream's bytes.
    pub fn write_packets(&mut self, stream: WritablePacketStream) -> (r: Result<(), Error>)
        ensures
            r is Ok ==> final(self).spec_entries() == old(self).spec_entries().insert(
                "recording.tmcpr"@,
                stream.spec_bytes(),
            ),
    {
        let bytes = stream.into_bytes();
        self.archive.write_entry("recording.tmcpr", bytes.as_slice())
    }

    /// Close the container and hand its raw bytes over: they decode back
    /// to exactly the entries written.
    pub fn finish(self) -> (r: Result<Vec<u8>, Error>)
        ensures
            match r {
                Ok(bytes) => zip_entries(bytes@) == Some(self.spec_entries()),
                Err(e) => e == Error::IOError,
            },
    {
        self.archive.finish()
    }
}

impl Default for MetaData {
    /// An empty session record: blank names, zero duration, no
    /// participants, and the conventional `-1` recording-player identifier.
    fn default() -> (r: Self)
        ensures
            r@.singleplayer == false,
            r@.server_name.len() == 0,
            r@.custom_server_name.len() == 0,
            r@.duration == 0,
            r@.date == 0,
            r@.mcversion.len() == 0,
            r@.file_format.len() == 0,
            r@.file_format_version == 0,
            r@.protocol == 0,
            r@.generator.len() == 0,
            r@.self_id == -1,
            r@.players.len() == 0,
    {
        MetaData {
            singleplayer: false,
            server_name: String::new(),
            custom_server_name: String::new(),
            duration: 0,
            date: 0,
            mcversion: String::new(),
            file_format: String::new(),
            file_format_version: 0,
            protocol: 0,
            generator: String::new(),
            self_id: -1,
            players: Vec::new(),
        }
    }
}

} // verus!
