//! The media channel: frame headers, frame payloads and the demultiplexer
//! that turns blocks read from the channel into packets.

use crate::bytes::{copy_range, le_u16, le_u32, read_u16, read_u32};
use vstd::prelude::*;
use vstd::slice::slice_subrange;

verus! {

/// Length of the header block that precedes every frame.
pub const FRAME_HEADER_LEN: usize = 23;

/// Size of the scratch buffer a demultiplexer starts with.
pub const SCRATCH_LEN: usize = 204800;

/// Discriminator of a video frame.
pub const KIND_VIDEO: u16 = 1;

/// Discriminator of an audio frame.
pub const KIND_AUDIO: u16 = 2;

/// One packet of the media stream.
#[derive(Debug, Clone, PartialEq, Eq)]
pub enum StreamPacket {
    Video { video_type: u8, timestamp: u32, data: Vec<u8> },
    Audio { offset: i16, index: u8, timestamp: u32, data: Vec<u8> },
}

/// A packet as a mathematical value.
pub enum Packet {
    Video { video_type: u8, timestamp: u32, data: Seq<u8> },
    Audio { offset: i16, index: u8, timestamp: u32, data: Seq<u8> },
}

impl View for StreamPacket {
    type V = Packet;

    open spec fn view(&self) -> Packet {
        match *self {
            StreamPacket::Video { video_type, timestamp, data } => Packet::Video {
                video_type,
                timestamp,
                data: data@,
            },
            StreamPacket::Audio { offset, index, timestamp, data } => Packet::Audio {
                offset,
                index,
                timestamp,
                data: data@,
            },
        }
    }
}

/// Why a frame could not be turned into a packet.
#[derive(Debug, Clone, Copy, PartialEq, Eq)]
pub enum FramingError {
    /// The discriminator names neither video nor audio.
    UnknownKind,
    /// A block or a payload is shorter or longer than its frame declares.
    Truncated,
}

/// What a header block says of the frame that follows it.
#[derive(Debug, Clone, Copy, PartialEq, Eq)]
pub struct FrameHeader {
    pub kind: u16,
    pub length: u32,
}

/// The block starts with the four marker bytes `MO_V`.
pub open spec fn has_marker(block: Seq<u8>) -> bool {
    &&& block.len() >= 4
    &&& block[0] == 0x4D
    &&& block[1] == 0x4F
    &&& block[2] == 0x5F
    &&& block[3] == 0x56
}

/// The header that a block holds: none unless it is 23 bytes long and
/// starts with the marker; else the discriminator at offset 4 and the
/// payload length at offset 15.
pub open spec fn header_of(block: Seq<u8>) -> Option<FrameHeader> {
    if block.len() == 23 && has_marker(block) {
        Some(FrameHeader { kind: le_u16(block, 4) as u16, length: le_u32(block, 15) as u32 })
    } else {
        None
    }
}

/// The packet that a payload of the given kind holds.
pub open spec fn packet_of(kind: u16, p: Seq<u8>) -> Result<Packet, FramingError> {
    if kind == KIND_VIDEO {
        if p.len() >= 13 && 13 + le_u32(p, 9) <= p.len() {
            Ok(
                Packet::Video {
                    video_type: p[8],
                    timestamp: le_u32(p, 0) as u32,
                    data: p.subrange(13, 13 + le_u32(p, 9)),
                },
            )
        } else {
            Err(FramingError::Truncated)
        }
    } else if kind == KIND_AUDIO {
        if p.len() >= 17 && 17 + le_u32(p, 13) <= p.len() {
            Ok(
                Packet::Audio {
                    offset: 0,
                    index: 0,
                    timestamp: le_u32(p, 0) as u32,
                    data: p.subrange(17, 17 + le_u32(p, 13)),
                },
            )
        } else {
            Err(FramingError::Truncated)
        }
    } else {
        Err(FramingError::UnknownKind)
    }
}

/// The outcome of a step as a mathematical value.
pub open spec fn outcome_view(r: Result<Option<StreamPacket>, FramingError>) -> Result<
    Option<Packet>,
    FramingError,
> {
    match r {
        Ok(Some(p)) => Ok(Some(p@)),
        Ok(None) => Ok(None),
        Err(e) => Err(e),
    }
}

/// Reads a header block.
pub fn parse_header(block: &[u8]) -> (h: Option<FrameHeader>)
    ensures
        h == header_of(block@),
{
    if block.len() != FRAME_HEADER_LEN {
        return None;
    }
    if block[0] != 0x4D || block[1] != 0x4F || block[2] != 0x5F || block[3] != 0x56 {
        return None;
    }
    Some(FrameHeader { kind: read_u16(block, 4), length: read_u32(block, 15) })
}

/// Reads the payload of a frame of the given kind.
pub fn parse_payload(kind: u16, payload: &[u8]) -> (r: Result<StreamPacket, FramingError>)
    ensures
        match r {
            Ok(p) => packet_of(kind, payload@) == Ok::<Packet, FramingError>(p@),
            Err(e) => packet_of(kind, payload@) == Err::<Packet, FramingError>(e),
        },
{
    if kind == KIND_VIDEO {
        if payload.len() < 13 {
            return Err(FramingError::Truncated);
        }
        let video_length: u32 = read_u32(payload, 9);
        if video_length as usize > payload.len() - 13 {
            return Err(FramingError::Truncated);
        }
        Ok(
            StreamPacket::Video {
                video_type: payload[8],
                timestamp: read_u32(payload, 0),
                data: copy_range(payload, 13, 13 + video_length as usize),
            },
        )
    } else if kind == KIND_AUDIO {
        if payload.len() < 17 {
            return Err(FramingError::Truncated);
        }
        let audio_length: u32 = read_u32(payload, 13);
        if audio_length as usize > payload.len() - 17 {
            return Err(FramingError::Truncated);
        }
        Ok(
            StreamPacket::Audio {
                offset: 0,
                index: 0,
                timestamp: read_u32(payload, 0),
                data: copy_range(payload, 17, 17 + audio_length as usize),
            },
        )
    } else {
        Err(FramingError::UnknownKind)
    }
}

/// Where the demultiplexer stands between two reads.
#[derive(Debug, Clone, Copy, PartialEq, Eq)]
pub enum DemuxState {
    /// The next block is a header block.
    Seek,
    /// The next block is the payload that the header announced.
    Payload(FrameHeader),
}

/// The demultiplexer: its state and the size of its scratch buffer.
#[derive(Debug, Clone, Copy, PartialEq, Eq)]
pub struct Demux {
    pub state: DemuxState,
    pub scratch_len: usize,
}

/// A list of packets as mathematical values.
pub open spec fn packets_view(v: Seq<StreamPacket>) -> Seq<Packet> {
    Seq::new(v.len(), |i: int| v[i]@)
}

/// What a demultiplexer makes of a stream: where it stands afterwards, the
/// packets it gave, how many bytes it took, and the error that stopped it.
pub struct Run {
    pub demux: Demux,
    pub packets: Seq<Packet>,
    pub used: int,
    pub error: Option<FramingError>,
}

/// The packet of a step, as a list of one or none.
pub open spec fn emitted(p: Option<Packet>) -> Seq<Packet> {
    match p {
        Some(p) => seq![p],
        None => Seq::empty(),
    }
}

impl Demux {
    /// The scratch buffer never shrinks below its first size and holds
    /// the payload that is awaited.
    pub open spec fn wf(&self) -> bool {
        &&& self.scratch_len >= SCRATCH_LEN
        &&& match self.state {
            DemuxState::Seek => true,
            DemuxState::Payload(h) => self.scratch_len >= h.length,
        }
    }

    /// How many bytes the next block must hold.
    pub open spec fn wanted_len(&self) -> int {
        match self.state {
            DemuxState::Seek => 23,
            DemuxState::Payload(h) => h.length as int,
        }
    }

    /// The state after a block, and what the block gave.
    ///
    /// A block of the wrong length is an error. A header block without
    /// the marker is dropped. One with the marker grows the scratch
    /// buffer to the announced length and awaits the payload. A payload
    /// gives its packet, and the next block is a header block again.
    pub open spec fn step(self, block: Seq<u8>) -> (Demux, Result<Option<Packet>, FramingError>) {
        if block.len() != self.wanted_len() {
            (self, Err(FramingError::Truncated))
        } else {
            match self.state {
                DemuxState::Seek => match header_of(block) {
                    None => (self, Ok(None)),
                    Some(h) => (
                        Demux {
                            state: DemuxState::Payload(h),
                            scratch_len: if h.length > self.scratch_len {
                                h.length as usize
                            } else {
                                self.scratch_len
                            },
                        },
                        Ok(None),
                    ),
                },
                DemuxState::Payload(h) => match packet_of(h.kind, block) {
                    Ok(p) => (
                        Demux { state: DemuxState::Seek, scratch_len: self.scratch_len },
                        Ok(Some(p)),
                    ),
                    Err(e) => (self, Err(e)),
                },
            }
        }
    }

    /// Orders the states for the walk over a stream: a payload is awaited
    /// after its header.
    pub open spec fn rank(&self) -> nat {
        match self.state {
            DemuxState::Seek => 0,
            DemuxState::Payload(_) => 1,
        }
    }

    /// The walk over a stream, block by block, until the stream holds less
    /// than the next block or a block is in error. The block in error and
    /// the incomplete block are not taken.
    pub open spec fn run(self, stream: Seq<u8>) -> Run
        decreases stream.len(), self.rank(),
    {
        let w = self.wanted_len();
        if stream.len() < w {
            Run { demux: self, packets: Seq::empty(), used: 0, error: None }
        } else {
            match self.step(stream.subrange(0, w)).1 {
                Err(e) => Run { demux: self, packets: Seq::empty(), used: 0, error: Some(e) },
                Ok(p) => {
                    let rest = self.step(stream.subrange(0, w)).0.run(stream.skip(w));
                    Run {
                        demux: rest.demux,
                        packets: emitted(p) + rest.packets,
                        used: w + rest.used,
                        error: rest.error,
                    }
                },
            }
        }
    }

    /// A demultiplexer that awaits a header block.
    pub fn new() -> (d: Demux)
        ensures
            d.state == DemuxState::Seek,
            d.scratch_len == SCRATCH_LEN,
            d.wf(),
    {
        Demux { state: DemuxState::Seek, scratch_len: SCRATCH_LEN }
    }

    /// How many bytes to read for the next block.
    pub fn wanted(&self) -> (n: usize)
        ensures
            n == self.wanted_len(),
    {
        match self.state {
            DemuxState::Seek => FRAME_HEADER_LEN,
            DemuxState::Payload(h) => h.length as usize,
        }
    }

    /// Size of the scratch buffer that the reader keeps.
    pub fn scratch_len(&self) -> (n: usize)
        ensures
            n == self.scratch_len,
    {
        self.scratch_len
    }

    /// Takes the block that was read and gives the packet it completed,
    /// if any.
    pub fn feed(&mut self, block: &[u8]) -> (r: Result<Option<StreamPacket>, FramingError>)
        ensures
            *final(self) == old(self).step(block@).0,
            outcome_view(r) == old(self).step(block@).1,
            final(self).scratch_len >= old(self).scratch_len,
            old(self).wf() ==> final(self).wf(),
    {
        if block.len() != self.wanted() {
            return Err(FramingError::Truncated);
        }
        match self.state {
            DemuxState::Seek => {
                match parse_header(block) {
                    None => {},
                    Some(h) => {
                        if h.length as usize > self.scratch_len {
                            self.scratch_len = h.length as usize;
                        }
                        self.state = DemuxState::Payload(h);
                    },
                }
                Ok(None)
            },
            DemuxState::Payload(h) => {
                match parse_payload(h.kind, block) {
                    Ok(p) => {
                        self.state = DemuxState::Seek;
                        Ok(Some(p))
                    },
                    Err(e) => Err(e),
                }
            },
        }
    }

    /// Takes from a stream every whole block that it holds, in order, and
    /// gives the packets, the number of bytes taken, and the error that
    /// stopped the walk, if one did.
    pub fn drain(&mut self, stream: &[u8]) -> (r: (Vec<StreamPacket>, usize, Option<FramingError>))
        ensures
            *final(self) == old(self).run(stream@).demux,
            packets_view(r.0@) == old(self).run(stream@).packets,
            r.1 == old(self).run(stream@).used,
            r.2 == old(self).run(stream@).error,
            r.1 <= stream@.len(),
            old(self).wf() ==> final(self).wf(),
    {
        let mut packets: Vec<StreamPacket> = Vec::new();
        let mut at: usize = 0;
        assert(stream@.skip(0) =~= stream@);
        assert(packets_view(packets@) + self.run(stream@).packets =~= self.run(stream@).packets);
        while stream.len() - at >= self.wanted()
            invariant
                at <= stream@.len(),
                old(self).wf() ==> self.wf(),
                old(self).run(stream@).demux == self.run(stream@.skip(at as int)).demux,
                old(self).run(stream@).packets == packets_view(packets@) + self.run(
                    stream@.skip(at as int),
                ).packets,
                old(self).run(stream@).used == at + self.run(stream@.skip(at as int)).used,
                old(self).run(stream@).error == self.run(stream@.skip(at as int)).error,
            decreases stream@.len() - at,
        {
            let w: usize = self.wanted();
            let block = slice_subrange(stream, at, at + w);
            let ghost before = *self;
            let ghost tail = stream@.skip(at as int);
            let ghost taken = packets@;
            proof {
                assert(block@ =~= tail.subrange(0, w as int));
                assert(tail.skip(w as int) =~= stream@.skip(at + w));
            }
            match self.feed(block) {
                Err(e) => {
                    assert(packets_view(packets@) + Seq::<Packet>::empty() =~= packets_view(
                        packets@,
                    ));
                    return (packets, at, Some(e));
                },
                Ok(found) => {
                    if let Some(p) = found {
                        packets.push(p);
                    }
                    proof {
                        let out = before.step(block@).1;
                        assert(packets_view(packets@) =~= packets_view(taken) + emitted(
                            out.unwrap(),
                        ));
                        assert(packets_view(packets@) + self.run(tail.skip(w as int)).packets
                            =~= packets_view(taken) + (emitted(out.unwrap()) + self.run(
                            tail.skip(w as int),
                        ).packets));
                    }
                    at += w;
                },
            }
        }
        assert(packets_view(packets@) + Seq::<Packet>::empty() =~= packets_view(packets@));
        (packets, at, None)
    }
}

/// A header block that does not start with the marker is dropped: no
/// error, no packet, and the next block is awaited as a header block.
pub proof fn lemma_mismatch_is_dropped(d: Demux, block: Seq<u8>)
    requires
        d.state == DemuxState::Seek,
        block.len() == 23,
        !has_marker(block),
    ensures
        d.step(block) == (d, Ok::<Option<Packet>, FramingError>(None)),
{
}

/// A header block with the marker grows the scratch buffer to the
/// announced length where it was smaller, never shrinks it, and the whole
/// payload is awaited next.
pub proof fn lemma_header_grows_scratch(d: Demux, block: Seq<u8>)
    requires
        d.state == DemuxState::Seek,
        block.len() == 23,
        has_marker(block),
    ensures
        d.step(block).1 == Ok::<Option<Packet>, FramingError>(None),
        d.step(block).0.wanted_len() == le_u32(block, 15),
        d.step(block).0.scratch_len >= le_u32(block, 15),
        d.step(block).0.scratch_len >= d.scratch_len,
        d.step(block).0.scratch_len == d.scratch_len || d.step(block).0.scratch_len == le_u32(
            block,
            15,
        ),
        d.step(block).0.state == DemuxState::Payload(header_of(block).unwrap()),
{
    crate::bytes::lemma_le_digits(
        block[15] as int,
        block[16] as int,
        block[17] as int,
        block[18] as int,
    );
}

/// A video payload gives one video packet: the type at offset 8, the
/// timestamp at offset 0 and the declared number of bytes from offset 13;
/// a header block is awaited next.
pub proof fn lemma_video_frame(d: Demux, h: FrameHeader, payload: Seq<u8>)
    requires
        d.state == DemuxState::Payload(h),
        h.kind == KIND_VIDEO,
        payload.len() == h.length,
        payload.len() >= 13,
        13 + le_u32(payload, 9) <= payload.len(),
    ensures
        d.step(payload).0.state == DemuxState::Seek,
        d.step(payload).0.scratch_len == d.scratch_len,
        d.step(payload).1 == Ok::<Option<Packet>, FramingError>(
            Some(
                Packet::Video {
                    video_type: payload[8],
                    timestamp: le_u32(payload, 0) as u32,
                    data: payload.subrange(13, 13 + le_u32(payload, 9)),
                },
            ),
        ),
{
}

/// An audio payload that declares `L` bytes gives one audio packet whose
/// data is the `L` bytes from offset 17, with offset and index zero; a
/// header block is awaited next.
pub proof fn lemma_audio_frame(d: Demux, h: FrameHeader, payload: Seq<u8>)
    requires
        d.state == DemuxState::Payload(h),
        h.kind == KIND_AUDIO,
        payload.len() == h.length,
        payload.len() >= 17,
        17 + le_u32(payload, 13) <= payload.len(),
    ensures
        d.step(payload).0.state == DemuxState::Seek,
        d.step(payload).1 == Ok::<Option<Packet>, FramingError>(
            Some(
                Packet::Audio {
                    offset: 0,
                    index: 0,
                    timestamp: le_u32(payload, 0) as u32,
                    data: payload.subrange(17, 17 + le_u32(payload, 13)),
                },
            ),
        ),
        packet_of(h.kind, payload).unwrap()->Audio_data.len() == le_u32(payload, 13),
{
}

/// A payload of a kind that is neither video nor audio is an error, and
/// the demultiplexer stays where it was.
pub proof fn lemma_unknown_kind_fails(d: Demux, h: FrameHeader, payload: Seq<u8>)
    requires
        d.state == DemuxState::Payload(h),
        h.kind != KIND_VIDEO,
        h.kind != KIND_AUDIO,
        payload.len() == h.length,
    ensures
        d.step(payload) == (d, Err::<Option<Packet>, FramingError>(FramingError::UnknownKind)),
{
}

/// A stream that starts with a block without the marker gives what the
/// stream after that block gives: the block is dropped, nothing else.
pub proof fn lemma_run_drops_mismatch(d: Demux, stream: Seq<u8>)
    requires
        d.state == DemuxState::Seek,
        stream.len() >= 23,
        !has_marker(stream),
    ensures
        d.run(stream).demux == d.run(stream.skip(23)).demux,
        d.run(stream).packets == d.run(stream.skip(23)).packets,
        d.run(stream).error == d.run(stream.skip(23)).error,
        d.run(stream).used == 23 + d.run(stream.skip(23)).used,
{
    let block = stream.subrange(0, 23);
    assert(!has_marker(block));
    assert(d.step(block) == (d, Ok::<Option<Packet>, FramingError>(None)));
    assert(emitted(None) + d.run(stream.skip(23)).packets =~= d.run(stream.skip(23)).packets);
}

/// A stream that starts with a whole well-formed frame gives that frame's
/// packet first, and then what the stream after the frame gives to a
/// demultiplexer that awaits a header block.
pub proof fn lemma_run_takes_frame(d: Demux, stream: Seq<u8>, h: FrameHeader, p: Packet)
    requires
        d.state == DemuxState::Seek,
        stream.len() >= 23 + h.length,
        header_of(stream.subrange(0, 23)) == Some(h),
        packet_of(h.kind, stream.subrange(23, 23 + h.length)) == Ok::<Packet, FramingError>(p),
    ensures
        ({
            let after = Demux {
                state: DemuxState::Seek,
                scratch_len: if h.length > d.scratch_len {
                    h.length as usize
                } else {
                    d.scratch_len
                },
            };
            let rest = after.run(stream.skip(23 + h.length));
            &&& d.run(stream).packets == seq![p] + rest.packets
            &&& d.run(stream).demux == rest.demux
            &&& d.run(stream).error == rest.error
            &&& d.run(stream).used == 23 + h.length + rest.used
        }),
{
    let head = stream.subrange(0, 23);
    let mid = d.step(head).0;
    let tail = stream.skip(23);
    assert(mid.state == DemuxState::Payload(h));
    assert(tail.subrange(0, h.length as int) =~= stream.subrange(23, 23 + h.length));
    assert(tail.skip(h.length as int) =~= stream.skip(23 + h.length));
    let after = mid.step(tail.subrange(0, h.length as int)).0;
    let rest = after.run(stream.skip(23 + h.length));
    assert(d.run(stream).packets == emitted(None) + mid.run(tail).packets);
    assert(mid.run(tail).packets == emitted(Some(p)) + rest.packets);
    assert(emitted(None) + (emitted(Some(p)) + rest.packets) =~= seq![p] + rest.packets);
}

} // verus!
