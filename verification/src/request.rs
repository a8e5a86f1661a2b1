//! Requests of the control channel and their wire form.

use crate::bytes::{copy_range, le_bytes_of, lemma_le_bytes_of_len, push_range, push_u32};
use vstd::prelude::*;

verus! {

/// Length of the fixed header that precedes every payload.
pub const HEADER_LEN: usize = 23;

/// Channel byte of a request on the control channel.
pub const CONTROL_CHANNEL: u8 = 0x4F;

/// One request: channel byte `c`, command byte `id`, declared payload
/// length `n`, and the payload itself. In a well-formed request `n` is the
/// payload's length.
#[derive(Debug, Clone, PartialEq, Eq)]
pub struct Request {
    pub c: u8,
    pub id: u8,
    pub n: u8,
    pub bytes: Vec<u8>,
}

/// The fixed header: three marker bytes, `c`, `id`, ten zero bytes, `n`,
/// seven zero bytes.
pub open spec fn header(c: u8, id: u8, n: u8) -> Seq<u8> {
    seq![
        0x4Du8, 0x4Fu8, 0x5Fu8, c, id,
        0u8, 0u8, 0u8, 0u8, 0u8, 0u8, 0u8, 0u8, 0u8, 0u8,
        n,
        0u8, 0u8, 0u8, 0u8, 0u8, 0u8, 0u8,
    ]
}

impl Request {
    /// The declared payload length is the payload's length.
    pub open spec fn wf(&self) -> bool {
        self.n as int == self.bytes@.len()
    }

    /// The bytes that go on the wire: header, then payload.
    pub open spec fn wire(&self) -> Seq<u8> {
        header(self.c, self.id, self.n) + self.bytes@
    }

    /// The keepalive request: command `0xFF`, no payload.
    pub fn heartbeat() -> (r: Request)
        ensures
            r.c == CONTROL_CHANNEL,
            r.id == 0xFF,
            r.n == 0,
            r.bytes@ == Seq::<u8>::empty(),
            r.wf(),
    {
        let empty: Vec<u8> = Vec::new();
        Request::from_command_byte(0xFF, empty.as_slice())
    }

    /// The request that starts the video stream: command 4, payload the
    /// integer 1.
    pub fn video_start() -> (r: Request)
        ensures
            r.c == CONTROL_CHANNEL,
            r.id == 4,
            r.n == 4,
            r.bytes@ == seq![1u8, 0u8, 0u8, 0u8],
            r.wf(),
    {
        let ints: Vec<u32> = vec![1u32];
        let r = Request::from_u32s(4, ints.as_slice());
        proof {
            reveal_with_fuel(le_bytes_of, 2);
            assert(r.bytes@ =~= seq![1u8, 0u8, 0u8, 0u8]);
        }
        r
    }

    /// The request that starts the audio stream: command 8, payload `[1]`.
    pub fn audio_start() -> (r: Request)
        ensures
            r.c == CONTROL_CHANNEL,
            r.id == 8,
            r.n == 1,
            r.bytes@ == seq![1u8],
            r.wf(),
    {
        let payload: Vec<u8> = vec![1u8];
        Request::from_command_byte(8, payload.as_slice())
    }

    /// The wire form of the request.
    pub fn to_bytes(&self) -> (out: Vec<u8>)
        ensures
            out@ == self.wire(),
            out@.len() == HEADER_LEN + self.bytes@.len(),
            self.wf() ==> out@.len() == HEADER_LEN + self.n,
            out@.subrange(0, 3) == seq![0x4Du8, 0x4Fu8, 0x5Fu8],
    {
        let mut out: Vec<u8> = vec![
            0x4Du8, 0x4Fu8, 0x5Fu8, self.c, self.id,
            0u8, 0u8, 0u8, 0u8, 0u8, 0u8, 0u8, 0u8, 0u8, 0u8,
            self.n,
            0u8, 0u8, 0u8, 0u8, 0u8, 0u8, 0u8,
        ];
        assert(out@ =~= header(self.c, self.id, self.n));
        push_range(&mut out, self.bytes.as_slice(), 0, self.bytes.len());
        assert(self.bytes@.subrange(0, self.bytes@.len() as int) =~= self.bytes@);
        assert(out@.subrange(0, 3) =~= seq![0x4Du8, 0x4Fu8, 0x5Fu8]);
        out
    }

    /// A control-channel request with command byte `id` and the given
    /// payload, which fits the one byte that declares its length.
    pub fn from_command_byte(id: u8, bytes: &[u8]) -> (r: Request)
        requires
            bytes@.len() <= 255,
        ensures
            r.c == CONTROL_CHANNEL,
            r.id == id,
            r.n as int == bytes@.len(),
            r.bytes@ == bytes@,
            r.wf(),
    {
        let payload: Vec<u8> = copy_range(bytes, 0, bytes.len());
        assert(payload@ =~= bytes@);
        Request { c: CONTROL_CHANNEL, id, n: bytes.len() as u8, bytes: payload }
    }

    /// A drive request: command `0xFA`, payload `[a, b]`.
    pub fn from_device_control(a: u8, b: u8) -> (r: Request)
        ensures
            r.c == CONTROL_CHANNEL,
            r.id == 0xFA,
            r.n == 2,
            r.bytes@ == seq![a, b],
            r.wf(),
    {
        let payload: Vec<u8> = vec![a, b];
        Request::from_command_byte(0xFA, payload.as_slice())
    }

    /// A camera request: command 14, payload `[request]`.
    pub fn from_camera_request(request: u8) -> (r: Request)
        ensures
            r.c == CONTROL_CHANNEL,
            r.id == 14,
            r.n == 1,
            r.bytes@ == seq![request],
            r.wf(),
    {
        let payload: Vec<u8> = vec![request];
        Request::from_command_byte(14, payload.as_slice())
    }

    /// A control-channel request with command byte `id` whose payload is
    /// the little-endian bytes of `ints`: at most 63 of them, so that the
    /// payload fits the one byte that declares its length.
    pub fn from_u32s(id: u8, ints: &[u32]) -> (r: Request)
        requires
            ints@.len() <= 63,
        ensures
            r.c == CONTROL_CHANNEL,
            r.id == id,
            r.bytes@ == le_bytes_of(ints@),
            r.n as int == 4 * ints@.len(),
            r.wf(),
    {
        let mut payload: Vec<u8> = Vec::new();
        let mut i: usize = 0;
        while i < ints.len()
            invariant
                i <= ints@.len(),
                payload@ == le_bytes_of(ints@.subrange(0, i as int)),
            decreases ints@.len() - i,
        {
            push_u32(&mut payload, ints[i]);
            proof {
                let next = ints@.subrange(0, i + 1);
                assert(next.drop_last() =~= ints@.subrange(0, i as int));
                assert(next.last() == ints@[i as int]);
            }
            i += 1;
        }
        proof {
            assert(ints@.subrange(0, ints@.len() as int) =~= ints@);
            lemma_le_bytes_of_len(ints@);
        }
        Request::from_command_byte(id, payload.as_slice())
    }
}

} // verus!
