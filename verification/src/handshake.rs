//! The challenge-response exchange that opens the control channel.

use crate::bytes::{
    copy_range, le_bytes, le_bytes_of, le_u32, lemma_le_bytes_of_read, push_range, push_u32,
    read_u32,
};
use crate::request::{Request, CONTROL_CHANNEL};
use blowfish::cipher::generic_array::GenericArray;
use blowfish::cipher::{BlockEncrypt, KeyInit};
use vstd::prelude::*;
use vstd::utf8::valid_utf8;

verus! {

/// Length of the reply to the hello request.
pub const HELLO_REPLY_LEN: usize = 82;

/// Length of the acknowledgement of the response request.
pub const ACK_LEN: usize = 26;

/// Length of the reply to the video-start request.
pub const VIDEO_START_REPLY_LEN: usize = 29;

/// Length of the acknowledgement of the audio-start request.
pub const AUDIO_ACK_LEN: usize = 25;

/// Channel byte of the request that opens the media channel.
pub const MEDIA_CHANNEL: u8 = 0x56;

/// Why the exchange was given up.
#[derive(Debug, Clone, Copy, PartialEq, Eq)]
pub enum HandshakeError {
    /// A reply has another length than its step fixes.
    UnexpectedLength,
    /// The camera identifier in the hello reply is not UTF-8 text.
    BadCameraId,
    /// The cipher takes no key of the derived key's length.
    CipherInit,
}

/// What the hello reply holds: the camera's identifier and the challenge.
#[derive(Debug, Clone, PartialEq, Eq)]
pub struct HelloReply {
    pub camera_id: Vec<u8>,
    pub l1: u32,
    pub r1: u32,
    pub l2: u32,
    pub r2: u32,
}

/// The block that Blowfish, keyed with `key` and reading its words least
/// significant byte first, makes of the 8-byte `block`.
pub uninterp spec fn blowfish_le_block(key: Seq<u8>, block: Seq<u8>) -> Seq<u8>;

/// Calls `blowfish::BlowfishLE::new_from_slice` on the key and, where that
/// gives a cipher, `encrypt_block` on a copy of the block. The crate takes
/// keys of 4 to 56 bytes and no others; the encrypted block has 8 bytes and
/// depends on the key and the block alone.
#[verifier::external_body]
fn encrypt_block_le(key: &[u8], block: &[u8]) -> (out: Option<Vec<u8>>)
    requires
        block@.len() == 8,
    ensures
        out is Some <==> 4 <= key@.len() <= 56,
        out is Some ==> out.unwrap()@ == blowfish_le_block(key@, block@),
        out is Some ==> out.unwrap()@.len() == 8,
{
    match blowfish::BlowfishLE::new_from_slice(key) {
        Ok(cipher) => {
            let mut b = GenericArray::clone_from_slice(block);
            cipher.encrypt_block(&mut b);
            Some(b.to_vec())
        },
        Err(_) => None,
    }
}

/// Calls `core::str::from_utf8` and says whether it accepted the bytes,
/// which it does exactly for well-formed UTF-8.
#[verifier::external_body]
fn is_utf8(bytes: &[u8]) -> (ok: bool)
    ensures
        ok == valid_utf8(bytes@),
{
    core::str::from_utf8(bytes).is_ok()
}

/// The text `-save-private:` as bytes.
pub open spec fn key_infix() -> Seq<u8> {
    seq![
        0x2Du8, 0x73u8, 0x61u8, 0x76u8, 0x65u8, 0x2Du8, 0x70u8, 0x72u8, 0x69u8, 0x76u8, 0x61u8,
        0x74u8, 0x65u8, 0x3Au8,
    ]
}

/// The handshake key: device id, a colon, camera id, `-save-private:`,
/// password.
pub open spec fn key_of(device_id: Seq<u8>, camera_id: Seq<u8>, password: Seq<u8>) -> Seq<u8> {
    device_id + seq![0x3Au8] + camera_id + key_infix() + password
}

/// The 8-byte block of two challenge integers, each least significant
/// byte first.
pub open spec fn block_of(l: u32, r: u32) -> Seq<u8> {
    le_bytes(l) + le_bytes(r)
}

/// What the hello reply holds, or why it holds nothing: the camera
/// identifier at offset 25, 12 bytes long, and four integers from offset 66.
pub open spec fn hello_reply_of(reply: Seq<u8>) -> Result<
    (Seq<u8>, u32, u32, u32, u32),
    HandshakeError,
> {
    if reply.len() != 82 {
        Err(HandshakeError::UnexpectedLength)
    } else if !valid_utf8(reply.subrange(25, 37)) {
        Err(HandshakeError::BadCameraId)
    } else {
        Ok(
            (
                reply.subrange(25, 37),
                le_u32(reply, 66) as u32,
                le_u32(reply, 70) as u32,
                le_u32(reply, 74) as u32,
                le_u32(reply, 78) as u32,
            ),
        )
    }
}

/// The payload that answers a challenge under a key: the two encrypted
/// blocks, one after the other.
pub open spec fn answer_of(key: Seq<u8>, l1: u32, r1: u32, l2: u32, r2: u32) -> Result<
    Seq<u8>,
    HandshakeError,
> {
    if 4 <= key.len() <= 56 {
        Ok(blowfish_le_block(key, block_of(l1, r1)) + blowfish_le_block(key, block_of(l2, r2)))
    } else {
        Err(HandshakeError::CipherInit)
    }
}

/// The payload of the response to a hello reply, for a device id and a
/// password.
pub open spec fn response_of(device_id: Seq<u8>, password: Seq<u8>, reply: Seq<u8>) -> Result<
    Seq<u8>,
    HandshakeError,
> {
    match hello_reply_of(reply) {
        Err(e) => Err(e),
        Ok((camera_id, l1, r1, l2, r2)) => answer_of(
            key_of(device_id, camera_id, password),
            l1,
            r1,
            l2,
            r2,
        ),
    }
}

/// The request that opens the exchange: command 0, four zero integers.
pub fn hello() -> (r: Request)
    ensures
        r.c == CONTROL_CHANNEL,
        r.id == 0,
        r.n == 16,
        r.bytes@ == Seq::new(16, |i: int| 0u8),
        r.wf(),
{
    let ints: Vec<u32> = vec![0u32, 0u32, 0u32, 0u32];
    let r = Request::from_u32s(0, ints.as_slice());
    proof {
        reveal_with_fuel(le_bytes_of, 5);
        assert(r.bytes@ =~= Seq::new(16, |i: int| 0u8));
    }
    r
}

/// Reads the hello reply.
pub fn parse_hello_reply(reply: &[u8]) -> (r: Result<HelloReply, HandshakeError>)
    ensures
        match r {
            Ok(h) => hello_reply_of(reply@) == Ok::<_, HandshakeError>(
                (h.camera_id@, h.l1, h.r1, h.l2, h.r2),
            ),
            Err(e) => hello_reply_of(reply@) == Err::<(Seq<u8>, u32, u32, u32, u32), _>(e),
        },
{
    if reply.len() != HELLO_REPLY_LEN {
        return Err(HandshakeError::UnexpectedLength);
    }
    let camera_id: Vec<u8> = copy_range(reply, 25, 37);
    if !is_utf8(camera_id.as_slice()) {
        return Err(HandshakeError::BadCameraId);
    }
    Ok(
        HelloReply {
            camera_id,
            l1: read_u32(reply, 66),
            r1: read_u32(reply, 70),
            l2: read_u32(reply, 74),
            r2: read_u32(reply, 78),
        },
    )
}

/// Derives the handshake key.
pub fn handshake_key(device_id: &[u8], camera_id: &[u8], password: &[u8]) -> (key: Vec<u8>)
    ensures
        key@ == key_of(device_id@, camera_id@, password@),
        key@.len() == device_id@.len() + camera_id@.len() + password@.len() + 15,
{
    let infix: Vec<u8> = vec![
        0x2Du8, 0x73u8, 0x61u8, 0x76u8, 0x65u8, 0x2Du8, 0x70u8, 0x72u8, 0x69u8, 0x76u8, 0x61u8,
        0x74u8, 0x65u8, 0x3Au8,
    ];
    assert(infix@ =~= key_infix());
    let mut key: Vec<u8> = Vec::new();
    push_range(&mut key, device_id, 0, device_id.len());
    key.push(0x3A);
    push_range(&mut key, camera_id, 0, camera_id.len());
    push_range(&mut key, infix.as_slice(), 0, infix.len());
    push_range(&mut key, password, 0, password.len());
    proof {
        assert(device_id@.subrange(0, device_id@.len() as int) =~= device_id@);
        assert(camera_id@.subrange(0, camera_id@.len() as int) =~= camera_id@);
        assert(infix@.subrange(0, infix@.len() as int) =~= infix@);
        assert(password@.subrange(0, password@.len() as int) =~= password@);
        assert(key@ =~= key_of(device_id@, camera_id@, password@));
    }
    key
}

/// The 8-byte block of two challenge integers.
pub fn challenge_block(l: u32, r: u32) -> (block: Vec<u8>)
    ensures
        block@ == block_of(l, r),
        block@.len() == 8,
{
    let mut block: Vec<u8> = Vec::new();
    push_u32(&mut block, l);
    push_u32(&mut block, r);
    assert(block@ =~= block_of(l, r));
    block
}

/// The response request for two encrypted blocks: command 2, payload the
/// four integers read from the blocks, which is the blocks themselves.
pub fn response_request(first: &[u8], second: &[u8]) -> (r: Request)
    requires
        first@.len() == 8,
        second@.len() == 8,
    ensures
        r.c == CONTROL_CHANNEL,
        r.id == 2,
        r.n == 16,
        r.bytes@ == first@ + second@,
        r.wf(),
{
    let ints: Vec<u32> = vec![
        read_u32(first, 0),
        read_u32(first, 4),
        read_u32(second, 0),
        read_u32(second, 4),
    ];
    let r = Request::from_u32s(2, ints.as_slice());
    proof {
        lemma_le_bytes_of_read(first@, 0);
        lemma_le_bytes_of_read(first@, 4);
        lemma_le_bytes_of_read(second@, 0);
        lemma_le_bytes_of_read(second@, 4);
        reveal_with_fuel(le_bytes_of, 5);
        assert(r.bytes@ =~= first@ + second@);
    }
    r
}

/// Encrypts the two challenge blocks under the key and builds the
/// response request.
pub fn answer_challenge(key: &[u8], challenge: &HelloReply) -> (r: Result<
    Request,
    HandshakeError,
>)
    ensures
        match r {
            Ok(req) => {
                &&& answer_of(key@, challenge.l1, challenge.r1, challenge.l2, challenge.r2) == Ok::<
                    _,
                    HandshakeError,
                >(req.bytes@)
                &&& req.c == CONTROL_CHANNEL
                &&& req.id == 2
                &&& req.n == 16
                &&& req.wf()
            },
            Err(e) => answer_of(key@, challenge.l1, challenge.r1, challenge.l2, challenge.r2)
                == Err::<Seq<u8>, _>(e),
        },
{
    let first_block: Vec<u8> = challenge_block(challenge.l1, challenge.r1);
    let second_block: Vec<u8> = challenge_block(challenge.l2, challenge.r2);
    let first = encrypt_block_le(key, first_block.as_slice());
    let second = encrypt_block_le(key, second_block.as_slice());
    match (first, second) {
        (Some(a), Some(b)) => Ok(response_request(a.as_slice(), b.as_slice())),
        _ => Err(HandshakeError::CipherInit),
    }
}

/// Answers the hello reply: reads it, derives the key from the device id,
/// the camera identifier of the reply and the password, and builds the
/// response request.
pub fn respond(device_id: &[u8], password: &[u8], reply: &[u8]) -> (r: Result<
    Request,
    HandshakeError,
>)
    ensures
        match r {
            Ok(req) => {
                &&& response_of(device_id@, password@, reply@) == Ok::<_, HandshakeError>(
                    req.bytes@,
                )
                &&& req.c == CONTROL_CHANNEL
                &&& req.id == 2
                &&& req.n == 16
                &&& req.wf()
            },
            Err(e) => response_of(device_id@, password@, reply@) == Err::<Seq<u8>, _>(e),
        },
{
    match parse_hello_reply(reply) {
        Err(e) => Err(e),
        Ok(h) => {
            let key: Vec<u8> = handshake_key(device_id, h.camera_id.as_slice(), password);
            answer_challenge(key.as_slice(), &h)
        },
    }
}

/// The request that opens the media channel: channel byte `0x56`,
/// command 0, payload the four bytes that end the video-start reply.
pub fn media_login(video_start_reply: &[u8]) -> (r: Result<Request, HandshakeError>)
    ensures
        r is Ok <==> video_start_reply@.len() == 29,
        r is Err ==> r.unwrap_err() == HandshakeError::UnexpectedLength,
        r is Ok ==> {
            &&& r.unwrap().c == MEDIA_CHANNEL
            &&& r.unwrap().id == 0
            &&& r.unwrap().n == 4
            &&& r.unwrap().bytes@ == video_start_reply@.subrange(25, 29)
            &&& r.unwrap().wf()
        },
{
    if video_start_reply.len() != VIDEO_START_REPLY_LEN {
        return Err(HandshakeError::UnexpectedLength);
    }
    Ok(Request { c: MEDIA_CHANNEL, id: 0, n: 4, bytes: copy_range(video_start_reply, 25, 29) })
}

/// The key is a function of the device id, the camera id and the
/// password: equal inputs give equal keys, and the three parts can be read
/// back from the key at their places.
pub proof fn lemma_key_determined(
    device_a: Seq<u8>,
    camera_a: Seq<u8>,
    password_a: Seq<u8>,
    device_b: Seq<u8>,
    camera_b: Seq<u8>,
    password_b: Seq<u8>,
)
    requires
        device_a == device_b,
        camera_a == camera_b,
        password_a == password_b,
    ensures
        key_of(device_a, camera_a, password_a) == key_of(device_b, camera_b, password_b),
        key_of(device_a, camera_a, password_a).len() == device_a.len() + camera_a.len()
            + password_a.len() + 15,
        key_of(device_a, camera_a, password_a).subrange(0, device_a.len() as int) == device_a,
{
    assert(key_of(device_a, camera_a, password_a).subrange(0, device_a.len() as int)
        =~= device_a);
}

/// The response payload is the little-endian bytes of the four integers
/// read from the two encrypted blocks.
pub proof fn lemma_response_is_four_integers(first: Seq<u8>, second: Seq<u8>)
    requires
        first.len() == 8,
        second.len() == 8,
    ensures
        first + second == le_bytes_of(
            seq![
                le_u32(first, 0) as u32,
                le_u32(first, 4) as u32,
                le_u32(second, 0) as u32,
                le_u32(second, 4) as u32,
            ],
        ),
{
    lemma_le_bytes_of_read(first, 0);
    lemma_le_bytes_of_read(first, 4);
    lemma_le_bytes_of_read(second, 0);
    lemma_le_bytes_of_read(second, 4);
    reveal_with_fuel(le_bytes_of, 5);
    let ints = seq![
        le_u32(first, 0) as u32,
        le_u32(first, 4) as u32,
        le_u32(second, 0) as u32,
        le_u32(second, 4) as u32,
    ];
    assert(le_bytes_of(ints) =~= first + second);
}

} // verus!
