//! Wire layouts: big-endian integers and the frames of each message.

use crate::messages::{ClientMessages, ProtocolVersion, ServerMessages};
use byteorder::{BigEndian, ByteOrder};
use vstd::arithmetic::div_mod::lemma_fundamental_div_mod;
use vstd::prelude::*;
use vstd::slice::{slice_subrange, slice_to_vec};

verus! {

/// `256` to the power `w`.
pub open spec fn pow256(w: nat) -> nat
    decreases w,
{
    if w == 0 {
        1
    } else {
        256 * pow256((w - 1) as nat)
    }
}

/// The number that the bytes `b` give, most significant byte first.
pub open spec fn be_value(b: Seq<u8>) -> nat
    decreases b.len(),
{
    if b.len() == 0 {
        0
    } else {
        be_value(b.drop_last()) * 256 + b.last() as nat
    }
}

/// The `w` bytes of `n`, most significant first.
pub open spec fn be_bytes(n: nat, w: nat) -> Seq<u8>
    decreases w,
{
    if w == 0 {
        Seq::empty()
    } else {
        be_bytes(n / 256, (w - 1) as nat).push((n % 256) as u8)
    }
}

/// The sizes of the two-, four- and eight-byte fields.
pub proof fn lemma_pow256_values()
    ensures
        pow256(2) == 0x1_0000,
        pow256(4) == 0x1_0000_0000,
        pow256(8) == 0x1_0000_0000_0000_0000,
{
    reveal_with_fuel(pow256, 9);
}

/// Reading back the big-endian bytes of a number gives the number.
pub proof fn lemma_be_round_trip(n: nat, w: nat)
    requires
        n < pow256(w),
    ensures
        be_bytes(n, w).len() == w,
        be_value(be_bytes(n, w)) == n,
    decreases w,
{
    if w > 0 {
        lemma_fundamental_div_mod(n as int, 256);
        assert(n / 256 < pow256((w - 1) as nat)) by (nonlinear_arith)
            requires
                n < 256 * pow256((w - 1) as nat),
        ;
        lemma_be_round_trip(n / 256, (w - 1) as nat);
        let s = be_bytes(n, w);
        assert(s.drop_last() == be_bytes(n / 256, (w - 1) as nat));
    }
}

/// Relies on byteorder's `BigEndian::read_u16`: the first two bytes, most
/// significant first.
#[verifier::external_body]
pub(crate) fn read_be_u16(b: &[u8]) -> (r: u16)
    requires
        b@.len() == 2,
    ensures
        r as nat == be_value(b@),
{
    BigEndian::read_u16(b)
}

/// Relies on byteorder's `BigEndian::read_u32`: the first four bytes, most
/// significant first.
#[verifier::external_body]
pub(crate) fn read_be_u32(b: &[u8]) -> (r: u32)
    requires
        b@.len() == 4,
    ensures
        r as nat == be_value(b@),
{
    BigEndian::read_u32(b)
}

/// Relies on byteorder's `BigEndian::read_u64`: the first eight bytes, most
/// significant first.
#[verifier::external_body]
pub(crate) fn read_be_u64(b: &[u8]) -> (r: u64)
    requires
        b@.len() == 8,
    ensures
        r as nat == be_value(b@),
{
    BigEndian::read_u64(b)
}

/// Relies on byteorder's `BigEndian::write_u16`: two bytes, most significant
/// first.
#[verifier::external_body]
fn write_be_u16(n: u16) -> (r: Vec<u8>)
    ensures
        r@ == be_bytes(n as nat, 2),
{
    let mut buf = vec![0u8; 2];
    BigEndian::write_u16(&mut buf, n);
    buf
}

/// Relies on byteorder's `BigEndian::write_u32`: four bytes, most significant
/// first.
#[verifier::external_body]
fn write_be_u32(n: u32) -> (r: Vec<u8>)
    ensures
        r@ == be_bytes(n as nat, 4),
{
    let mut buf = vec![0u8; 4];
    BigEndian::write_u32(&mut buf, n);
    buf
}

/// Relies on byteorder's `BigEndian::write_u64`: eight bytes, most significant
/// first.
#[verifier::external_body]
fn write_be_u64(n: u64) -> (r: Vec<u8>)
    ensures
        r@ == be_bytes(n as nat, 8),
{
    let mut buf = vec![0u8; 8];
    BigEndian::write_u64(&mut buf, n);
    buf
}

/// The beam id that opens a session.
pub open spec fn beam_id_frame(beam_id: u64) -> Seq<u8> {
    be_bytes(beam_id as nat, 8)
}

/// A modification time, sent after an accepted file's announcement.
pub open spec fn mtime_frame(mtime: u64) -> Seq<u8> {
    be_bytes(mtime as nat, 8)
}

/// The message that announces the protocol version.
pub open spec fn version_frame(v: ProtocolVersion) -> Seq<u8> {
    seq![ClientMessages::ProtocolVersion.code()] + be_bytes(v.number() as nat, 2)
}

/// The message that announces a file by its name's bytes.
pub open spec fn start_file_frame(name: Seq<u8>) -> Seq<u8> {
    seq![ClientMessages::StartBeamingFile.code()] + be_bytes(name.len(), 2) + name
}

/// The message that carries one chunk of a file's bytes.
pub open spec fn chunk_frame(payload: Seq<u8>) -> Seq<u8> {
    seq![ClientMessages::FileChunk.code()] + be_bytes(payload.len(), 4) + payload
}

/// The largest payload one chunk frame carries.
pub const MAX_FRAME_PAYLOAD: usize = 0xffff_ffff;

/// A payload of any length, as chunk frames of at most
/// `MAX_FRAME_PAYLOAD` bytes each, in order.
pub open spec fn chunk_frames(payload: Seq<u8>) -> Seq<u8>
    decreases payload.len(),
{
    if payload.len() <= MAX_FRAME_PAYLOAD {
        chunk_frame(payload)
    } else {
        chunk_frame(payload.take(MAX_FRAME_PAYLOAD as int)) + chunk_frames(
            payload.skip(MAX_FRAME_PAYLOAD as int),
        )
    }
}

/// A message without payload.
pub open spec fn tag_frame(m: ClientMessages) -> Seq<u8> {
    seq![m.code()]
}

/// A reply of the receiver.
pub open spec fn reply_frame(m: ServerMessages) -> Seq<u8> {
    seq![m.code()]
}

pub fn encode_beam_id(beam_id: u64) -> (r: Vec<u8>)
    ensures
        r@ == beam_id_frame(beam_id),
{
    write_be_u64(beam_id)
}

pub fn encode_mtime(mtime: u64) -> (r: Vec<u8>)
    ensures
        r@ == mtime_frame(mtime),
{
    write_be_u64(mtime)
}

pub fn encode_version(v: ProtocolVersion) -> (r: Vec<u8>)
    ensures
        r@ == version_frame(v),
{
    let mut out = vec![ClientMessages::ProtocolVersion.to_u8()];
    let mut number = write_be_u16(v.to_u16());
    out.append(&mut number);
    out
}

/// The announcement of a file whose name is `name`; the name's length must
/// fit the two-byte field.
pub fn encode_start_file(name: &[u8]) -> (r: Vec<u8>)
    requires
        name@.len() < 0x10000,
    ensures
        r@ == start_file_frame(name@),
{
    let mut out = vec![ClientMessages::StartBeamingFile.to_u8()];
    let mut length = write_be_u16(name.len() as u16);
    out.append(&mut length);
    let mut rest = slice_to_vec(name);
    out.append(&mut rest);
    out
}

/// One chunk of a file; its length must fit the four-byte field.
pub fn encode_chunk(payload: &[u8]) -> (r: Vec<u8>)
    requires
        payload@.len() <= u32::MAX,
    ensures
        r@ == chunk_frame(payload@),
{
    let mut out = vec![ClientMessages::FileChunk.to_u8()];
    let mut length = write_be_u32(payload.len() as u32);
    out.append(&mut length);
    let mut rest = slice_to_vec(payload);
    out.append(&mut rest);
    out
}

/// A payload of any length, as one chunk frame or, past the length field's
/// reach, several.
pub fn encode_chunks(payload: &[u8]) -> (r: Vec<u8>)
    ensures
        r@ == chunk_frames(payload@),
{
    let n = payload.len();
    let mut out: Vec<u8> = Vec::new();
    let mut start: usize = 0;
    assert(payload@.skip(0) == payload@);
    assert(out@ + chunk_frames(payload@) == chunk_frames(payload@));
    loop
        invariant
            n == payload@.len(),
            start <= n,
            out@ + chunk_frames(payload@.skip(start as int)) == chunk_frames(payload@),
        decreases n - start,
    {
        let ghost rest = payload@.skip(start as int);
        if n - start <= MAX_FRAME_PAYLOAD {
            let mut last = encode_chunk(slice_subrange(payload, start, n));
            assert(payload@.subrange(start as int, n as int) == rest);
            out.append(&mut last);
            return out;
        }
        let end = start + MAX_FRAME_PAYLOAD;
        let mut frame = encode_chunk(slice_subrange(payload, start, end));
        assert(rest.take(MAX_FRAME_PAYLOAD as int) == payload@.subrange(start as int, end as int));
        assert(rest.skip(MAX_FRAME_PAYLOAD as int) == payload@.skip(end as int));
        let ghost before = out@;
        out.append(&mut frame);
        assert(out@ + chunk_frames(payload@.skip(end as int)) == before + chunk_frames(rest));
        start = end;
    }
}

pub fn encode_tag(m: ClientMessages) -> (r: Vec<u8>)
    ensures
        r@ == tag_frame(m),
{
    vec![m.to_u8()]
}

pub fn encode_reply(m: ServerMessages) -> (r: Vec<u8>)
    ensures
        r@ == reply_frame(m),
{
    vec![m.to_u8()]
}

/// A chunk frame reads back as its tag, its length and its payload.
pub proof fn lemma_chunk_frame_round_trip(payload: Seq<u8>)
    requires
        payload.len() <= u32::MAX,
    ensures
        chunk_frame(payload).len() == 5 + payload.len(),
        ClientMessages::of_code(chunk_frame(payload)[0]) == Some(ClientMessages::FileChunk),
        be_value(chunk_frame(payload).subrange(1, 5)) == payload.len(),
        chunk_frame(payload).subrange(5, 5 + payload.len() as int) == payload,
{
    lemma_pow256_values();
    lemma_be_round_trip(payload.len(), 4);
    let f = chunk_frame(payload);
    assert(f.subrange(1, 5) == be_bytes(payload.len(), 4));
    assert(f.subrange(5, 5 + payload.len() as int) == payload);
}

/// A file announcement reads back as its tag, the name's length and the name.
pub proof fn lemma_start_file_frame_round_trip(name: Seq<u8>)
    requires
        name.len() < 0x10000,
    ensures
        start_file_frame(name).len() == 3 + name.len(),
        ClientMessages::of_code(start_file_frame(name)[0]) == Some(
            ClientMessages::StartBeamingFile,
        ),
        be_value(start_file_frame(name).subrange(1, 3)) == name.len(),
        start_file_frame(name).subrange(3, 3 + name.len() as int) == name,
{
    lemma_pow256_values();
    lemma_be_round_trip(name.len(), 2);
    let f = start_file_frame(name);
    assert(f.subrange(1, 3) == be_bytes(name.len(), 2));
    assert(f.subrange(3, 3 + name.len() as int) == name);
}

/// A version announcement reads back as its tag and the same version.
pub proof fn lemma_version_frame_round_trip(v: ProtocolVersion)
    ensures
        version_frame(v).len() == 3,
        ClientMessages::of_code(version_frame(v)[0]) == Some(ClientMessages::ProtocolVersion),
        ProtocolVersion::of_number(be_value(version_frame(v).subrange(1, 3)) as u16) == Some(v),
{
    lemma_pow256_values();
    lemma_be_round_trip(v.number() as nat, 2);
    let f = version_frame(v);
    assert(f.subrange(1, 3) == be_bytes(v.number() as nat, 2));
}

/// An eight-byte field (beam id or modification time) reads back as the
/// same number.
pub proof fn lemma_u64_field_round_trip(n: u64)
    ensures
        be_bytes(n as nat, 8).len() == 8,
        be_value(be_bytes(n as nat, 8)) == n,
{
    lemma_pow256_values();
    lemma_be_round_trip(n as nat, 8);
}

} // verus!
