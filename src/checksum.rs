//! The integrity checksum of a stored file: SHA-512 over every byte written,
//! in order, rendered as lower-case hex.

use crypto::digest::Digest;
use crypto::sha2::Sha512;
use vstd::prelude::*;

verus! {

#[verifier::external_type_specification]
#[verifier::external_body]
pub struct ExSha512(Sha512);

/// The bytes fed to a SHA-512 state so far.
pub uninterp spec fn hashed(h: Sha512) -> Seq<u8>;

/// The hex rendering of the SHA-512 digest of `bytes`.
pub uninterp spec fn sha512_hex(bytes: Seq<u8>) -> Seq<char>;

/// Relies on rust-crypto's `Sha512::new`: a state that has been fed nothing.
#[verifier::external_body]
fn sha512_new() -> (h: Sha512)
    ensures
        hashed(h) == Seq::<u8>::empty(),
{
    Sha512::new()
}

/// Relies on rust-crypto's `Digest::input` for `Sha512`: appends `data` to
/// what the state has been fed. (It panics only on a state whose result was
/// taken, which `sha512_hex_of` consumes.)
#[verifier::external_body]
fn sha512_input(h: &mut Sha512, data: &[u8])
    ensures
        hashed(*final(h)) == hashed(*old(h)) + data@,
{
    h.input(data)
}

/// Relies on rust-crypto's `Digest::result_str` for `Sha512`: the digest of
/// what the state was fed, as 128 lower-case hex digits.
#[verifier::external_body]
fn sha512_hex_of(h: Sha512) -> (r: String)
    ensures
        r@ == sha512_hex(hashed(h)),
        r@.len() == 128,
{
    let mut h = h;
    h.result_str()
}

/// The concatenation of `chunks`, in order.
pub open spec fn flatten(chunks: Seq<Seq<u8>>) -> Seq<u8>
    decreases chunks.len(),
{
    if chunks.len() == 0 {
        Seq::empty()
    } else {
        flatten(chunks.drop_last()) + chunks.last()
    }
}

/// A running checksum, fed chunk by chunk.
pub struct Checksum {
    state: Sha512,
}

impl Checksum {
    /// The bytes fed so far.
    pub closed spec fn input(&self) -> Seq<u8> {
        hashed(self.state)
    }

    pub fn new() -> (r: Checksum)
        ensures
            r.input() == Seq::<u8>::empty(),
    {
        Checksum { state: sha512_new() }
    }

    pub fn update(&mut self, data: &[u8])
        ensures
            final(self).input() == old(self).input() + data@,
    {
        sha512_input(&mut self.state, data);
    }

    /// The hex digest of everything fed.
    pub fn result_str(self) -> (r: String)
        ensures
            r@ == sha512_hex(self.input()),
            r@.len() == 128,
    {
        sha512_hex_of(self.state)
    }
}

/// The checksum of `bytes`, in one pass.
pub fn checksum_of(bytes: &[u8]) -> (r: String)
    ensures
        r@ == sha512_hex(bytes@),
{
    let mut c = Checksum::new();
    c.update(bytes);
    assert(c.input() == bytes@);
    c.result_str()
}

/// The checksum of the concatenation of `chunks`, fed one chunk at a time.
pub fn checksum_of_chunks(chunks: &Vec<Vec<u8>>) -> (r: String)
    ensures
        r@ == sha512_hex(flatten(chunks@.map_values(|c: Vec<u8>| c@))),
{
    let ghost views = chunks@.map_values(|c: Vec<u8>| c@);
    let mut c = Checksum::new();
    let mut i: usize = 0;
    while i < chunks.len()
        invariant
            i <= chunks@.len(),
            views == chunks@.map_values(|c: Vec<u8>| c@),
            c.input() == flatten(views.subrange(0, i as int)),
        decreases chunks@.len() - i,
    {
        c.update(chunks[i].as_slice());
        proof {
            let pre = views.subrange(0, i as int);
            let post = views.subrange(0, i as int + 1);
            assert(post.drop_last() == pre);
            assert(post.last() == chunks@[i as int]@);
        }
        i = i + 1;
    }
    assert(views.subrange(0, chunks@.len() as int) == views);
    c.result_str()
}

/// Checksum determinism: the digest of a byte sequence does not depend on
/// how it was cut into chunks; fed chunk by chunk, or in one pass, the same
/// bytes give the same digest.
pub proof fn lemma_checksum_independent_of_chunking(chunks: Seq<Seq<u8>>, whole: Seq<u8>)
    requires
        flatten(chunks) == whole,
    ensures
        sha512_hex(flatten(chunks)) == sha512_hex(flatten(seq![whole])),
{
    let single = seq![whole];
    assert(single.drop_last() == Seq::<Seq<u8>>::empty());
    assert(single.last() == whole);
    assert(flatten(single.drop_last()) == Seq::<u8>::empty());
    assert(Seq::<u8>::empty() + whole == whole);
}

} // verus!
