//! Content hashing: the digest of a file's bytes, in hexadecimal, computed
//! chunk by chunk.

use vstd::prelude::*;
use vstd::slice::slice_subrange;

verus! {

/// The incremental hasher of the `blake3` crate.
#[verifier::external_type_specification]
#[verifier::external_body]
pub struct ExHasher(blake3::Hasher);

/// The bytes that a hasher has been fed so far, in order.
pub uninterp spec fn absorbed(hasher: blake3::Hasher) -> Seq<u8>;

/// The BLAKE3 digest of `data` as `blake3::Hash::to_hex` writes it.
pub uninterp spec fn blake3_hex(data: Seq<u8>) -> Seq<char>;

/// `blake3::Hasher::new`: a hasher that has been fed nothing.
#[verifier::external_body]
fn hasher_new() -> (out: blake3::Hasher)
    ensures
        absorbed(out) == Seq::<u8>::empty(),
{
    blake3::Hasher::new()
}

/// `blake3::Hasher::update`: feeds `input` to the hasher, behind what it
/// was fed before.
#[verifier::external_body]
fn hasher_update(hasher: &mut blake3::Hasher, input: &[u8])
    ensures
        absorbed(*final(hasher)) == absorbed(*old(hasher)) + input@,
{
    hasher.update(input);
}

/// `blake3::Hasher::finalize` and `blake3::Hash::to_hex`, on a hasher made
/// by `hasher_new`: the digest of all that the hasher was fed, as 64
/// hexadecimal digits. The hasher can be fed further afterwards.
#[verifier::external_body]
fn hasher_hex(hasher: &blake3::Hasher) -> (out: String)
    ensures
        out@ == blake3_hex(absorbed(*hasher)),
        out@.len() == 64,
{
    hasher.finalize().to_hex().to_string()
}

/// How many bytes are hashed at a time.
pub const CHUNK_SIZE: usize = 65536;

/// A digest in the making.
pub struct ContentHasher {
    state: blake3::Hasher,
}

impl ContentHasher {
    /// The bytes taken in so far.
    pub closed spec fn input(&self) -> Seq<u8> {
        absorbed(self.state)
    }

    /// A hasher that has taken in nothing.
    pub fn new() -> (out: Self)
        ensures
            out.input() == Seq::<u8>::empty(),
    {
        ContentHasher { state: hasher_new() }
    }

    /// Takes in one more chunk of the content.
    pub fn update(&mut self, chunk: &[u8])
        ensures
            final(self).input() == old(self).input() + chunk@,
    {
        hasher_update(&mut self.state, chunk);
    }

    /// The digest of what was taken in, in hexadecimal.
    pub fn finish(&self) -> (out: String)
        ensures
            out@ == blake3_hex(self.input()),
            out@.len() == 64,
    {
        hasher_hex(&self.state)
    }
}

/// The content hash of a file with the bytes `bytes`.
pub fn file_hash(bytes: &[u8]) -> (out: String)
    ensures
        out@ == blake3_hex(bytes@),
        out@.len() == 64,
{
    let mut hasher = ContentHasher::new();
    let mut done: usize = 0;
    assert(bytes@.subrange(0, 0) =~= Seq::<u8>::empty());
    while done < bytes.len()
        invariant
            done <= bytes@.len(),
            hasher.input() == bytes@.subrange(0, done as int),
        decreases bytes@.len() - done,
    {
        let end: usize = if bytes.len() - done > CHUNK_SIZE {
            done + CHUNK_SIZE
        } else {
            bytes.len()
        };
        let chunk = slice_subrange(bytes, done, end);
        hasher.update(chunk);
        assert(bytes@.subrange(0, done as int) + bytes@.subrange(done as int, end as int)
            =~= bytes@.subrange(0, end as int));
        done = end;
    }
    assert(bytes@.subrange(0, done as int) =~= bytes@);
    hasher.finish()
}

} // verus!
