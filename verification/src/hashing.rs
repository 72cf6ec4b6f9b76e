//! Content hashing with BLAKE3, of whole byte strings and of streams fed in
//! pieces.
use vstd::prelude::*;

verus! {

/// The lowercase hexadecimal BLAKE3 digest of the bytes.
pub uninterp spec fn blake3_hex(data: Seq<u8>) -> Seq<char>;

/// A digest as `Hash::to_hex` writes it: 64 characters, each a decimal
/// digit or a lowercase letter from `a` to `f`.
pub open spec fn is_hex_digest(s: Seq<char>) -> bool {
    &&& s.len() == 64
    &&& forall|i: int| 0 <= i < s.len() ==> ('0' <= #[trigger] s[i] <= '9' || 'a' <= s[i] <= 'f')
}

/// `blake3::hash(data).to_hex()`: the 64-character lowercase hexadecimal
/// BLAKE3-256 digest (`to_hex` writes each of the 32 bytes as two characters
/// of `0123456789abcdef`). The contract claims that format, and that the
/// digest is a function of the bytes, named `blake3_hex`.
#[verifier::external_body]
fn blake3_digest_hex(data: &[u8]) -> (r: String)
    ensures
        r@ == blake3_hex(data@),
        is_hex_digest(r@),
{
    blake3::hash(data).to_hex().to_string()
}

/// The BLAKE3 content hash of `data`, as lowercase hexadecimal.
pub fn hash_bytes(data: &[u8]) -> (r: String)
    ensures
        r@ == blake3_hex(data@),
        is_hex_digest(r@),
{
    blake3_digest_hex(data)
}

#[verifier::external_type_specification]
#[verifier::external_body]
pub struct ExBlake3Hasher(blake3::Hasher);

/// The bytes fed to a BLAKE3 hasher so far, in order.
pub uninterp spec fn hasher_input(h: blake3::Hasher) -> Seq<u8>;

/// `blake3::Hasher::new`: a hasher that has been fed nothing.
#[verifier::external_body]
fn hasher_new() -> (h: blake3::Hasher)
    ensures
        hasher_input(h) == Seq::<u8>::empty(),
{
    blake3::Hasher::new()
}

/// `blake3::Hasher::update`: feeds `data` after what the hasher holds.
#[verifier::external_body]
fn hasher_update(h: &mut blake3::Hasher, data: &[u8])
    ensures
        hasher_input(*final(h)) == hasher_input(*old(h)) + data@,
{
    h.update(data);
}

/// `blake3::Hasher::finalize` followed by `to_hex`: the hash of all the input
/// fed so far, which blake3 documents to equal `blake3::hash` of that input,
/// in the 64-character form of `to_hex`.
#[verifier::external_body]
fn hasher_hex(h: &blake3::Hasher) -> (r: String)
    ensures
        r@ == blake3_hex(hasher_input(*h)),
        is_hex_digest(r@),
{
    h.finalize().to_hex().to_string()
}

/// The pieces of a stream joined in order.
pub open spec fn joined(pieces: Seq<Seq<u8>>) -> Seq<u8>
    decreases pieces.len(),
{
    if pieces.len() == 0 {
        Seq::empty()
    } else {
        joined(pieces.drop_last()) + pieces.last()
    }
}

/// Hashes a stream fed in pieces, without holding it whole.
pub struct StreamHasher {
    inner: blake3::Hasher,
}

impl StreamHasher {
    /// The bytes fed so far, in order.
    pub closed spec fn input(&self) -> Seq<u8> {
        hasher_input(self.inner)
    }

    /// A hasher fed nothing.
    pub fn new() -> (r: Self)
        ensures
            r.input() == Seq::<u8>::empty(),
    {
        StreamHasher { inner: hasher_new() }
    }

    /// Feeds the next piece of the stream.
    pub fn update(&mut self, data: &[u8])
        ensures
            final(self).input() == old(self).input() + data@,
    {
        hasher_update(&mut self.inner, data);
    }

    /// The content hash of everything fed so far: the same as `hash_bytes`
    /// of it, however it was split.
    pub fn hex(&self) -> (r: String)
        ensures
            r@ == blake3_hex(self.input()),
            is_hex_digest(r@),
    {
        hasher_hex(&self.inner)
    }
}

} // verus!
