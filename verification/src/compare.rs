//! Content comparison.
//!
//! Whether two files with the same path and size must still be overwritten
//! is decided by hashing their contents: a fast non-cryptographic checksum
//! by default, or a cryptographic digest when integrity matters.  Reading
//! the files is the caller's business; this module decides, from the byte
//! contents it is handed, whether a copy is needed.

use vstd::prelude::*;
use blake2::Digest;

verus! {

/// The checksum the fast non-cryptographic hash assigns to a byte string.
pub uninterp spec fn seahash_of(data: Seq<u8>) -> u64;

/// The digest the cryptographic hash assigns to a byte string.
pub uninterp spec fn blake2b_of(data: Seq<u8>) -> Seq<u8>;

/// Relies on seahash::hash: a 64-bit checksum with a fixed seed, a function
/// of the byte contents alone.
#[verifier::external_body]
fn seahash_bytes(data: &Vec<u8>) -> (r: u64)
    ensures
        r == seahash_of(data@),
{
    seahash::hash(data.as_slice())
}

/// Relies on blake2::Blake2b512 (through the digest traits it re-exports):
/// a 64-byte BLAKE2b digest, a function of the byte contents alone.
#[verifier::external_body]
fn blake2b_bytes(data: &Vec<u8>) -> (r: Vec<u8>)
    ensures
        r@ == blake2b_of(data@),
        r@.len() == 64,
{
    blake2::Blake2b512::digest(data.as_slice()).to_vec()
}

/// A cryptographic hasher fed a file's contents piece by piece, so that
/// secure-mode comparison streams a file through the hash instead of
/// holding it whole in memory.  The hasher state is opaque; the bytes it
/// has been fed are tracked by `fed_bytes`, and the digest it finally
/// yields is the digest of everything fed, in order, regardless of how
/// the pieces were cut.
#[verifier::external_body]
pub struct SecureHasher {
    inner: blake2::Blake2b512,
}

/// The bytes an incremental hasher has been fed so far, in order.
pub uninterp spec fn fed_bytes(h: SecureHasher) -> Seq<u8>;

impl SecureHasher {
    /// Relies on Digest::new for blake2::Blake2b512: a fresh hasher has
    /// been fed nothing.
    #[verifier::external_body]
    pub fn new() -> (r: SecureHasher)
        ensures
            fed_bytes(r) == Seq::<u8>::empty(),
    {
        SecureHasher { inner: blake2::Blake2b512::new() }
    }

    /// Relies on Digest::update for blake2::Blake2b512: feeding appends
    /// the bytes to what the hasher has seen.
    #[verifier::external_body]
    pub fn update(&mut self, data: &[u8])
        ensures
            fed_bytes(*final(self)) == fed_bytes(*old(self)) + data@,
    {
        self.inner.update(data);
    }

    /// Relies on Digest::finalize for blake2::Blake2b512, and on one-shot
    /// hashing being defined as new-update-finalize: the 64-byte digest of
    /// everything fed, however it was split into pieces.
    #[verifier::external_body]
    pub fn finish(self) -> (r: Vec<u8>)
        ensures
            r@ == blake2b_of(fed_bytes(self)),
            r@.len() == 64,
    {
        self.inner.finalize().to_vec()
    }
}

/// Compares two byte strings.
pub fn bytes_eq(a: &Vec<u8>, b: &Vec<u8>) -> (r: bool)
    ensures
        r == (a@ == b@),
{
    if a.len() != b.len() {
        return false;
    }
    let mut i: usize = 0;
    while i < a.len()
        invariant
            i <= a@.len(),
            a@.len() == b@.len(),
            forall|k: int| 0 <= k < i ==> a@[k] == b@[k],
        decreases a@.len() - i,
    {
        if a[i] != b[i] {
            return false;
        }
        i = i + 1;
    }
    proof {
        assert(a@ =~= b@);
    }
    true
}

/// Two byte contents count as the same when their hashes under the selected
/// mode coincide.
pub open spec fn content_same(a: Seq<u8>, b: Seq<u8>, secure: bool) -> bool {
    if secure {
        blake2b_of(a) == blake2b_of(b)
    } else {
        seahash_of(a) == seahash_of(b)
    }
}

/// Decides whether the contents `a` and `b` count as the same, hashing each
/// with the fast checksum, or with the cryptographic digest when `secure`
/// is set.  The comparison never mutates either content and is safe to run
/// concurrently over many entries.
pub fn same_content(a: &Vec<u8>, b: &Vec<u8>, secure: bool) -> (r: bool)
    ensures
        r == content_same(a@, b@, secure),
{
    if secure {
        let ha = blake2b_bytes(a);
        let hb = blake2b_bytes(b);
        bytes_eq(&ha, &hb)
    } else {
        let ha = seahash_bytes(a);
        let hb = seahash_bytes(b);
        ha == hb
    }
}

/// Identical contents always compare as the same, under either mode.
pub proof fn lemma_identical_content_same(a: Seq<u8>, b: Seq<u8>, secure: bool)
    requires
        a == b,
    ensures
        content_same(a, b, secure),
{
}

/// Decides whether a compared file must be copied over the destination:
/// always when the source content could not be read, always when the
/// destination content could not be read, and otherwise exactly when the
/// two contents do not count as the same.
pub fn needs_copy(src: Option<&Vec<u8>>, dest: Option<&Vec<u8>>, secure: bool) -> (r: bool)
    ensures
        src is None ==> r,
        src is Some && dest is None ==> r,
        src is Some && dest is Some ==> r == !content_same(
            src->Some_0@,
            dest->Some_0@,
            secure,
        ),
{
    match (src, dest) {
        (Some(a), Some(b)) => !same_content(a, b, secure),
        _ => true,
    }
}

/// Decides whether a compared file must be copied from its two streamed
/// digests: always when the source could not be read, always when the
/// destination could not be read, and otherwise exactly when the digests
/// differ.  For digests of the two files' contents this is the secure-mode
/// content comparison, since `content_same` in secure mode is equality of
/// the contents' digests.
pub fn needs_copy_digest(src: Option<&Vec<u8>>, dest: Option<&Vec<u8>>) -> (r: bool)
    ensures
        src is None ==> r,
        src is Some && dest is None ==> r,
        src is Some && dest is Some ==> r == !(src->Some_0@ == dest->Some_0@),
{
    match (src, dest) {
        (Some(a), Some(b)) => !bytes_eq(a, b),
        _ => true,
    }
}

} // verus!
