//! Digests of files that are read piece by piece.

use crate::bank_seed::same_bytes;
use crate::outside::{digest_of_fed, fed, feed, hex_of, hex_text, new_hasher, sha256, Hasher};
use crate::text::cat5;
use vstd::prelude::*;

verus! {

/// The digest and the size of what was read so far.
#[derive(Debug)]
pub struct FileHash {
    hasher: Hasher,
    size: u64,
}

/// The answer on whether what was read has the digest that was promised.
pub open spec fn held_to_promise(
    bytes: Seq<u8>,
    promised: Seq<u8>,
    r: Result<([u8; 32], u64), [u8; 32]>,
) -> bool {
    match r {
        Ok(f) => sha256(bytes) == promised && f.0@ == promised && f.1 == bytes.len(),
        Err(actual) => sha256(bytes) != promised && actual@ == sha256(bytes),
    }
}

impl FileHash {
    #[verifier::type_invariant]
    spec fn counted(self) -> bool {
        self.size == fed(self.hasher).len()
    }

    /// What was read so far.
    pub closed spec fn bytes(self) -> Seq<u8> {
        fed(self.hasher)
    }

    /// Nothing was read yet.
    pub fn new() -> (h: FileHash)
        ensures
            h.bytes() == Seq::<u8>::empty(),
    {
        FileHash { hasher: new_hasher(), size: 0 }
    }

    /// Takes in the next piece.
    pub fn take(self, piece: &[u8]) -> (h: FileHash)
        requires
            self.bytes().len() + piece@.len() <= u64::MAX,
        ensures
            h.bytes() == self.bytes() + piece@,
    {
        proof {
            use_type_invariant(&self);
        }
        let n: usize = piece.len();
        let size: u64 = self.size + n as u64;
        let mut hasher = self.hasher;
        feed(&mut hasher, piece);
        FileHash { hasher, size }
    }

    /// The digest and the size of all that was read.
    pub fn finish(self) -> (r: ([u8; 32], u64))
        ensures
            r.0@ == sha256(self.bytes()),
            r.1 == self.bytes().len(),
    {
        proof {
            use_type_invariant(&self);
        }
        (digest_of_fed(self.hasher), self.size)
    }

    /// The digest and the size of all that was read, if it has the digest that was
    /// promised; else the digest that it has.
    pub fn finish_as(self, promised: &[u8]) -> (r: Result<([u8; 32], u64), [u8; 32]>)
        ensures
            held_to_promise(self.bytes(), promised@, r),
    {
        let found = self.finish();
        if same_bytes(found.0.as_slice(), promised) {
            Ok(found)
        } else {
            Err(found.0)
        }
    }
}

/// What is said of a payload that has another digest than was promised.
pub open spec fn promise_broken(name: Seq<char>, actual: Seq<u8>, promised: Seq<u8>) -> Seq<char> {
    name + ": digest "@ + hex_text(actual) + " != manifest-declared "@ + hex_text(promised)
}

/// What is said of a payload that has another digest than was promised.
pub fn promise_broken_text(name: &str, actual: &[u8; 32], promised: &[u8]) -> (r: String)
    ensures
        r@ == promise_broken(name@, actual@, promised@),
{
    let got = hex_of(actual.as_slice());
    let want = hex_of(promised);
    cat5(name, ": digest ", got.as_str(), " != manifest-declared ", want.as_str())
}

/// What was read is good exactly when it has the promised digest; its size is then told,
/// and else the digest that it has.
pub proof fn law_only_the_promised_digest_is_good(
    bytes: Seq<u8>,
    promised: Seq<u8>,
    r: Result<([u8; 32], u64), [u8; 32]>,
)
    requires
        held_to_promise(bytes, promised, r),
    ensures
        r is Ok <==> sha256(bytes) == promised,
        r matches Ok(found) ==> found.0@ == promised && found.1 == bytes.len(),
        r matches Err(actual) ==> actual@ == sha256(bytes) && actual@ != promised,
{
}

} // verus!
