//! Hash digests.

use crate::collections::MapKey;
use crate::ordered::{bytes_before, OrdKey};
use blake2::digest::{Input, VariableOutput};
use blake2::VarBlake2b;
use vstd::prelude::*;

verus! {

/// The length of a digest in bytes.
pub const DIGEST_LENGTH: usize = 32;

/// A 256-bit hash digest.
#[derive(Clone, Copy, Debug, PartialOrd, Ord, Hash)]
pub struct Digest(pub [u8; 32]);

/// The hash identifying a block.
pub type BlockHash = Digest;

/// The hash identifying a proto block.
pub type ProtoBlockHash = Digest;

/// The hash identifying a deploy.
pub type DeployHash = Digest;

/// Returns whether two byte arrays hold the same bytes.
pub fn same_bytes<const N: usize>(a: &[u8; N], b: &[u8; N]) -> (r: bool)
    ensures
        r == (*a == *b),
{
    let mut i: usize = 0;
    while i < N
        invariant
            i <= N,
            forall|j: int| 0 <= j < i ==> a@[j] == b@[j],
        decreases N - i,
    {
        if a[i] != b[i] {
            assert(a@[i as int] != b@[i as int]);
            return false;
        }
        i += 1;
    }
    assert(a@ =~= b@);
    assert(*a =~= *b);
    true
}

impl PartialEq for Digest {
    fn eq(&self, other: &Digest) -> (r: bool) {
        same_bytes(&self.0, &other.0)
    }
}

impl Eq for Digest {

}

impl vstd::std_specs::cmp::PartialEqSpecImpl for Digest {
    open spec fn obeys_eq_spec() -> bool {
        true
    }

    open spec fn eq_spec(&self, other: &Digest) -> bool {
        *self == *other
    }
}

impl MapKey for Digest {
    fn same(&self, other: &Digest) -> (b: bool) {
        same_bytes(&self.0, &other.0)
    }
}

/// Digests are ordered by their bytes.
impl OrdKey for Digest {
    open spec fn before(self, other: Digest) -> bool {
        crate::ordered::lex_less(self.0@, other.0@)
    }

    proof fn lemma_order(a: Digest, b: Digest, c: Digest) {
        crate::ordered::lemma_lex_order(a.0@, b.0@, c.0@);
        if a.0@ == b.0@ {
            assert(a.0 =~= b.0);
        }
    }

    fn precedes(&self, other: &Digest) -> (r: bool) {
        bytes_before(&self.0, &other.0)
    }
}

/// The BLAKE2b digest, 32 bytes long and without a key, of a sequence of bytes.
pub uninterp spec fn blake2b_256(data: Seq<u8>) -> Seq<u8>;

/// Calls `VarBlake2b::new` for 32 bytes of output, `input` on all of `data` and `variable_result`,
/// and claims of the outcome only that it depends on nothing but `data`.
#[verifier::external_body]
fn blake2b(data: &[u8]) -> (r: [u8; 32])
    ensures
        r@ == blake2b_256(data@),
{
    let mut result = [0; 32];
    let mut hasher = VarBlake2b::new(32).expect("should create hasher");
    hasher.input(data);
    hasher.variable_result(|slice| result.copy_from_slice(slice));
    result
}

/// Returns the BLAKE2b digest of `data`.
pub fn hash(data: &[u8]) -> (r: Digest)
    ensures
        r.0@ == blake2b_256(data@),
{
    Digest(blake2b(data))
}

} // verus!
