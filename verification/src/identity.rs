//! Who may log in.
//!
//! The server is configured with one user name. A handshake is accepted when
//! it claims that name, byte for byte, or, where the server permits it, the
//! privileged alias `root`.

use vstd::prelude::*;
use vstd::utf8::encode_utf8;

verus! {

/// The configured user name, and whether `root` may log in beside it.
#[derive(PartialEq, Eq, Debug)]
pub struct Identity {
    pub expected: String,
    pub allow_root: bool,
}

/// The privileged alias, `root`, as bytes.
pub open spec fn root_alias() -> Seq<u8> {
    seq![0x72u8, 0x6Fu8, 0x6Fu8, 0x74u8]
}

impl Identity {
    /// The configured user name as the bytes that a claim must match.
    pub open spec fn expected_bytes(&self) -> Seq<u8> {
        encode_utf8(self.expected@)
    }

    /// Whether a claimed user name is let in.
    pub open spec fn accepts(&self, claim: Seq<u8>) -> bool {
        claim == self.expected_bytes() || (self.allow_root && claim == root_alias())
    }

    pub fn new(expected: String, allow_root: bool) -> (identity: Identity)
        ensures
            identity.expected == expected,
            identity.allow_root == allow_root,
    {
        Identity { expected, allow_root }
    }

    /// Decides whether `claim` is let in: it is, exactly when
    /// [`Identity::accepts`] says so.
    pub fn authenticate(&self, claim: &[u8]) -> (accepted: bool)
        ensures
            accepted == self.accepts(claim@),
    {
        if bytes_equal(claim, self.expected.as_str().as_bytes()) {
            true
        } else {
            self.allow_root && is_root_alias(claim)
        }
    }
}

/// Whether two byte strings are the same.
pub fn bytes_equal(a: &[u8], b: &[u8]) -> (same: bool)
    ensures
        same == (a@ == b@),
{
    if a.len() != b.len() {
        return false;
    }
    let n: usize = a.len();
    let mut i: usize = 0;
    while i < n
        invariant
            n == a@.len(),
            n == b@.len(),
            i <= n,
            forall|j: int| 0 <= j < i ==> a@[j] == b@[j],
        decreases n - i,
    {
        if a[i] != b[i] {
            return false;
        }
        i = i + 1;
    }
    assert(a@ =~= b@);
    true
}

/// Whether `claim` spells the privileged alias.
fn is_root_alias(claim: &[u8]) -> (same: bool)
    ensures
        same == (claim@ == root_alias()),
{
    let same = claim.len() == 4 && claim[0] == 0x72 && claim[1] == 0x6F && claim[2] == 0x6F
        && claim[3] == 0x74;
    assert(same ==> claim@ =~= root_alias());
    same
}

} // verus!
