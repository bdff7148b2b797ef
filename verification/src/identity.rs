//! Caller identities.
//!
//! An identity is the byte string by which a caller is known: at most
//! [`MAX_IDENTITY_BYTES`] bytes, compared byte for byte. Its textual form is
//! the one that the `candid` crate gives a principal with the same bytes.

use vstd::prelude::*;
use vstd::slice::slice_to_vec;

verus! {

/// The greatest number of bytes an identity can hold.
pub const MAX_IDENTITY_BYTES: usize = 29;

/// The identity of a caller: an opaque, comparable byte string.
#[derive(Debug, PartialEq, Eq, Hash)]
pub struct Identity {
    bytes: Vec<u8>,
}

impl View for Identity {
    type V = Seq<u8>;

    closed spec fn view(&self) -> Seq<u8> {
        self.bytes@
    }
}

/// The text that `candid` prints for the principal made of `bytes`.
pub uninterp spec fn principal_text(bytes: Seq<u8>) -> Seq<char>;

/// Calls `candid::Principal::from_slice` and then `Principal::to_text` on the
/// result. `from_slice` panics on more than 29 bytes, which `requires` leaves
/// out. The text is a checksum and the bytes in base 32, in groups of five
/// characters; the contract only gives it the name [`principal_text`].
#[verifier::external_body]
fn principal_to_text(bytes: &[u8]) -> (text: String)
    requires
        bytes@.len() <= MAX_IDENTITY_BYTES,
    ensures
        text@ == principal_text(bytes@),
{
    candid::Principal::from_slice(bytes).to_text()
}

impl Identity {
    /// Every identity holds at most [`MAX_IDENTITY_BYTES`] bytes.
    #[verifier::type_invariant]
    pub open spec fn bounded(&self) -> bool {
        self@.len() <= MAX_IDENTITY_BYTES
    }

    /// The identity made of `bytes`, or `None` where they are too many.
    pub fn new(bytes: Vec<u8>) -> (r: Option<Identity>)
        ensures
            r is Some <==> bytes@.len() <= MAX_IDENTITY_BYTES,
            r matches Some(id) ==> id@ == bytes@,
    {
        if bytes.len() <= MAX_IDENTITY_BYTES {
            Some(Identity { bytes })
        } else {
            None
        }
    }

    /// The bytes of this identity.
    pub fn as_bytes(&self) -> (bytes: &[u8])
        ensures
            bytes@ == self@,
            bytes@.len() <= MAX_IDENTITY_BYTES,
    {
        proof {
            use_type_invariant(self);
        }
        self.bytes.as_slice()
    }

    /// Whether two identities are the same caller.
    pub fn same_as(&self, other: &Identity) -> (same: bool)
        ensures
            same == (self@ == other@),
    {
        let a = self.bytes.as_slice();
        let b = other.bytes.as_slice();
        if a.len() != b.len() {
            return false;
        }
        let mut i: usize = 0;
        while i < a.len()
            invariant
                i <= a@.len(),
                a@.len() == b@.len(),
                a@ == self@,
                b@ == other@,
                forall|j: int| 0 <= j < i ==> a@[j] == b@[j],
            decreases a@.len() - i,
        {
            if a[i] != b[i] {
                return false;
            }
            i += 1;
        }
        assert(a@ =~= b@);
        true
    }

    /// The external representation of this identity.
    pub fn to_text(&self) -> (text: String)
        ensures
            text@ == principal_text(self@),
    {
        principal_to_text(self.as_bytes())
    }
}

impl Clone for Identity {
    fn clone(&self) -> (copy: Identity)
        ensures
            copy@ == self@,
    {
        proof {
            use_type_invariant(self);
        }
        Identity { bytes: slice_to_vec(self.bytes.as_slice()) }
    }
}

} // verus!
