//! The commitment value type.

use vstd::prelude::*;

use crate::field::copy_bytes;

verus! {

/// A commitment to a polynomial: a single G1 element, semantically the
/// polynomial evaluated at the hidden setup secret, in the exponent. The
/// scheme is binding but not hiding.
#[derive(Debug, PartialEq, Eq)]
pub struct Commitment(pub Vec<u8>);

impl View for Commitment {
    type V = Seq<u8>;

    open spec fn view(&self) -> Seq<u8> {
        self.0@
    }
}

impl Commitment {
    /// A fresh commitment with the same encoding.
    pub fn duplicate(&self) -> (r: Commitment)
        ensures
            r@ == self@,
    {
        Commitment(copy_bytes(&self.0))
    }
}

} // verus!
