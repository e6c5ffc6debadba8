//! A stored party signature: the Lamport signature value together with the id
//! of the agreement it signs.

use vstd::prelude::*;

use crate::lamport::Signature as Lsignature;

verus! {

/// One party's signature as persisted inside an agreement. The back-reference
/// to the signed agreement is kept as its id.
#[derive(Debug)]
pub struct Signature {
    pub agrees_to: u64,
    pub value: Lsignature,
}

/// The mathematical content of a stored signature.
pub ghost struct SignatureModel {
    pub agrees_to: u64,
    pub value: Seq<Seq<char>>,
}

impl View for Signature {
    type V = SignatureModel;

    open spec fn view(&self) -> SignatureModel {
        SignatureModel { agrees_to: self.agrees_to, value: self.value@ }
    }
}

impl Clone for Signature {
    fn clone(&self) -> (r: Self)
        ensures
            r@ == self@,
    {
        Signature { agrees_to: self.agrees_to, value: self.value.clone() }
    }
}

} // verus!
