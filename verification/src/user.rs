//! Parties to an agreement, and the two signing actions a party can take:
//! creating an agreement and agreeing to one.

use vstd::prelude::*;

use crate::agreement::{
    canonical_digest, canonical_digest_spec, Agreement, AgreementModel, new_agreement_model,
};
use crate::hashing::is_hex_seq;
use crate::lamport::{
    create_public_key, derive_spec, lemma_correctness, random_private_key, sign, sign_spec,
    strings_view, to_public_spec, verify_spec,
};
use crate::signature::{Signature, SignatureModel};
use vstd::string::StringExecFns;

verus! {

/// A registered party: an opaque identity string plus the ids of the
/// agreements the party takes part in.
#[derive(Debug)]
pub struct User {
    pub identity: String,
    pub agreements: Vec<u64>,
}

/// The mathematical content of a `User`.
pub ghost struct UserModel {
    pub identity: Seq<char>,
    pub agreements: Seq<u64>,
}

impl View for User {
    type V = UserModel;

    open spec fn view(&self) -> UserModel {
        UserModel { identity: self.identity@, agreements: self.agreements@ }
    }
}

impl Clone for User {
    fn clone(&self) -> (r: Self)
        ensures
            r@ == self@,
    {
        let mut ids: Vec<u64> = Vec::new();
        for i in 0..self.agreements.len()
            invariant
                ids@ == self.agreements@.take(i as int),
        {
            ids.push(self.agreements[i]);
            proof {
                assert(ids@ =~= self.agreements@.take(i + 1));
            }
        }
        proof {
            assert(self.agreements@.take(self.agreements@.len() as int) =~= self.agreements@);
        }
        User { identity: self.identity.clone(), agreements: ids }
    }
}

/// The nonce the protocol layer mixes into every derivation.
pub open spec fn protocol_nonce() -> Seq<char> {
    "example nounce"@
}

/// The private key the protocol derives for a signer on an agreement.
pub open spec fn derived_key(identity: Seq<char>, ag: AgreementModel) -> Seq<
    (Seq<char>, Seq<char>),
> {
    derive_spec(identity, ag, protocol_nonce())
}

/// The signature the protocol produces for a signer on an agreement: the
/// canonical digest of the terms, signed under the derived key.
pub open spec fn signature_for(identity: Seq<char>, ag: AgreementModel) -> SignatureModel {
    SignatureModel {
        agrees_to: ag.id,
        value: sign_spec(canonical_digest_spec(ag.terms), derived_key(identity, ag)),
    }
}

/// The public key the protocol stores beside that signature.
pub open spec fn public_key_for(identity: Seq<char>, ag: AgreementModel) -> Seq<
    (Seq<char>, Seq<char>),
> {
    to_public_spec(derived_key(identity, ag))
}

/// The agreement after the initiator's automatic signature: the first slot
/// holds the initiator's signature and public key, the second is empty.
pub open spec fn automatic_model(ag: AgreementModel) -> AgreementModel {
    AgreementModel {
        proof_of_agreement: Some((Some(signature_for(ag.by_user.identity, ag)), None)),
        public_keys: Some((Some(public_key_for(ag.by_user.identity, ag)), None)),
        ..ag
    }
}

/// The agreement after a party agrees: slot selection observes the pre-call
/// state. An absent proof leaves the agreement unchanged; an empty first slot
/// receives the new pair; otherwise the second slot does.
pub open spec fn agree_model(identity: Seq<char>, ag: AgreementModel) -> AgreementModel {
    match ag.proof_of_agreement {
        None => ag,
        Some(slots) => {
            let sig = signature_for(identity, ag);
            let pk = public_key_for(identity, ag);
            let keys = match ag.public_keys {
                None => (None, None),
                Some(k) => k,
            };
            if slots.0 is Some {
                AgreementModel {
                    proof_of_agreement: Some((slots.0, Some(sig))),
                    public_keys: Some((keys.0, Some(pk))),
                    ..ag
                }
            } else {
                AgreementModel {
                    proof_of_agreement: Some((Some(sig), slots.1)),
                    public_keys: Some((Some(pk), keys.1)),
                    ..ag
                }
            }
        },
    }
}

/// Correctness at the protocol layer: the signature and public key the
/// protocol writes into a slot verify over the canonical digest of the same
/// agreement's terms. The two hypotheses hold of every digest the hash
/// primitive actually produces.
pub proof fn lemma_protocol_signature_verifies(identity: Seq<char>, ag: AgreementModel)
    requires
        canonical_digest_spec(ag.terms).len() == 64,
        is_hex_seq(canonical_digest_spec(ag.terms)),
    ensures
        verify_spec(
            canonical_digest_spec(ag.terms),
            signature_for(identity, ag).value,
            public_key_for(identity, ag),
        ),
{
    lemma_correctness(canonical_digest_spec(ag.terms), identity, ag, protocol_nonce());
}

/// Creation of a fresh, unsigned agreement by a party.
pub trait CreateAgreement: View<V = UserModel> {
    fn new_agreement(self, terms: Vec<String>, date: String, with_user: User, id: u64) -> (r:
        Agreement)
        ensures
            r@ == new_agreement_model(strings_view(terms@), date@, with_user@, id, self@),
    ;
}

/// The two signing actions over an agreement.
pub trait Agree: View<V = UserModel> {
    /// Sign the agreement as this party, filling the first empty proof slot
    /// (observing the pre-call state).
    fn agree(self, agreement: Agreement) -> (r: Agreement)
        ensures
            r@ == agree_model(self@.identity, agreement@),
    ;

    /// The initiator's immediate signature on a freshly created agreement.
    fn automatic_agreement(&self, agreement: Agreement) -> (r: Agreement)
        ensures
            r@ == automatic_model(agreement@),
    ;
}

impl CreateAgreement for User {
    fn new_agreement(self, terms: Vec<String>, date: String, with_user: User, id: u64) -> (r:
        Agreement) {
        Agreement {
            by_user: self,
            with_user,
            terms,
            date,
            id,
            proof_of_agreement: None,
            public_keys: None,
        }
    }
}

impl Agree for User {
    fn agree(self, agreement: Agreement) -> (r: Agreement) {
        let private_key = random_private_key(
            self.identity,
            agreement.clone(),
            "example nounce".to_owned(),
        );
        let digest = canonical_digest(&agreement.terms);
        let generated_signature = sign(digest, &private_key);
        let public_key = create_public_key(&private_key);
        let signature = Signature { agrees_to: agreement.id, value: generated_signature };
        let Agreement { terms, by_user, with_user, date, proof_of_agreement, public_keys, id } =
            agreement;
        let (new_proof, new_keys) = match proof_of_agreement {
            None => (None, public_keys),
            Some((first_sig_opt, second_sig_opt)) => {
                let (key0, key1) = match public_keys {
                    None => (None, None),
                    Some(k) => k,
                };
                match first_sig_opt {
                    Some(first_sig) => (
                        (Some((Some(first_sig), Some(signature)))),
                        (Some((key0, Some(public_key)))),
                    ),
                    None => (
                        (Some((Some(signature), second_sig_opt))),
                        (Some((Some(public_key), key1))),
                    ),
                }
            },
        };
        Agreement {
            terms,
            by_user,
            with_user,
            date,
            proof_of_agreement: new_proof,
            public_keys: new_keys,
            id,
        }
    }

    fn automatic_agreement(&self, agreement: Agreement) -> (r: Agreement) {
        let private_key = random_private_key(
            agreement.by_user.identity.clone(),
            agreement.clone(),
            "example nounce".to_owned(),
        );
        let digest = canonical_digest(&agreement.terms);
        let generated_signature = sign(digest, &private_key);
        let public_key = create_public_key(&private_key);
        let signature = Signature { agrees_to: agreement.id, value: generated_signature };
        let Agreement { terms, by_user, with_user, date, proof_of_agreement: _, public_keys: _, id } =
            agreement;
        Agreement {
            terms,
            by_user,
            with_user,
            date,
            proof_of_agreement: Some((Some(signature), None)),
            public_keys: Some((Some(public_key), None)),
            id,
        }
    }
}

} // verus!
