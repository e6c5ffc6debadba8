//! Agreements: a contract's terms, its two parties, and the monotonic proof
//! slots, together with the canonical message the parties sign.

use vstd::prelude::*;
use vstd::utf8::encode_utf8;

use crate::hashing::{
    hex_of, is_hex_seq, lemma_hex_of_round_trip, hex_encode, sha256_bytes, sha256_of, str_bytes,
};
use crate::lamport::{strings_view, PublicKey};
use crate::signature::{Signature, SignatureModel};
use crate::user::{User, UserModel};

verus! {

/// The two proof slots of an agreement; either may independently be filled.
pub type ProofOfAgreement = (Option<Signature>, Option<Signature>);

/// The public keys aligned with the two proof slots.
pub type PublicKeys = (Option<PublicKey>, Option<PublicKey>);

/// A contract between two parties: immutable terms, parties and date, a
/// monotonic id, and the two proof slots with their public keys.
pub struct Agreement {
    pub terms: Vec<String>,
    pub by_user: User,
    pub with_user: User,
    pub date: String,
    pub proof_of_agreement: Option<ProofOfAgreement>,
    pub public_keys: Option<PublicKeys>,
    pub id: u64,
}

/// The mathematical content of an agreement.
pub ghost struct AgreementModel {
    pub terms: Seq<Seq<char>>,
    pub by_user: UserModel,
    pub with_user: UserModel,
    pub date: Seq<char>,
    pub proof_of_agreement: Option<(Option<SignatureModel>, Option<SignatureModel>)>,
    pub public_keys: Option<(Option<Seq<(Seq<char>, Seq<char>)>>, Option<Seq<(Seq<char>, Seq<char>)>>)>,
    pub id: u64,
}

/// The content of an optional stored signature.
pub open spec fn opt_sig_view(s: Option<Signature>) -> Option<SignatureModel> {
    match s {
        None => None,
        Some(sig) => Some(sig@),
    }
}

/// The content of an optional stored public key.
pub open spec fn opt_key_view(k: Option<PublicKey>) -> Option<Seq<(Seq<char>, Seq<char>)>> {
    match k {
        None => None,
        Some(key) => Some(key@),
    }
}

impl View for Agreement {
    type V = AgreementModel;

    open spec fn view(&self) -> AgreementModel {
        AgreementModel {
            terms: strings_view(self.terms@),
            by_user: self.by_user@,
            with_user: self.with_user@,
            date: self.date@,
            proof_of_agreement: match self.proof_of_agreement {
                None => None,
                Some(slots) => Some((opt_sig_view(slots.0), opt_sig_view(slots.1))),
            },
            public_keys: match self.public_keys {
                None => None,
                Some(keys) => Some((opt_key_view(keys.0), opt_key_view(keys.1))),
            },
            id: self.id,
        }
    }
}

/// A fresh agreement: both proof slots absent, all other fields as given.
pub open spec fn new_agreement_model(
    terms: Seq<Seq<char>>,
    date: Seq<char>,
    with_user: UserModel,
    id: u64,
    by_user: UserModel,
) -> AgreementModel {
    AgreementModel {
        terms,
        by_user,
        with_user,
        date,
        proof_of_agreement: None,
        public_keys: None,
        id,
    }
}

/// Copies a vector of strings, preserving its contents.
pub(crate) fn clone_strings(v: &Vec<String>) -> (r: Vec<String>)
    ensures
        strings_view(r@) == strings_view(v@),
{
    let mut out: Vec<String> = Vec::new();
    for i in 0..v.len()
        invariant
            out@.len() == i,
            forall|j: int| 0 <= j < i ==> out@[j]@ == v@[j]@,
    {
        out.push(v[i].clone());
    }
    proof {
        assert(strings_view(out@) =~= strings_view(v@));
    }
    out
}

fn clone_opt_sig(s: &Option<Signature>) -> (r: Option<Signature>)
    ensures
        opt_sig_view(r) == opt_sig_view(*s),
{
    match s {
        None => None,
        Some(sig) => Some(sig.clone()),
    }
}

fn clone_opt_key(k: &Option<PublicKey>) -> (r: Option<PublicKey>)
    ensures
        opt_key_view(r) == opt_key_view(*k),
{
    match k {
        None => None,
        Some(key) => Some(key.clone()),
    }
}

impl Clone for Agreement {
    fn clone(&self) -> (r: Self)
        ensures
            r@ == self@,
    {
        Agreement {
            terms: clone_strings(&self.terms),
            by_user: self.by_user.clone(),
            with_user: self.with_user.clone(),
            date: self.date.clone(),
            proof_of_agreement: match &self.proof_of_agreement {
                None => None,
                Some(slots) => Some((clone_opt_sig(&slots.0), clone_opt_sig(&slots.1))),
            },
            public_keys: match &self.public_keys {
                None => None,
                Some(keys) => Some((clone_opt_key(&keys.0), clone_opt_key(&keys.1))),
            },
            id: self.id,
        }
    }
}

/// The canonical message of a terms list: the concatenation of the UTF-8
/// bytes of every term, in order.
pub open spec fn concat_utf8(terms: Seq<Seq<char>>) -> Seq<u8>
    decreases terms.len(),
{
    if terms.len() == 0 {
        Seq::empty()
    } else {
        concat_utf8(terms.drop_last()) + encode_utf8(terms.last())
    }
}

/// The canonical digest of a terms list: SHA-256 of the canonical message,
/// rendered as 64 lowercase hex characters.
pub open spec fn canonical_digest_spec(terms: Seq<Seq<char>>) -> Seq<char> {
    hex_of(sha256_of(concat_utf8(terms)))
}

/// An empty terms list canonicalises to the empty byte string, so its
/// digest is the digest of the empty byte string.
pub proof fn lemma_empty_terms_canonical()
    ensures
        concat_utf8(Seq::<Seq<char>>::empty()) == Seq::<u8>::empty(),
        canonical_digest_spec(Seq::<Seq<char>>::empty()) == hex_of(
            sha256_of(Seq::<u8>::empty()),
        ),
{
}

/// Compute the canonical digest of an agreement's terms.
#[verifier::loop_isolation(false)]
pub fn canonical_digest(terms: &Vec<String>) -> (r: String)
    ensures
        r@ == canonical_digest_spec(strings_view(terms@)),
        r@.len() == 64,
        is_hex_seq(r@),
{
    let mut message: Vec<u8> = Vec::new();
    for i in 0..terms.len()
        invariant
            message@ == concat_utf8(strings_view(terms@).take(i as int)),
    {
        let mut piece = str_bytes(terms[i].as_str());
        message.append(&mut piece);
        proof {
            assert(strings_view(terms@).take(i + 1).drop_last() =~= strings_view(terms@).take(
                i as int,
            ));
            assert(strings_view(terms@).take(i + 1).last() == terms@[i as int]@);
        }
    }
    proof {
        assert(strings_view(terms@).take(terms@.len() as int) =~= strings_view(terms@));
    }
    let digest = sha256_bytes(&message);
    let out = hex_encode(&digest);
    proof {
        lemma_hex_of_round_trip(digest@);
    }
    out
}

} // verus!
