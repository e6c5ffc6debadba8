//! A two-party proof-of-agreement library built on Lamport one-time
//! signatures: deterministic key derivation binds each signature to a
//! (signer, contract, nonce) triple, and a contract is accepted exactly when
//! both parties' signatures verify over its canonical terms.

pub mod agreement;
pub mod hashing;
pub mod helpers;
pub mod lamport;
pub mod signature;
pub mod user;

use vstd::prelude::*;
use vstd::string::StringExecFns;

use crate::agreement::{canonical_digest, canonical_digest_spec, Agreement, AgreementModel};
use crate::helpers::ToUser;
use crate::lamport::{strings_view, verify, verify_spec};
use crate::hashing::is_hex_seq;
use crate::user::{
    agree_model, automatic_model, lemma_protocol_signature_verifies, Agree, CreateAgreement, User,
    UserModel,
};

verus! {

/// The kinds of failure the protocol surfaces.
#[derive(Debug, PartialEq, Eq, Structural)]
pub enum Error {
    /// No record exists for the requested id.
    NotFound,
    /// Verification was requested before both proof slots were filled.
    IncompleteProof,
    /// A co-signature was attempted on an already complete proof.
    AlreadyComplete,
    /// The request carried an empty terms list or an empty term.
    InvalidInput,
    /// An id counter can no longer be advanced.
    Fatal,
}

/// A terms list the protocol accepts: non-empty, and every term non-empty.
pub open spec fn terms_valid(terms: Seq<Seq<char>>) -> bool {
    terms.len() > 0 && (forall|i: int| 0 <= i < terms.len() ==> (#[trigger] terms[i]).len() > 0)
}

/// The slot structure every stored agreement keeps: the proof pair and the
/// key pair are present, the first slot is signed, and each key slot is
/// filled exactly when its signature slot is.
pub open spec fn agreement_wf(ag: AgreementModel) -> bool {
    match (ag.proof_of_agreement, ag.public_keys) {
        (Some(slots), Some(keys)) => {
            &&& slots.0 is Some
            &&& keys.0 is Some
            &&& (slots.1 is Some <==> keys.1 is Some)
        },
        _ => false,
    }
}

/// Both proof slots of the agreement are filled.
pub open spec fn proof_complete(ag: AgreementModel) -> bool {
    match ag.proof_of_agreement {
        Some(slots) => slots.0 is Some && slots.1 is Some,
        None => false,
    }
}

/// Both stored signatures verify over the canonical digest of the stored
/// terms, each under its own stored public key.
pub open spec fn proof_valid(ag: AgreementModel) -> bool {
    match (ag.proof_of_agreement, ag.public_keys) {
        (Some(slots), Some(keys)) => match (slots.0, slots.1, keys.0, keys.1) {
            (Some(s0), Some(s1), Some(k0), Some(k1)) => {
                let digest = canonical_digest_spec(ag.terms);
                verify_spec(digest, s0.value, k0) && verify_spec(digest, s1.value, k1)
            },
            _ => false,
        },
        _ => false,
    }
}

/// The agreement created by `initiate`: fresh fields, and the initiator's
/// automatic signature and public key in the first slot.
pub open spec fn initiate_model(
    terms: Seq<Seq<char>>,
    with_identity: Seq<char>,
    date: Seq<char>,
    id: u64,
) -> AgreementModel {
    automatic_model(
        agreement::new_agreement_model(
            terms,
            date,
            UserModel { identity: with_identity, agreements: Seq::empty() },
            id,
            UserModel { identity: "aMSCHEL"@, agreements: Seq::empty() },
        ),
    )
}

/// The models of a sequence of agreements.
pub open spec fn models_view(ags: Seq<Agreement>) -> Seq<AgreementModel> {
    ags.map_values(|a: Agreement| a@)
}

/// The user takes part in the agreement as either party.
pub open spec fn involves(ag: AgreementModel, identity: Seq<char>) -> bool {
    ag.with_user.identity == identity || ag.by_user.identity == identity
}

/// The subsequence of agreements, in stored order, that involve the identity.
pub open spec fn matching_agreements(ags: Seq<Agreement>, identity: Seq<char>) -> Seq<
    AgreementModel,
>
    decreases ags.len(),
{
    if ags.len() == 0 {
        Seq::empty()
    } else {
        let rest = matching_agreements(ags.drop_last(), identity);
        if involves(ags.last()@, identity) {
            rest.push(ags.last()@)
        } else {
            rest
        }
    }
}

/// The storage collaborator: the two keyed collections and the two monotonic
/// id counters, kept in id order.
pub struct Store {
    pub agreements: Vec<Agreement>,
    pub users: Vec<(u64, User)>,
    pub next_agreement_id: u64,
    pub next_user_id: u64,
}

impl Store {
    /// Every stored agreement is well-formed and below the agreement counter,
    /// agreements are in strictly increasing id order, and user ids likewise.
    pub open spec fn wf(self) -> bool {
        &&& forall|i: int|
            0 <= i < self.agreements@.len() ==> agreement_wf((#[trigger] self.agreements@[i])@)
                && self.agreements@[i].id < self.next_agreement_id
        &&& forall|i: int, j: int|
            0 <= i < j < self.agreements@.len() ==> (#[trigger] self.agreements@[i]).id < (
            #[trigger] self.agreements@[j]).id
        &&& forall|i: int|
            0 <= i < self.users@.len() ==> (#[trigger] self.users@[i]).0 < self.next_user_id
        &&& forall|i: int, j: int|
            0 <= i < j < self.users@.len() ==> (#[trigger] self.users@[i]).0 < (
            #[trigger] self.users@[j]).0
    }

    /// An agreement with this id is stored.
    pub open spec fn has_agreement(self, id: u64) -> bool {
        exists|i: int| 0 <= i < self.agreements@.len() && (#[trigger] self.agreements@[i]).id == id
    }

    /// The position of the agreement with this id; meaningful only under
    /// `has_agreement`.
    pub open spec fn agreement_index(self, id: u64) -> int {
        choose|i: int| 0 <= i < self.agreements@.len() && (#[trigger] self.agreements@[i]).id == id
    }

    /// The stored agreement with this id; meaningful only under
    /// `has_agreement`.
    pub open spec fn agreement_model(self, id: u64) -> AgreementModel {
        self.agreements@[self.agreement_index(id)]@
    }

    /// A user with this id is stored.
    pub open spec fn has_user(self, id: u64) -> bool {
        exists|i: int| 0 <= i < self.users@.len() && (#[trigger] self.users@[i]).0 == id
    }

    /// The position of the user with this id; meaningful only under
    /// `has_user`.
    pub open spec fn user_index(self, id: u64) -> int {
        choose|i: int| 0 <= i < self.users@.len() && (#[trigger] self.users@[i]).0 == id
    }

    /// The stored user with this id; meaningful only under `has_user`.
    pub open spec fn user_model(self, id: u64) -> UserModel {
        self.users@[self.user_index(id)].1@
    }

    /// An empty store with both counters at zero.
    pub fn new() -> (r: Store)
        ensures
            r.wf(),
            r.agreements@.len() == 0,
            r.users@.len() == 0,
            r.next_agreement_id == 0,
            r.next_user_id == 0,
    {
        Store { agreements: Vec::new(), users: Vec::new(), next_agreement_id: 0, next_user_id: 0 }
    }

    /// An empty store whose counters start at the given values.
    pub fn with_next_ids(next_agreement_id: u64, next_user_id: u64) -> (r: Store)
        ensures
            r.wf(),
            r.agreements@.len() == 0,
            r.users@.len() == 0,
            r.next_agreement_id == next_agreement_id,
            r.next_user_id == next_user_id,
    {
        Store { agreements: Vec::new(), users: Vec::new(), next_agreement_id, next_user_id }
    }

    /// Register a caller identity under the next user id. Fails as `Fatal`
    /// exactly when the user counter can no longer be advanced.
    pub fn signup_user(&mut self, identity: String) -> (r: Result<String, Error>)
        requires
            old(self).wf(),
        ensures
            final(self).wf(),
            old(self).next_user_id == u64::MAX ==> (r matches Err(e) && e == Error::Fatal
                && *final(self) == *old(self)),
            old(self).next_user_id < u64::MAX ==> {
                &&& r matches Ok(m) && m@ == "User "@ + identity@ + " created"@
                &&& final(self).users@.len() == old(self).users@.len() + 1
                &&& final(self).users@.drop_last() == old(self).users@
                &&& final(self).users@.last().0 == old(self).next_user_id
                &&& final(self).users@.last().1@ == (UserModel {
                    identity: identity@,
                    agreements: Seq::empty(),
                })
                &&& final(self).next_user_id == old(self).next_user_id + 1
                &&& final(self).agreements@ == old(self).agreements@
                &&& final(self).next_agreement_id == old(self).next_agreement_id
            },
    {
        if self.next_user_id == u64::MAX {
            return Err(Error::Fatal);
        }
        let id = self.next_user_id;
        self.next_user_id = id + 1;
        let user = User { agreements: Vec::new(), identity };
        let mut message = "User ".to_owned();
        message.append(user.identity.as_str());
        message.append(" created");
        self.users.push((id, user));
        proof {
            assert(self.users@.drop_last() =~= old(self).users@);
        }
        Ok(message)
    }

    /// Create an agreement over the given terms with the named counterparty,
    /// sign it automatically as the initiator, and store it under the next
    /// agreement id. Rejects an empty terms list, or an empty term, as
    /// `InvalidInput`; fails as `Fatal` exactly when the agreement counter
    /// can no longer be advanced.
    #[verifier::loop_isolation(false)]
    pub fn initiate_agreement(
        &mut self,
        terms: Vec<String>,
        with_user: String,
        date: String,
    ) -> (r: Result<Agreement, Error>)
        requires
            old(self).wf(),
        ensures
            final(self).wf(),
            !terms_valid(strings_view(terms@)) ==> (r matches Err(e) && e == Error::InvalidInput
                && *final(self) == *old(self)),
            terms_valid(strings_view(terms@)) && old(self).next_agreement_id == u64::MAX ==> (
            r matches Err(e) && e == Error::Fatal && *final(self) == *old(self)),
            terms_valid(strings_view(terms@)) && old(self).next_agreement_id < u64::MAX ==> {
                &&& r matches Ok(ag) && ag@ == initiate_model(
                    strings_view(terms@),
                    with_user@,
                    date@,
                    old(self).next_agreement_id,
                )
                &&& final(self).agreements@.len() == old(self).agreements@.len() + 1
                &&& final(self).agreements@.drop_last() == old(self).agreements@
                &&& final(self).agreements@.last()@ == initiate_model(
                    strings_view(terms@),
                    with_user@,
                    date@,
                    old(self).next_agreement_id,
                )
                &&& final(self).next_agreement_id == old(self).next_agreement_id + 1
                &&& final(self).users@ == old(self).users@
                &&& final(self).next_user_id == old(self).next_user_id
            },
    {
        let n = terms.len();
        if n == 0 {
            return Err(Error::InvalidInput);
        }
        for i in 0..n
            invariant
                forall|j: int| 0 <= j < i ==> strings_view(terms@)[j].len() > 0,
        {
            if terms[i].as_str().is_empty() {
                proof {
                    assert(strings_view(terms@)[i as int].len() == 0);
                }
                return Err(Error::InvalidInput);
            }
        }
        if self.next_agreement_id == u64::MAX {
            return Err(Error::Fatal);
        }
        let id = self.next_agreement_id;
        self.next_agreement_id = id + 1;
        let agreement = _create_new_agreement(terms, with_user, id, date);
        let stored = agreement.clone();
        self.agreements.push(stored);
        proof {
            assert(self.agreements@.drop_last() =~= old(self).agreements@);
        }
        Ok(agreement)
    }

    /// Sign the stored agreement as the calling identity, filling the slot
    /// that the pre-call state shows empty. Fails as `NotFound` when no
    /// agreement has the id, and as `AlreadyComplete` when both slots are
    /// already signed.
    #[verifier::loop_isolation(false)]
    pub fn agree_to(&mut self, agreement_id: u64, caller: String) -> (r: Result<Agreement, Error>)
        requires
            old(self).wf(),
        ensures
            final(self).wf(),
            !old(self).has_agreement(agreement_id) ==> (r matches Err(e) && e == Error::NotFound
                && *final(self) == *old(self)),
            old(self).has_agreement(agreement_id) && proof_complete(
                old(self).agreement_model(agreement_id),
            ) ==> (r matches Err(e) && e == Error::AlreadyComplete && *final(self) == *old(self)),
            old(self).has_agreement(agreement_id) && !proof_complete(
                old(self).agreement_model(agreement_id),
            ) ==> {
                &&& r matches Ok(ag) && ag@ == agree_model(
                    caller@,
                    old(self).agreement_model(agreement_id),
                )
                &&& final(self).agreements@.len() == old(self).agreements@.len()
                &&& final(self).agreements@[old(self).agreement_index(agreement_id)]@
                    == agree_model(caller@, old(self).agreement_model(agreement_id))
                &&& forall|j: int|
                    0 <= j < old(self).agreements@.len() && j != old(self).agreement_index(
                        agreement_id,
                    ) ==> final(self).agreements@[j] == old(self).agreements@[j]
                &&& final(self).users@ == old(self).users@
                &&& final(self).next_agreement_id == old(self).next_agreement_id
                &&& final(self).next_user_id == old(self).next_user_id
            },
    {
        let n = self.agreements.len();
        for i in 0..n
            invariant
                *self == *old(self),
                n == self.agreements@.len(),
                forall|j: int| 0 <= j < i ==> (#[trigger] self.agreements@[j]).id != agreement_id,
        {
            if self.agreements[i].id == agreement_id {
                proof {
                    lemma_found_agreement_index(*self, agreement_id, i as int);
                }
                let is_complete = match &self.agreements[i].proof_of_agreement {
                    Some(slots) => slots.0.is_some() && slots.1.is_some(),
                    None => false,
                };
                if is_complete {
                    return Err(Error::AlreadyComplete);
                }
                let signed = _agree_to_agreement(caller, self.agreements[i].clone());
                let stored = signed.clone();
                self.agreements.set(i, stored);
                proof {
                    let ghost old_ags = old(self).agreements@;
                    assert(self.agreements@ =~= old_ags.update(i as int, stored));
                    assert(agreement_wf(stored@));
                    assert(stored.id == agreement_id);
                    assert forall|x: int| 0 <= x < self.agreements@.len() implies (
                    #[trigger] self.agreements@[x]).id == old_ags[x].id by {
                        if x != i {
                            assert(self.agreements@[x] == old_ags[x]);
                        }
                    }
                    assert forall|x: int| 0 <= x < self.agreements@.len() implies agreement_wf(
                        (#[trigger] self.agreements@[x])@,
                    ) && self.agreements@[x].id < self.next_agreement_id by {
                        if x != i {
                            assert(self.agreements@[x] == old_ags[x]);
                        }
                    }
                }
                return Ok(signed);
            }
        }
        Err(Error::NotFound)
    }

    /// Verify the stored proof of the agreement: reconstruct the canonical
    /// digest of the stored terms and check both signatures under their
    /// stored public keys. Fails as `NotFound` when no agreement has the id
    /// and as `IncompleteProof` when a slot is still empty.
    #[verifier::loop_isolation(false)]
    pub fn verify_signatures(&self, agreement_id: u64) -> (r: Result<bool, Error>)
        requires
            self.wf(),
        ensures
            !self.has_agreement(agreement_id) ==> (r matches Err(e) && e == Error::NotFound),
            self.has_agreement(agreement_id) && !proof_complete(
                self.agreement_model(agreement_id),
            ) ==> (r matches Err(e) && e == Error::IncompleteProof),
            self.has_agreement(agreement_id) && proof_complete(
                self.agreement_model(agreement_id),
            ) ==> (r matches Ok(b) && b == proof_valid(self.agreement_model(agreement_id))),
    {
        let n = self.agreements.len();
        for i in 0..n
            invariant
                n == self.agreements@.len(),
                forall|j: int| 0 <= j < i ==> (#[trigger] self.agreements@[j]).id != agreement_id,
        {
            if self.agreements[i].id == agreement_id {
                proof {
                    lemma_found_agreement_index(*self, agreement_id, i as int);
                }
                let ag = &self.agreements[i];
                match (&ag.proof_of_agreement, &ag.public_keys) {
                    (Some(slots), Some(keys)) => match (&slots.0, &slots.1, &keys.0, &keys.1) {
                        (Some(s0), Some(s1), Some(k0), Some(k1)) => {
                            let digest1 = canonical_digest(&ag.terms);
                            let digest2 = digest1.clone();
                            let first_valid = verify(digest1, &s0.value, k0);
                            let second_valid = verify(digest2, &s1.value, k1);
                            return Ok(first_valid && second_valid);
                        },
                        _ => {
                            return Err(Error::IncompleteProof);
                        },
                    },
                    _ => {
                        return Err(Error::IncompleteProof);
                    },
                }
            }
        }
        Err(Error::NotFound)
    }

    /// All stored agreements, in stored (id) order, that the stored user with
    /// this id takes part in. Fails as `NotFound` when no user has the id.
    #[verifier::loop_isolation(false)]
    pub fn get_my_agreements(&self, user: u64) -> (r: Result<Vec<Agreement>, Error>)
        requires
            self.wf(),
        ensures
            !self.has_user(user) ==> (r matches Err(e) && e == Error::NotFound),
            self.has_user(user) ==> (r matches Ok(v) && models_view(v@) == matching_agreements(
                self.agreements@,
                self.user_model(user).identity,
            )),
    {
        let un = self.users.len();
        for j in 0..un
            invariant
                un == self.users@.len(),
                forall|k: int| 0 <= k < j ==> (#[trigger] self.users@[k]).0 != user,
        {
            if self.users[j].0 == user {
                proof {
                    lemma_found_user_index(*self, user, j as int);
                }
                let mut myagreements: Vec<Agreement> = Vec::new();
                let n = self.agreements.len();
                for i in 0..n
                    invariant
                        n == self.agreements@.len(),
                        j < self.users@.len(),
                        models_view(myagreements@) =~= matching_agreements(
                            self.agreements@.take(i as int),
                            self.users@[j as int].1@.identity,
                        ),
                {
                    let ghost ident = self.users@[j as int].1@.identity;
                    if self.agreements[i].with_user.identity == self.users[j].1.identity
                        || self.agreements[i].by_user.identity == self.users[j].1.identity {
                        myagreements.push(self.agreements[i].clone());
                    }
                    proof {
                        assert(self.agreements@.take(i + 1).drop_last() =~= self.agreements@.take(
                            i as int,
                        ));
                        assert(self.agreements@.take(i + 1).last() == self.agreements@[i as int]);
                        assert(models_view(myagreements@) =~= matching_agreements(
                            self.agreements@.take(i + 1),
                            ident,
                        ));
                    }
                }
                proof {
                    assert(self.agreements@.take(self.agreements@.len() as int)
                        =~= self.agreements@);
                }
                return Ok(myagreements);
            }
        }
        Err(Error::NotFound)
    }

    /// The stored agreement with this id; `NotFound` when there is none.
    #[verifier::loop_isolation(false)]
    pub fn get_single_agreement(&self, agreement_id: u64) -> (r: Result<Agreement, Error>)
        requires
            self.wf(),
        ensures
            !self.has_agreement(agreement_id) ==> (r matches Err(e) && e == Error::NotFound),
            self.has_agreement(agreement_id) ==> (r matches Ok(ag) && ag@
                == self.agreement_model(agreement_id)),
    {
        let n = self.agreements.len();
        for i in 0..n
            invariant
                n == self.agreements@.len(),
                forall|j: int| 0 <= j < i ==> (#[trigger] self.agreements@[j]).id != agreement_id,
        {
            if self.agreements[i].id == agreement_id {
                proof {
                    lemma_found_agreement_index(*self, agreement_id, i as int);
                }
                return Ok(self.agreements[i].clone());
            }
        }
        Err(Error::NotFound)
    }
}

/// In a well-formed store agreement ids are unique, so a found position is
/// the one the lookup specs denote.
proof fn lemma_found_agreement_index(s: Store, id: u64, i: int)
    requires
        s.wf(),
        0 <= i < s.agreements@.len(),
        s.agreements@[i].id == id,
    ensures
        s.has_agreement(id),
        s.agreement_index(id) == i,
        s.agreement_model(id) == s.agreements@[i]@,
{
    assert(s.has_agreement(id));
    let k = s.agreement_index(id);
    if k < i {
        assert(s.agreements@[k].id < s.agreements@[i].id);
    } else if k > i {
        assert(s.agreements@[i].id < s.agreements@[k].id);
    }
}

/// In a well-formed store user ids are unique, so a found position is the
/// one the lookup specs denote.
proof fn lemma_found_user_index(s: Store, id: u64, j: int)
    requires
        s.wf(),
        0 <= j < s.users@.len(),
        s.users@[j].0 == id,
    ensures
        s.has_user(id),
        s.user_index(id) == j,
        s.user_model(id) == s.users@[j].1@,
{
    assert(s.has_user(id));
    let k = s.user_index(id);
    if k < j {
        assert(s.users@[k].0 < s.users@[j].0);
    } else if k > j {
        assert(s.users@[j].0 < s.users@[k].0);
    }
}

/// Correctness of the whole protocol run: an agreement signed automatically
/// at creation and then co-signed by a second party carries a complete and
/// valid proof. The two hypotheses hold of every digest the hash primitive
/// actually produces.
pub proof fn lemma_co_signed_agreement_verifies(second: Seq<char>, base: AgreementModel)
    requires
        canonical_digest_spec(base.terms).len() == 64,
        is_hex_seq(canonical_digest_spec(base.terms)),
    ensures
        proof_complete(agree_model(second, automatic_model(base))),
        proof_valid(agree_model(second, automatic_model(base))),
{
    let first = automatic_model(base);
    lemma_protocol_signature_verifies(base.by_user.identity, base);
    lemma_protocol_signature_verifies(second, first);
}

/// Slot monotonicity: agreeing to a well-formed, incomplete agreement keeps
/// the first slot's signature and public key unchanged, fills the second
/// slot of each pair, and leaves every other field as it was.
pub proof fn lemma_slot_monotonic(identity: Seq<char>, ag: AgreementModel)
    requires
        agreement_wf(ag),
        !proof_complete(ag),
    ensures
        ({
            let new = agree_model(identity, ag);
            match (ag.proof_of_agreement, ag.public_keys, new.proof_of_agreement, new.public_keys) {
                (Some(slots), Some(keys), Some(new_slots), Some(new_keys)) => {
                    &&& new_slots.0 == slots.0
                    &&& new_keys.0 == keys.0
                    &&& new_slots.1 is Some
                    &&& new_keys.1 is Some
                },
                _ => false,
            }
        }),
        proof_complete(agree_model(identity, ag)),
        agreement_wf(agree_model(identity, ag)),
        agree_model(identity, ag).terms == ag.terms,
        agree_model(identity, ag).by_user == ag.by_user,
        agree_model(identity, ag).with_user == ag.with_user,
        agree_model(identity, ag).date == ag.date,
        agree_model(identity, ag).id == ag.id,
{
}

/// Build a fresh agreement for the initiating party and sign it at once with
/// the initiator's automatic signature.
pub fn _create_new_agreement(terms: Vec<String>, with_user: String, id: u64, date: String) -> (r:
    Agreement)
    ensures
        r@ == initiate_model(strings_view(terms@), with_user@, date@, id),
{
    let creator = <String as ToUser>::principal_to_user("aMSCHEL".to_owned());
    let agreement = creator.clone().new_agreement(
        terms,
        date,
        <String as ToUser>::principal_to_user(with_user),
        id,
    );
    creator.automatic_agreement(agreement)
}

/// Sign an existing agreement as the given identity.
pub fn _agree_to_agreement(user: String, agreement: Agreement) -> (r: Agreement)
    ensures
        r@ == agree_model(user@, agreement@),
{
    let agreeing_party = <String as ToUser>::principal_to_user(user);
    agreeing_party.agree(agreement)
}

/// Liveness probe of the service.
pub fn check_status() -> (r: String)
    ensures
        r@ == "We are live"@,
{
    "We are live".to_owned()
}

} // verus!
