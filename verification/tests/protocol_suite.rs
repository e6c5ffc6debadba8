use pok_backend::agreement::canonical_digest;
use pok_backend::helpers::ToUser;
use pok_backend::lamport::hash;
use pok_backend::{_agree_to_agreement, _create_new_agreement, check_status, Error, Store};

fn ten_commandments() -> Vec<String> {
    vec![
        "I am the Lord thy God".to_string(),
        "Thou shalt have no other gods before me".to_string(),
        "Thou shalt not make unto thee any graven image".to_string(),
        "Thou shalt not take the name of the Lord thy God in vain".to_string(),
        "Remember the sabbath day, to keep it holy".to_string(),
        "Honour thy father and thy mother".to_string(),
        "Thou shalt not kill".to_string(),
        "Thou shalt not commit adultery".to_string(),
        "Thou shalt not steal".to_string(),
        "Thou shalt not bear false witness against thy neighbour".to_string(),
        "Thou shalt not covet thy neighbour's house".to_string(),
        "Thou shalt not covet thy neighbour's wife, nor his manservant, nor his maidservant, nor his ox, nor his ass, nor any thing that is thy neighbour's".to_string(),
    ]
}

#[test]
fn agreement_btwn_god_and_man() {
    let agreement = _create_new_agreement(
        ten_commandments(),
        String::from("God"),
        1,
        String::from("2024-01-01"),
    );
    let amschel_agrees = _agree_to_agreement(String::from("God"), agreement);
    let _first_signature = amschel_agrees.proof_of_agreement.unwrap().0.unwrap().value;
}

#[test]
fn _agree_to_agreement_works() {}

#[test]
fn happy_path_initiate_co_sign_verify() {
    let mut store = Store::new();
    let terms = vec![String::from("hello"), String::from("world")];
    let agreement = store
        .initiate_agreement(
            terms.clone(),
            String::from("bob"),
            String::from("2024-01-01"),
        )
        .unwrap();
    assert_eq!(agreement.id, 0);
    assert!(agreement.proof_of_agreement.as_ref().unwrap().0.is_some());
    assert!(agreement.proof_of_agreement.as_ref().unwrap().1.is_none());

    // the canonical message is the byte concatenation of the terms
    assert_eq!(canonical_digest(&terms), hash("helloworld"));

    let co_signed = store.agree_to(0, String::from("bob")).unwrap();
    assert!(co_signed.proof_of_agreement.as_ref().unwrap().0.is_some());
    assert!(co_signed.proof_of_agreement.as_ref().unwrap().1.is_some());

    assert_eq!(store.verify_signatures(0), Ok(true));
}

#[test]
fn slot_monotonicity_across_co_sign() {
    let mut store = Store::new();
    let terms = vec![String::from("hello"), String::from("world")];
    let initial = store
        .initiate_agreement(terms, String::from("bob"), String::from("2024-01-01"))
        .unwrap();
    let first_sig_before = initial.proof_of_agreement.as_ref().unwrap().0.clone().unwrap();
    let first_key_before = initial.public_keys.as_ref().unwrap().0.clone().unwrap();

    let co_signed = store.agree_to(0, String::from("bob")).unwrap();
    let first_sig_after = co_signed.proof_of_agreement.as_ref().unwrap().0.clone().unwrap();
    let first_key_after = co_signed.public_keys.as_ref().unwrap().0.clone().unwrap();

    for i in 0..256 {
        assert_eq!(first_sig_before.value.get_key(i), first_sig_after.value.get_key(i));
        assert_eq!(first_key_before.get_key(i), first_key_after.get_key(i));
    }
    assert!(co_signed.proof_of_agreement.as_ref().unwrap().1.is_some());
    assert!(co_signed.public_keys.as_ref().unwrap().1.is_some());
}

#[test]
fn tampered_terms_invalidate_the_proof() {
    let mut store = Store::new();
    let terms = vec![String::from("hello"), String::from("world")];
    store
        .initiate_agreement(terms, String::from("bob"), String::from("2024-01-01"))
        .unwrap();
    store.agree_to(0, String::from("bob")).unwrap();
    assert_eq!(store.verify_signatures(0), Ok(true));

    // Mutating the stored terms is illegal in production; simulate it here.
    let mut tampered = store.get_single_agreement(0).unwrap();
    tampered.terms[1] = String::from("worlD");
    let tampered_store = Store {
        agreements: vec![tampered],
        users: Vec::new(),
        next_agreement_id: 1,
        next_user_id: 0,
    };
    assert_eq!(tampered_store.verify_signatures(0), Ok(false));
}

#[test]
fn reordered_terms_change_the_digest_and_invalidate() {
    let forward = vec![String::from("hello"), String::from("world")];
    let backward = vec![String::from("world"), String::from("hello")];
    assert_ne!(canonical_digest(&forward), canonical_digest(&backward));

    let mut store = Store::new();
    store
        .initiate_agreement(forward, String::from("bob"), String::from("2024-01-01"))
        .unwrap();
    store.agree_to(0, String::from("bob")).unwrap();

    let mut reordered = store.get_single_agreement(0).unwrap();
    reordered.terms.swap(0, 1);
    let reordered_store = Store {
        agreements: vec![reordered],
        users: Vec::new(),
        next_agreement_id: 1,
        next_user_id: 0,
    };
    assert_eq!(reordered_store.verify_signatures(0), Ok(false));
}

#[test]
fn cross_agreement_forgery_fails() {
    let mut store = Store::new();
    store
        .initiate_agreement(
            vec![String::from("first"), String::from("contract")],
            String::from("bob"),
            String::from("2024-01-01"),
        )
        .unwrap();
    store.agree_to(0, String::from("bob")).unwrap();
    store
        .initiate_agreement(
            vec![String::from("second"), String::from("contract")],
            String::from("bob"),
            String::from("2024-01-02"),
        )
        .unwrap();
    store.agree_to(1, String::from("bob")).unwrap();
    assert_eq!(store.verify_signatures(0), Ok(true));
    assert_eq!(store.verify_signatures(1), Ok(true));

    // Mount the first agreement's initiator signature on the second one.
    let donor = store.get_single_agreement(0).unwrap();
    let mut target = store.get_single_agreement(1).unwrap();
    let donor_slots = donor.proof_of_agreement.unwrap();
    let target_slots = target.proof_of_agreement.unwrap();
    target.proof_of_agreement = Some((donor_slots.0, target_slots.1));
    let forged_store = Store {
        agreements: vec![target],
        users: Vec::new(),
        next_agreement_id: 2,
        next_user_id: 0,
    };
    assert_eq!(forged_store.verify_signatures(1), Ok(false));
}

#[test]
fn incomplete_proof_is_reported_not_false() {
    let mut store = Store::new();
    store
        .initiate_agreement(
            vec![String::from("hello")],
            String::from("bob"),
            String::from("2024-01-01"),
        )
        .unwrap();
    assert_eq!(store.verify_signatures(0), Err(Error::IncompleteProof));
}

#[test]
fn missing_records_are_not_found() {
    let mut store = Store::new();
    assert_eq!(store.verify_signatures(5), Err(Error::NotFound));
    assert!(matches!(store.get_single_agreement(5), Err(Error::NotFound)));
    assert!(matches!(
        store.agree_to(5, String::from("bob")),
        Err(Error::NotFound)
    ));
    assert!(matches!(store.get_my_agreements(5), Err(Error::NotFound)));
}

#[test]
fn co_signing_a_complete_proof_is_refused() {
    let mut store = Store::new();
    store
        .initiate_agreement(
            vec![String::from("hello")],
            String::from("bob"),
            String::from("2024-01-01"),
        )
        .unwrap();
    store.agree_to(0, String::from("bob")).unwrap();
    assert!(matches!(
        store.agree_to(0, String::from("carol")),
        Err(Error::AlreadyComplete)
    ));
    // the stored proof is unchanged and still verifies
    assert_eq!(store.verify_signatures(0), Ok(true));
}

#[test]
fn empty_terms_are_rejected() {
    let mut store = Store::new();
    assert!(matches!(
        store.initiate_agreement(Vec::new(), String::from("bob"), String::from("2024-01-01")),
        Err(Error::InvalidInput)
    ));
    assert!(matches!(
        store.initiate_agreement(
            vec![String::from("hello"), String::new()],
            String::from("bob"),
            String::from("2024-01-01")
        ),
        Err(Error::InvalidInput)
    ));
    // the canonical message of an empty terms list is the empty byte string
    assert_eq!(canonical_digest(&Vec::new()), hash(""));
}

#[test]
fn id_counter_overflow_is_fatal() {
    let mut store = Store::with_next_ids(u64::MAX, u64::MAX);
    assert!(matches!(
        store.initiate_agreement(
            vec![String::from("hello")],
            String::from("bob"),
            String::from("2024-01-01")
        ),
        Err(Error::Fatal)
    ));
    assert!(matches!(
        store.signup_user(String::from("alice")),
        Err(Error::Fatal)
    ));
}

#[test]
fn signup_and_listing_agreements() {
    let mut store = Store::new();
    assert_eq!(
        store.signup_user(String::from("God")),
        Ok(String::from("User God created"))
    );
    assert_eq!(
        store.signup_user(String::from("nobody")),
        Ok(String::from("User nobody created"))
    );
    store
        .initiate_agreement(
            vec![String::from("hello")],
            String::from("God"),
            String::from("2024-01-01"),
        )
        .unwrap();
    let gods_agreements = store.get_my_agreements(0).unwrap();
    assert_eq!(gods_agreements.len(), 1);
    assert_eq!(gods_agreements[0].id, 0);
    assert_eq!(gods_agreements[0].with_user.identity, "God");
    let nobodys_agreements = store.get_my_agreements(1).unwrap();
    assert_eq!(nobodys_agreements.len(), 0);
}

#[test]
fn check_status_is_live() {
    assert_eq!(check_status(), "We are live");
}

#[test]
fn principal_to_user_builds_a_fresh_user() {
    let user = <String as ToUser>::principal_to_user(String::from("alice"));
    assert_eq!(user.identity, "alice");
    assert_eq!(user.agreements.len(), 0);
}
