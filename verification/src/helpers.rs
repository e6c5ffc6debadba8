//! Conversion of a caller identity into a registered party.

use vstd::prelude::*;

use crate::user::User;

verus! {

/// Anything that can turn an identity name into a fresh `User`.
pub trait ToUser {
    fn principal_to_user(name: String) -> (u: User)
        ensures
            u@.identity == name@,
            u@.agreements == Seq::<u64>::empty(),
    ;
}

impl ToUser for String {
    fn principal_to_user(name: String) -> (u: User) {
        User { identity: name, agreements: Vec::new() }
    }
}

} // verus!
