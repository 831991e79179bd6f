//! Authentication: checking login credentials against stored users.
//!
//! Password hashing and verification are done by an outside library;
//! the decision of who a credential pair authenticates as is verified
//! here against its result.

use vstd::prelude::*;

use crate::store::Store;
use crate::types::Credentials;
use crate::types::User;
use crate::types::user_eq;

verus! {

/// What the password verifier decides for a password and a stored hash
/// string: it recomputes the hash under the salt and parameters encoded
/// in the string, so the result depends on the two arguments alone.
pub uninterp spec fn password_verifies(password: Seq<char>, hash: Seq<char>) -> bool;

/// Relies on password_auth::verify_password: returns Ok exactly when
/// the stored string parses as a password hash and the password matches
/// it, a function of the two arguments alone.
#[verifier::external_body]
fn check_password(password: &str, hash: &str) -> (r: bool)
    ensures
        r == password_verifies(password@, hash@),
{
    password_auth::verify_password(password, hash).is_ok()
}

/// Relies on password_auth::generate_hash: hashes the password under a
/// fresh random salt into a self-describing hash string, which
/// password_auth::verify_password accepts for the same password.
#[verifier::external_body]
pub fn hash_password(password: &str) -> (r: String)
    requires
        vstd::utf8::encode_utf8(password@).len() < 0x100000,
    ensures
        password_verifies(password@, r@),
{
    password_auth::generate_hash(password)
}

/// Authenticates a credential pair: the user whose name matches, if the
/// password verifies against that user's stored hash.  Verification is
/// dispatched to a blocking worker by the outer program; it is a pure
/// computation, so the decision is unchanged.
pub fn authenticate(store: &Store, creds: &Credentials) -> (r: Option<User>)
    requires
        store.wf(),
    ensures
        r is Some <==> exists|i: int|
            0 <= i < store.users().len() && #[trigger] store.users()[i].username@
                == creds.username@ && password_verifies(
                creds.password@,
                store.users()[i].password_hash@,
            ),
        r matches Some(u) ==> u.username@ == creds.username@ && password_verifies(
            creds.password@,
            u.password_hash@,
        ) && exists|i: int|
            0 <= i < store.users().len() && #[trigger] user_eq(u, store.users()[i]),
{
    let user = match store.get_user_by_username(&creds.username) {
        Some(u) => u,
        None => {
            return None;
        },
    };
    let ok = check_password(creds.password.as_str(), user.password_hash.as_str());
    if ok {
        proof {
            let i = choose|i: int|
                0 <= i < store.users().len() && #[trigger] store.users()[i].username@
                    == creds.username@ && user_eq(user, store.users()[i]);
            assert(password_verifies(creds.password@, store.users()[i].password_hash@));
        }
        Some(user)
    } else {
        proof {
            let i = choose|i: int|
                0 <= i < store.users().len() && #[trigger] store.users()[i].username@
                    == creds.username@ && user_eq(user, store.users()[i]);
            assert forall|j: int|
                0 <= j < store.users().len() && #[trigger] store.users()[j].username@
                    == creds.username@ implies !password_verifies(
                creds.password@,
                store.users()[j].password_hash@,
            ) by {
                assert(j == i);
                assert(store.users()[j].password_hash@ == user.password_hash@);
            };
        }
        None
    }
}

} // verus!
