//! Credential hashing, through the `argon2` crate.
//!
//! A password is stored as a self-describing PHC hash string that encodes the
//! algorithm, its cost parameters, a fresh random salt, and the digest.
//! Hashing draws a random salt, so two hashes of one password differ; what
//! verification reports, however, is a function of the password and the hash
//! string alone.  The library names that function (`password_matches`) and
//! states every contract over the name.

use vstd::prelude::*;

verus! {

/// Whether argon2 verification of `password` against the PHC string `hash`
/// reports a match.  This is a function of the two strings alone: the hash
/// string itself carries the algorithm, parameters and salt that the digest
/// is recomputed with.
pub uninterp spec fn password_matches(password: Seq<char>, hash: Seq<char>) -> bool;

/// Whether `hash` is a well-formed stored hash: it parses as a PHC string
/// and argon2 can verify a password against it, reporting a definite match
/// or mismatch rather than a malformed-hash error.
pub uninterp spec fn hash_wf(hash: Seq<char>) -> bool;

/// What one verification attempt reported.  A malformed stored hash is kept
/// distinct from a wrong password: callers must not present the one as the
/// other.
#[derive(Clone, Copy, Debug, PartialEq, Eq, Structural)]
pub enum VerifyOutcome {
    Match,
    Mismatch,
    BadHash,
}

/// Relies on `rand::Rng::fill` for the fresh salt bytes, and on
/// `SaltString::encode_b64`, `Argon2::hash_password` (the `PasswordHasher`
/// impl) and `PasswordHash::to_string`: hashing with a fresh random salt
/// yields a PHC string that argon2 verifies against the same password.  The
/// salt is random, so nothing beyond that is promised of the string.
#[verifier::external_body]
pub(crate) fn hash_password(password: &str) -> (r: Option<String>)
    ensures
        (match r {
            Some(h) => hash_wf(h@) && password_matches(password@, h@),
            None => true,
        }),
{
    let mut salt_bytes = [0u8; 16];
    rand::Rng::fill(&mut rand::rng(), &mut salt_bytes);
    let salt = match argon2::password_hash::SaltString::encode_b64(&salt_bytes) {
        Ok(s) => s,
        Err(_) => return None,
    };
    match argon2::PasswordHasher::hash_password(
        &argon2::Argon2::default(),
        password.as_bytes(),
        &salt,
    ) {
        Ok(h) => Some(h.to_string()),
        Err(_) => None,
    }
}

/// Relies on `PasswordHash::new` and `Argon2::verify_password` (the
/// `PasswordVerifier` impl): parsing depends on the hash string alone, and
/// verification of a parsed hash recomputes the digest from the password
/// and the hash's own parameters and salt, returning `Error::Password`
/// exactly when the recomputed digest differs from the stored one.
#[verifier::external_body]
pub(crate) fn verify_password(password: &str, hash: &str) -> (r: VerifyOutcome)
    ensures
        (r is Match) == (hash_wf(hash@) && password_matches(password@, hash@)),
        (r is BadHash) == !hash_wf(hash@),
{
    let parsed = match argon2::PasswordHash::new(hash) {
        Ok(p) => p,
        Err(_) => return VerifyOutcome::BadHash,
    };
    match argon2::PasswordVerifier::verify_password(
        &argon2::Argon2::default(),
        password.as_bytes(),
        &parsed,
    ) {
        Ok(()) => VerifyOutcome::Match,
        Err(argon2::password_hash::Error::Password) => VerifyOutcome::Mismatch,
        Err(_) => VerifyOutcome::BadHash,
    }
}

} // verus!
