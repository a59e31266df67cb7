//! Random bearer credentials: session tokens and invite codes.
//!
//! Both are drawn from the alphanumeric alphabet.  A session token is long
//! enough to act as an unguessable bearer capability; an invite code is
//! shorter, being single-use and short-lived.

use crate::text::is_alnum_char;
use rand::Rng;
use vstd::prelude::*;

verus! {

/// Length of a session token, in characters.
pub const SESSION_TOKEN_LEN: usize = 64;

/// Length of an invite code, in characters.
pub const INVITE_CODE_LEN: usize = 16;

/// Relies on `rand::rng` and the `Alphanumeric` distribution: every sample
/// is one of the 62 ASCII letters and digits.  The samples are random, so
/// nothing beyond the length and the alphabet is promised.
#[verifier::external_body]
fn random_alphanumeric(len: usize) -> (r: String)
    ensures
        r@.len() == len as int,
        forall|i: int| 0 <= i < r@.len() ==> is_alnum_char(#[trigger] r@[i]),
{
    rand::rng().sample_iter(&rand::distr::Alphanumeric).take(len).map(char::from).collect()
}

/// A fresh session token: high-entropy, fixed length, alphanumeric.
pub fn generate_session_token() -> (r: String)
    ensures
        r@.len() == SESSION_TOKEN_LEN as int,
        forall|i: int| 0 <= i < r@.len() ==> is_alnum_char(#[trigger] r@[i]),
{
    random_alphanumeric(SESSION_TOKEN_LEN)
}

/// A fresh invite code: the out-of-band credential shared with an invitee.
pub fn generate_invite_code() -> (r: String)
    ensures
        r@.len() == INVITE_CODE_LEN as int,
        forall|i: int| 0 <= i < r@.len() ==> is_alnum_char(#[trigger] r@[i]),
{
    random_alphanumeric(INVITE_CODE_LEN)
}

} // verus!
