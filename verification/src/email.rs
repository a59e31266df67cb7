//! Validated email addresses.
//!
//! An account's email must be a syntactically valid address.  Validity is
//! decided by the `email_address` crate; the library wraps the accepted
//! string in a type whose invariant records that it passed, so every flow
//! that takes an `EmailAddress` may assume a validated payload.

use vstd::prelude::*;

verus! {

/// Whether the outside validator accepts `s` as an email address.  This is
/// a function of the string alone.
pub uninterp spec fn email_ok(s: Seq<char>) -> bool;

/// Relies on `email_address::EmailAddress::is_valid`: parsing an address is
/// a function of the string alone.
#[verifier::external_body]
fn is_valid_email(s: &str) -> (r: bool)
    ensures
        r == email_ok(s@),
{
    email_address::EmailAddress::is_valid(s)
}

/// A syntactically valid email address, as the validator accepted it
/// (canonicalization to lower case happens where an address is stored or
/// looked up, not here).
pub struct EmailAddress {
    addr: String,
}

impl View for EmailAddress {
    type V = Seq<char>;

    closed spec fn view(&self) -> Seq<char> {
        self.addr@
    }
}

impl EmailAddress {
    #[verifier::type_invariant]
    spec fn type_inv(self) -> bool {
        email_ok(self.addr@)
    }

    /// Accepts exactly the strings the validator accepts.
    pub fn new(addr: String) -> (r: Option<EmailAddress>)
        ensures
            (match r {
                Some(e) => e@ == addr@ && email_ok(addr@),
                None => !email_ok(addr@),
            }),
    {
        if is_valid_email(addr.as_str()) {
            Some(EmailAddress { addr })
        } else {
            None
        }
    }

    /// The address as entered.  Every value of this type holds an address
    /// the validator accepted.
    pub fn as_str(&self) -> (r: &str)
        ensures
            r@ == self@,
            email_ok(self@),
    {
        proof {
            use_type_invariant(self);
        }
        self.addr.as_str()
    }
}

} // verus!
