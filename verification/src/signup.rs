//! Signup: atomically consuming an invite and provisioning an account.
//!
//! Redemption is the conditional update of the invite's expiry: it is set
//! to "now" only while it still lies in the future, so of two racing
//! attempts at most one can succeed, and a consumed invite reads as
//! expired ever after.  Consumption and account creation happen together
//! or not at all: a duplicate email rolls the consumption back and leaves
//! the invite redeemable.

use crate::email::EmailAddress;
use crate::password::{hash_password, hash_wf, password_matches};
use crate::store::{
    has_account_email, has_account_id, has_invite_code, invite_by_code, invite_code_idx,
    lemma_invite_by_code, AccountView, Account, AuthDb, DbView, Invite, InviteView,
};
use crate::text::{ascii_lowercase, to_lower};
use vstd::prelude::*;

verus! {

/// Why a signup failed.
#[derive(Clone, Copy, Debug, PartialEq, Eq, Structural)]
pub enum Error {
    /// The invite exists but was already consumed or has expired.
    ExpiredInvite,
    /// No invite carries this code: "never existed", kept distinct from
    /// "existed but used up".
    InviteNotFound,
    /// An account with this email already exists; the invite is untouched.
    Conflict,
    /// The password could not be hashed; nothing was changed.
    PasswordHash,
}

/// What a signup attempt yields, hashing aside: the exact error, or
/// success when the invite is redeemable and the email is free.
pub open spec fn signup_outcome(
    db: DbView,
    email: Seq<char>,
    code: Seq<char>,
    now: u64,
) -> Result<(), Error> {
    if !has_invite_code(db.invites, code) {
        Err(Error::InviteNotFound)
    } else if invite_by_code(db.invites, code).expires_at <= now {
        Err(Error::ExpiredInvite)
    } else if has_account_email(db.accounts, to_lower(email)) {
        Err(Error::Conflict)
    } else {
        Ok(())
    }
}

/// The invite table after redemption of `code` at `now`: the one row's
/// expiry is moved to `now`, so it reads as consumed from then on.
pub open spec fn consume_invite(
    invites: Seq<InviteView>,
    code: Seq<char>,
    now: u64,
) -> Seq<InviteView> {
    let k = invite_code_idx(invites, code);
    invites.update(k, InviteView { expires_at: now, ..invites[k] })
}

/// The store after a successful signup with stored hash `hash`: the
/// invite consumed, the account created with the invite's role, both in
/// one step.
pub open spec fn signup_next(
    db: DbView,
    email: Seq<char>,
    hash: Seq<char>,
    code: Seq<char>,
    now: u64,
) -> DbView {
    if signup_outcome(db, email, code, now) is Ok {
        DbView {
            invites: consume_invite(db.invites, code, now),
            accounts: db.accounts.push(
                AccountView {
                    id: db.next_account_id,
                    email: to_lower(email),
                    password_hash: hash,
                    role: invite_by_code(db.invites, code).role,
                },
            ),
            next_account_id: (db.next_account_id + 1) as u64,
            ..db
        }
    } else {
        db
    }
}

impl AuthDb {
    /// The signup step below password hashing: consumes the invite and
    /// creates the account with the given stored hash, atomically.  Exact
    /// in all its cases; `signup` supplies the hash.
    pub fn signup_with_hash(
        &mut self,
        email: &EmailAddress,
        password_hash: String,
        code: &str,
        now: u64,
    ) -> (r: Result<(), Error>)
        requires
            old(self)@.wf(),
            old(self)@.next_account_id < u64::MAX,
        ensures
            final(self)@ == signup_next(old(self)@, email@, password_hash@, code@, now),
            final(self)@.wf(),
            (match r {
                Ok(()) => signup_outcome(old(self)@, email@, code@, now) is Ok,
                Err(e) => signup_outcome(old(self)@, email@, code@, now) == Err::<(), Error>(e),
            }),
    {
        match self.find_invite_by_code(code) {
            None => Err(Error::InviteNotFound),
            Some(k) => {
                proof {
                    lemma_invite_by_code(self@.invites, k as int);
                }
                if self.invites[k].expires_at <= now {
                    Err(Error::ExpiredInvite)
                } else {
                    let canon = ascii_lowercase(email.as_str());
                    match self.find_account_by_email(canon.as_str()) {
                        Some(_) => Err(Error::Conflict),
                        None => {
                            let ghost db0 = self@;
                            let role = self.invites[k].role;
                            let id = self.next_account_id;
                            let spent = Invite {
                                id: self.invites[k].id,
                                role,
                                code: self.invites[k].code.clone(),
                                expires_at: now,
                            };
                            self.invites[k] = spent;
                            self.accounts.push(
                                Account { id, email: canon, password_hash, role },
                            );
                            self.next_account_id = id + 1;
                            proof {
                                assert(self@.invites =~= consume_invite(db0.invites, code@, now));
                                assert(self@.accounts =~= db0.accounts.push(
                                    AccountView {
                                        id,
                                        email: to_lower(email@),
                                        password_hash: password_hash@,
                                        role: invite_by_code(db0.invites, code@).role,
                                    },
                                ));
                                assert(self@ == signup_next(
                                    db0,
                                    email@,
                                    password_hash@,
                                    code@,
                                    now,
                                ));
                                assert forall|a: int, b: int|
                                    0 <= a < b < self@.accounts.len() implies (
                                #[trigger] self@.accounts[a]).email != (
                                #[trigger] self@.accounts[b]).email by {
                                    if b == self@.accounts.len() - 1 {
                                        assert(!has_account_email(db0.accounts, to_lower(email@)));
                                        assert(db0.accounts[a].email != to_lower(email@));
                                    }
                                }
                                assert forall|a: int, b: int|
                                    0 <= a < b < self@.accounts.len() implies (
                                #[trigger] self@.accounts[a]).id != (
                                #[trigger] self@.accounts[b]).id by {
                                    if b == self@.accounts.len() - 1 {
                                        assert(db0.accounts[a].id < id);
                                    }
                                }
                                assert forall|a: int|
                                    0 <= a < self@.sessions.len() implies has_account_id(
                                    self@.accounts,
                                    (#[trigger] self@.sessions[a]).account_id,
                                ) by {
                                    assert(has_account_id(db0.accounts, db0.sessions[a].account_id));
                                    let w = choose|w: int|
                                        0 <= w < db0.accounts.len() && (#[trigger] db0.accounts[w]).id
                                            == db0.sessions[a].account_id;
                                    assert(self@.accounts[w].id == db0.sessions[a].account_id);
                                }
                                assert forall|a: int, b: int|
                                    0 <= a < b < self@.invites.len() implies (
                                #[trigger] self@.invites[a]).code != (
                                #[trigger] self@.invites[b]).code by {
                                    assert(db0.invites[a].code != db0.invites[b].code);
                                }
                                assert forall|a: int, b: int|
                                    0 <= a < b < self@.invites.len() implies (
                                #[trigger] self@.invites[a]).id != (
                                #[trigger] self@.invites[b]).id by {
                                    assert(db0.invites[a].id != db0.invites[b].id);
                                }
                            }
                            Ok(())
                        },
                    }
                }
            },
        }
    }

    /// Signup: hashes the password, then atomically consumes the invite
    /// and creates the account with the invite's role.  No session is
    /// issued; the caller signs in afterwards.  Every error leaves the
    /// store exactly as it was.
    pub fn signup(&mut self, email: &EmailAddress, password: &str, code: &str, now: u64) -> (r:
        Result<(), Error>)
        requires
            old(self)@.wf(),
            old(self)@.next_account_id < u64::MAX,
        ensures
            final(self)@.wf(),
            (match r {
                Ok(()) => {
                    &&& signup_outcome(old(self)@, email@, code@, now) is Ok
                    &&& exists|h: Seq<char>|
                        {
                            &&& hash_wf(h)
                            &&& password_matches(password@, h)
                            &&& final(self)@ == #[trigger] signup_next(
                                old(self)@,
                                email@,
                                h,
                                code@,
                                now,
                            )
                        }
                },
                Err(e) => {
                    &&& final(self)@ == old(self)@
                    &&& (match signup_outcome(old(self)@, email@, code@, now) {
                        // Hashing happens before the email is checked, so a
                        // hashing failure may preempt the conflict report.
                        Err(oe) => e == oe || (e == Error::PasswordHash && oe == Error::Conflict),
                        Ok(()) => e == Error::PasswordHash,
                    })
                },
            }),
    {
        // The invite is examined before the password is hashed, so a bad
        // invite is reported even when hashing would fail.
        match self.find_invite_by_code(code) {
            None => Err(Error::InviteNotFound),
            Some(k) => {
                proof {
                    lemma_invite_by_code(self@.invites, k as int);
                }
                if self.invites[k].expires_at <= now {
                    Err(Error::ExpiredInvite)
                } else {
                    match hash_password(password) {
                        None => Err(Error::PasswordHash),
                        Some(h) => {
                            let ghost hv = h@;
                            let r = self.signup_with_hash(email, h, code, now);
                            proof {
                                if r is Ok {
                                    assert(hash_wf(hv) && password_matches(password@, hv));
                                    assert(self@ == signup_next(old(self)@, email@, hv, code@, now));
                                    assert(exists|h: Seq<char>|
                                        {
                                            &&& hash_wf(h)
                                            &&& password_matches(password@, h)
                                            &&& self@ == #[trigger] signup_next(
                                                old(self)@,
                                                email@,
                                                h,
                                                code@,
                                                now,
                                            )
                                        });
                                }
                            }
                            r
                        },
                    }
                }
            },
        }
    }
}

impl Error {
    /// The HTTP status class this error maps to at the boundary.
    pub open spec fn spec_status(self) -> u16 {
        match self {
            Error::ExpiredInvite => 410,
            Error::InviteNotFound => 404,
            Error::Conflict => 409,
            Error::PasswordHash => 500,
        }
    }

    /// The stable machine-readable code of this error, as the boundary
    /// reports it beside the message.
    pub open spec fn spec_code(self) -> Seq<char> {
        match self {
            Error::ExpiredInvite => "SIGNUP_EXPIRED_INVITE"@,
            Error::InviteNotFound => "SIGNUP_INVITE_NOT_FOUND"@,
            Error::Conflict => "SIGNUP_CONFLICT"@,
            Error::PasswordHash => "SIGNUP_PASSWORD_HASH"@,
        }
    }

    /// The human-readable message of this error.
    pub open spec fn spec_message(self) -> Seq<char> {
        match self {
            Error::ExpiredInvite => "Invalid invite"@,
            Error::InviteNotFound => "Invite not found"@,
            Error::Conflict => "Account already exists"@,
            Error::PasswordHash => "Could not hash password"@,
        }
    }

    /// The HTTP status class this error maps to at the boundary.
    pub fn status(&self) -> (r: u16)
        ensures
            r == self.spec_status(),
    {
        match self {
            Error::ExpiredInvite => 410,
            Error::InviteNotFound => 404,
            Error::Conflict => 409,
            Error::PasswordHash => 500,
        }
    }

    /// The stable machine-readable code of this error.
    pub fn code(&self) -> (r: &'static str)
        ensures
            r@ == self.spec_code(),
    {
        match self {
            Error::ExpiredInvite => "SIGNUP_EXPIRED_INVITE",
            Error::InviteNotFound => "SIGNUP_INVITE_NOT_FOUND",
            Error::Conflict => "SIGNUP_CONFLICT",
            Error::PasswordHash => "SIGNUP_PASSWORD_HASH",
        }
    }

    /// The human-readable message of this error.
    pub fn message(&self) -> (r: &'static str)
        ensures
            r@ == self.spec_message(),
    {
        match self {
            Error::ExpiredInvite => "Invalid invite",
            Error::InviteNotFound => "Invite not found",
            Error::Conflict => "Account already exists",
            Error::PasswordHash => "Could not hash password",
        }
    }
}

} // verus!
