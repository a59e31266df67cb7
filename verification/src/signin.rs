//! Signin: exchanging credentials for a fresh session token.
//!
//! The account is looked up by the canonical form of the email; the
//! password is verified against the stored hash; on success a fresh random
//! token is drawn and a session row with a fixed time-to-live is inserted.
//! An unknown account and a wrong password are reported distinctly -- a
//! deliberate trade-off of this design, not an oversight.

use crate::email::EmailAddress;
use crate::password::{hash_wf, password_matches, verify_password, VerifyOutcome};
use crate::store::{
    account_by_email, has_account_email, has_account_id, has_session_token,
    lemma_account_by_email, AccountView, AuthDb, DbView, Session, SessionView,
    SESSION_TOKEN_MAX_AGE_SECS,
};
use crate::text::{ascii_lowercase, is_alnum_char, to_lower};
use crate::token::{generate_session_token, SESSION_TOKEN_LEN};
use vstd::prelude::*;

verus! {

/// Why a signin failed.
#[derive(Clone, Copy, Debug, PartialEq, Eq, Structural)]
pub enum Error {
    /// The account exists but the password does not match its hash.
    IncorrectPassword,
    /// No account holds this email.
    AccountNotFound,
    /// The stored hash could not be used: hash storage is corrupted, which
    /// is not the caller's fault and must not be presented as one.
    PasswordHash,
    /// The store refused the new session row (the drawn token was already
    /// taken -- the unique-constraint violation of the session table).
    Database,
}

/// What checking the credentials alone yields: the account on success, the
/// exact error otherwise.
pub open spec fn signin_creds(db: DbView, email: Seq<char>, password: Seq<char>) -> Result<
    AccountView,
    Error,
> {
    let canon = to_lower(email);
    if !has_account_email(db.accounts, canon) {
        Err(Error::AccountNotFound)
    } else {
        let a = account_by_email(db.accounts, canon);
        if !hash_wf(a.password_hash) {
            Err(Error::PasswordHash)
        } else if !password_matches(password, a.password_hash) {
            Err(Error::IncorrectPassword)
        } else {
            Ok(a)
        }
    }
}

/// What a signin attempt with a given drawn token yields.
pub open spec fn signin_outcome(
    db: DbView,
    email: Seq<char>,
    password: Seq<char>,
    token: Seq<char>,
) -> Result<(), Error> {
    match signin_creds(db, email, password) {
        Err(e) => Err(e),
        Ok(a) => if has_session_token(db.sessions, token) {
            Err(Error::Database)
        } else {
            Ok(())
        },
    }
}

/// When a session issued at `now` expires.
pub open spec fn session_expiry(now: u64) -> u64 {
    (now + SESSION_TOKEN_MAX_AGE_SECS) as u64
}

/// The store after a signin attempt: one new session row on success,
/// nothing otherwise.
pub open spec fn signin_next(
    db: DbView,
    email: Seq<char>,
    password: Seq<char>,
    token: Seq<char>,
    now: u64,
) -> DbView {
    if signin_outcome(db, email, password, token) is Ok {
        DbView {
            sessions: db.sessions.push(
                SessionView {
                    token,
                    account_id: account_by_email(db.accounts, to_lower(email)).id,
                    expires_at: session_expiry(now),
                },
            ),
            ..db
        }
    } else {
        db
    }
}

impl AuthDb {
    /// The signin step below the token draw: checks the credentials and
    /// inserts a session row carrying the given token.  Exact in all its
    /// cases; `signin` supplies a random token.
    pub fn signin_with_token(
        &mut self,
        email: &EmailAddress,
        password: &str,
        token: String,
        now: u64,
    ) -> (r: Result<String, Error>)
        requires
            old(self)@.wf(),
            now + SESSION_TOKEN_MAX_AGE_SECS <= u64::MAX,
        ensures
            final(self)@ == signin_next(old(self)@, email@, password@, token@, now),
            final(self)@.wf(),
            (match r {
                Ok(t) => t@ == token@ && signin_outcome(old(self)@, email@, password@, token@)
                    is Ok,
                Err(e) => signin_outcome(old(self)@, email@, password@, token@) == Err::<(), Error>(
                    e,
                ),
            }),
    {
        let canon = ascii_lowercase(email.as_str());
        match self.find_account_by_email(canon.as_str()) {
            None => Err(Error::AccountNotFound),
            Some(i) => {
                proof {
                    lemma_account_by_email(self@.accounts, i as int);
                }
                match verify_password(password, self.accounts[i].password_hash.as_str()) {
                    VerifyOutcome::BadHash => Err(Error::PasswordHash),
                    VerifyOutcome::Mismatch => Err(Error::IncorrectPassword),
                    VerifyOutcome::Match => {
                        match self.find_session_by_token(token.as_str()) {
                            Some(_) => Err(Error::Database),
                            None => {
                                let account_id = self.accounts[i].id;
                                let issued = token.clone();
                                self.sessions.push(
                                    Session {
                                        token,
                                        account_id,
                                        expires_at: now + SESSION_TOKEN_MAX_AGE_SECS,
                                    },
                                );
                                proof {
                                    let pushed = SessionView {
                                        token: issued@,
                                        account_id,
                                        expires_at: session_expiry(now),
                                    };
                                    assert(self@.sessions =~= old(self)@.sessions.push(pushed));
                                    assert(self@ == signin_next(
                                        old(self)@,
                                        email@,
                                        password@,
                                        issued@,
                                        now,
                                    ));
                                    assert forall|k: int, l: int|
                                        0 <= k < l < self@.sessions.len() implies (
                                    #[trigger] self@.sessions[k]).token != (
                                    #[trigger] self@.sessions[l]).token by {
                                        if l == self@.sessions.len() - 1 {
                                            assert(!has_session_token(
                                                old(self)@.sessions,
                                                issued@,
                                            ));
                                            assert(old(self)@.sessions[k].token != issued@);
                                        }
                                    }
                                    assert forall|k: int|
                                        0 <= k < self@.sessions.len() implies has_account_id(
                                        self@.accounts,
                                        (#[trigger] self@.sessions[k]).account_id,
                                    ) by {
                                        if k < self@.sessions.len() - 1 {
                                            assert(self@.sessions[k] == old(self)@.sessions[k]);
                                        } else {
                                            assert(self@.accounts[i as int].id == account_id);
                                        }
                                    }
                                }
                                Ok(issued)
                            },
                        }
                    },
                }
            },
        }
    }

    /// Signin: draws a fresh random session token, checks the credentials,
    /// and inserts the session row.  The errors that do not depend on the
    /// drawn token are exact; `Database` means the draw collided with an
    /// existing token, which the caller may retry.
    pub fn signin(&mut self, email: &EmailAddress, password: &str, now: u64) -> (r: Result<
        String,
        Error,
    >)
        requires
            old(self)@.wf(),
            now + SESSION_TOKEN_MAX_AGE_SECS <= u64::MAX,
        ensures
            final(self)@.wf(),
            (match r {
                Ok(t) => {
                    &&& t@.len() == SESSION_TOKEN_LEN as int
                    &&& forall|i: int| 0 <= i < t@.len() ==> is_alnum_char(#[trigger] t@[i])
                    &&& signin_outcome(old(self)@, email@, password@, t@) is Ok
                    &&& final(self)@ == signin_next(old(self)@, email@, password@, t@, now)
                },
                Err(e) => {
                    &&& final(self)@ == old(self)@
                    &&& (match signin_creds(old(self)@, email@, password@) {
                        Err(ce) => e == ce,
                        Ok(_) => e == Error::Database,
                    })
                },
            }),
    {
        let token = generate_session_token();
        self.signin_with_token(email, password, token, now)
    }
}

impl Error {
    /// The HTTP status class this error maps to at the boundary.
    pub open spec fn spec_status(self) -> u16 {
        match self {
            Error::IncorrectPassword => 401,
            Error::AccountNotFound => 404,
            Error::PasswordHash => 500,
            Error::Database => 500,
        }
    }

    /// The stable machine-readable code of this error, as the boundary
    /// reports it beside the message.
    pub open spec fn spec_code(self) -> Seq<char> {
        match self {
            Error::IncorrectPassword => "SIGNIN_INCORRECT_PASSWORD"@,
            Error::AccountNotFound => "SIGNIN_ACCOUNT_NOT_FOUND"@,
            Error::PasswordHash => "SIGNIN_PASSWORD_HASH"@,
            Error::Database => "SIGNIN_DATABASE"@,
        }
    }

    /// The human-readable message of this error.
    pub open spec fn spec_message(self) -> Seq<char> {
        match self {
            Error::IncorrectPassword => "Password incorrect"@,
            Error::AccountNotFound => "Account not found"@,
            Error::PasswordHash => "Could not hash password"@,
            Error::Database => "Could not query database"@,
        }
    }

    /// The HTTP status class this error maps to at the boundary.
    pub fn status(&self) -> (r: u16)
        ensures
            r == self.spec_status(),
    {
        match self {
            Error::IncorrectPassword => 401,
            Error::AccountNotFound => 404,
            Error::PasswordHash => 500,
            Error::Database => 500,
        }
    }

    /// The stable machine-readable code of this error.
    pub fn code(&self) -> (r: &'static str)
        ensures
            r@ == self.spec_code(),
    {
        match self {
            Error::IncorrectPassword => "SIGNIN_INCORRECT_PASSWORD",
            Error::AccountNotFound => "SIGNIN_ACCOUNT_NOT_FOUND",
            Error::PasswordHash => "SIGNIN_PASSWORD_HASH",
            Error::Database => "SIGNIN_DATABASE",
        }
    }

    /// The human-readable message of this error.
    pub fn message(&self) -> (r: &'static str)
        ensures
            r@ == self.spec_message(),
    {
        match self {
            Error::IncorrectPassword => "Password incorrect",
            Error::AccountNotFound => "Account not found",
            Error::PasswordHash => "Could not hash password",
            Error::Database => "Could not query database",
        }
    }
}

} // verus!
