//! Invite issuance: minting role-scoped, single-use, time-limited codes.
//!
//! Only a requester of the highest rank may mint an invite, and never for
//! that same top rank: the hierarchy cannot be extended at the top through
//! this path.  A freshly drawn code that collides with an existing one is
//! a conflict the caller may retry; it is never silently swallowed.

use crate::role::UserRole;
use crate::store::{
    has_invite_code, AuthDb, DbView, Invite, InviteView, INVITE_MAX_AGE_SECS,
};
use crate::text::is_alnum_char;
use crate::token::{generate_invite_code, INVITE_CODE_LEN};
use vstd::prelude::*;

verus! {

/// The payload of an invite request: the role the new invite will grant.
pub struct InviteRequest {
    pub role: UserRole,
}

/// Why an invite was not issued.
#[derive(Clone, Copy, Debug, PartialEq, Eq, Structural)]
pub enum Error {
    /// The requester is below the top rank, or asked for an invite of the
    /// top rank.
    InsufficientPermissions,
    /// An invite with the drawn code already exists; the caller should
    /// retry with a new code.
    Conflict,
}

/// Whether `requester` may mint an invite granting `role`.
pub open spec fn invite_allowed(requester: UserRole, role: UserRole) -> bool {
    requester.spec_at_least(UserRole::SuperAdmin) && !role.spec_at_least(UserRole::SuperAdmin)
}

/// When an invite issued at `now` expires.
pub open spec fn invite_expiry(now: u64) -> u64 {
    (now + INVITE_MAX_AGE_SECS) as u64
}

/// What an issuance attempt with a given drawn code yields.
pub open spec fn invite_outcome(
    db: DbView,
    requester: UserRole,
    role: UserRole,
    code: Seq<char>,
) -> Result<(), Error> {
    if !invite_allowed(requester, role) {
        Err(Error::InsufficientPermissions)
    } else if has_invite_code(db.invites, code) {
        Err(Error::Conflict)
    } else {
        Ok(())
    }
}

/// The store after an issuance attempt: one new invite row on success,
/// nothing otherwise.
pub open spec fn invite_next(
    db: DbView,
    requester: UserRole,
    role: UserRole,
    code: Seq<char>,
    now: u64,
) -> DbView {
    if invite_outcome(db, requester, role, code) is Ok {
        DbView {
            invites: db.invites.push(
                InviteView { id: db.next_invite_id, role, code, expires_at: invite_expiry(now) },
            ),
            next_invite_id: (db.next_invite_id + 1) as u64,
            ..db
        }
    } else {
        db
    }
}

impl AuthDb {
    /// The issuance step below the code draw: checks the requester's rank
    /// and inserts an invite row carrying the given code.  Exact in all
    /// its cases; `invite` supplies a random code.
    pub fn issue_invite_with_code(
        &mut self,
        requester: UserRole,
        role: UserRole,
        code: String,
        now: u64,
    ) -> (r: Result<String, Error>)
        requires
            old(self)@.wf(),
            now + INVITE_MAX_AGE_SECS <= u64::MAX,
            old(self)@.next_invite_id < u64::MAX,
        ensures
            final(self)@ == invite_next(old(self)@, requester, role, code@, now),
            final(self)@.wf(),
            (match r {
                Ok(c) => c@ == code@ && invite_outcome(old(self)@, requester, role, code@) is Ok,
                Err(e) => invite_outcome(old(self)@, requester, role, code@) == Err::<(), Error>(e),
            }),
    {
        if !requester.at_least(UserRole::SuperAdmin) || role.at_least(UserRole::SuperAdmin) {
            return Err(Error::InsufficientPermissions);
        }
        match self.find_invite_by_code(code.as_str()) {
            Some(_) => Err(Error::Conflict),
            None => {
                let issued = code.clone();
                let id = self.next_invite_id;
                self.invites.push(
                    Invite { id, role, code, expires_at: now + INVITE_MAX_AGE_SECS },
                );
                self.next_invite_id = id + 1;
                proof {
                    let pushed = InviteView {
                        id,
                        role,
                        code: issued@,
                        expires_at: invite_expiry(now),
                    };
                    assert(self@.invites =~= old(self)@.invites.push(pushed));
                    assert(self@ == invite_next(old(self)@, requester, role, issued@, now));
                    assert forall|k: int, l: int| 0 <= k < l < self@.invites.len() implies (
                    #[trigger] self@.invites[k]).code != (#[trigger] self@.invites[l]).code by {
                        if l == self@.invites.len() - 1 {
                            assert(!has_invite_code(old(self)@.invites, issued@));
                            assert(old(self)@.invites[k].code != issued@);
                        }
                    }
                    assert forall|k: int, l: int| 0 <= k < l < self@.invites.len() implies (
                    #[trigger] self@.invites[k]).id != (#[trigger] self@.invites[l]).id by {
                        if l == self@.invites.len() - 1 {
                            assert(old(self)@.invites[k].id < id);
                        }
                    }
                }
                Ok(issued)
            },
        }
    }

    /// Invite issuance: draws a fresh random code and inserts the invite
    /// row granting `req.role`.  The permission check does not depend on
    /// the drawn code and is exact; `Conflict` means the draw collided.
    pub fn invite(&mut self, requester: UserRole, req: InviteRequest, now: u64) -> (r: Result<
        String,
        Error,
    >)
        requires
            old(self)@.wf(),
            now + INVITE_MAX_AGE_SECS <= u64::MAX,
            old(self)@.next_invite_id < u64::MAX,
        ensures
            final(self)@.wf(),
            (match r {
                Ok(c) => {
                    &&& c@.len() == INVITE_CODE_LEN as int
                    &&& forall|i: int| 0 <= i < c@.len() ==> is_alnum_char(#[trigger] c@[i])
                    &&& invite_outcome(old(self)@, requester, req.role, c@) is Ok
                    &&& final(self)@ == invite_next(old(self)@, requester, req.role, c@, now)
                },
                Err(e) => {
                    &&& final(self)@ == old(self)@
                    &&& (e == Error::InsufficientPermissions <==> !invite_allowed(
                        requester,
                        req.role,
                    ))
                },
            }),
    {
        let code = generate_invite_code();
        self.issue_invite_with_code(requester, req.role, code, now)
    }
}

impl Error {
    /// The HTTP status class this error maps to at the boundary.
    pub open spec fn spec_status(self) -> u16 {
        match self {
            Error::InsufficientPermissions => 403,
            Error::Conflict => 409,
        }
    }

    /// The stable machine-readable code of this error, as the boundary
    /// reports it beside the message.
    pub open spec fn spec_code(self) -> Seq<char> {
        match self {
            Error::InsufficientPermissions => "INVITE_INSUFFICIENT_PERMISSIONS"@,
            Error::Conflict => "INVITE_CONFLICT"@,
        }
    }

    /// The human-readable message of this error.
    pub open spec fn spec_message(self) -> Seq<char> {
        match self {
            Error::InsufficientPermissions => "Insufficient permissions"@,
            Error::Conflict => "Invite already exists"@,
        }
    }

    /// The HTTP status class this error maps to at the boundary.
    pub fn status(&self) -> (r: u16)
        ensures
            r == self.spec_status(),
    {
        match self {
            Error::InsufficientPermissions => 403,
            Error::Conflict => 409,
        }
    }

    /// The stable machine-readable code of this error.
    pub fn code(&self) -> (r: &'static str)
        ensures
            r@ == self.spec_code(),
    {
        match self {
            Error::InsufficientPermissions => "INVITE_INSUFFICIENT_PERMISSIONS",
            Error::Conflict => "INVITE_CONFLICT",
        }
    }

    /// The human-readable message of this error.
    pub fn message(&self) -> (r: &'static str)
        ensures
            r@ == self.spec_message(),
    {
        match self {
            Error::InsufficientPermissions => "Insufficient permissions",
            Error::Conflict => "Invite already exists",
        }
    }
}

} // verus!
