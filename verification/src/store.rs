//! The persistent state of the service: accounts, sessions and invites.
//!
//! The three tables are held in memory as vectors of rows.  Each row type
//! has a mathematical view, and the store's well-formedness invariant --
//! unique emails, tokens, codes and ids, ids below the allocators, and
//! every session owned by an existing account -- is stated over the views.
//! Every operation of the library requires and preserves it.

use crate::role::UserRole;
use vstd::prelude::*;

verus! {

/// Seconds a session stays valid after signin.
pub const SESSION_TOKEN_MAX_AGE_SECS: u64 = 3600;

/// Seconds an invite stays redeemable after issuance.
pub const INVITE_MAX_AGE_SECS: u64 = 604800;

/// Seconds between two runs of the session sweeper.
pub const SWEEP_INTERVAL_SECS: u64 = 300;

/// One account row: a stable id, the canonical (lower-case) email, the
/// self-describing password hash string, and the role granted at signup.
pub struct Account {
    pub id: u64,
    pub email: String,
    pub password_hash: String,
    pub role: UserRole,
}

/// One session row: an unguessable bearer token, the owning account, and
/// the absolute expiry time in seconds.
pub struct Session {
    pub token: String,
    pub account_id: u64,
    pub expires_at: u64,
}

/// One invite row: a stable id, the role granted on redemption, the
/// out-of-band code, and the absolute expiry time in seconds.
pub struct Invite {
    pub id: u64,
    pub role: UserRole,
    pub code: String,
    pub expires_at: u64,
}

/// The view of an account row.
pub struct AccountView {
    pub id: u64,
    pub email: Seq<char>,
    pub password_hash: Seq<char>,
    pub role: UserRole,
}

/// The view of a session row.
pub struct SessionView {
    pub token: Seq<char>,
    pub account_id: u64,
    pub expires_at: u64,
}

/// The view of an invite row.
pub struct InviteView {
    pub id: u64,
    pub role: UserRole,
    pub code: Seq<char>,
    pub expires_at: u64,
}

impl View for Account {
    type V = AccountView;

    open spec fn view(&self) -> AccountView {
        AccountView {
            id: self.id,
            email: self.email@,
            password_hash: self.password_hash@,
            role: self.role,
        }
    }
}

impl View for Session {
    type V = SessionView;

    open spec fn view(&self) -> SessionView {
        SessionView { token: self.token@, account_id: self.account_id, expires_at: self.expires_at }
    }
}

impl View for Invite {
    type V = InviteView;

    open spec fn view(&self) -> InviteView {
        InviteView { id: self.id, role: self.role, code: self.code@, expires_at: self.expires_at }
    }
}

/// The view of the whole store.
pub struct DbView {
    pub accounts: Seq<AccountView>,
    pub sessions: Seq<SessionView>,
    pub invites: Seq<InviteView>,
    pub next_account_id: u64,
    pub next_invite_id: u64,
}

/// No two accounts share an email (emails are stored in canonical form).
pub open spec fn emails_unique(s: Seq<AccountView>) -> bool {
    forall|i: int, j: int|
        0 <= i < j < s.len() ==> (#[trigger] s[i]).email != (#[trigger] s[j]).email
}

/// No two accounts share an id.
pub open spec fn account_ids_unique(s: Seq<AccountView>) -> bool {
    forall|i: int, j: int| 0 <= i < j < s.len() ==> (#[trigger] s[i]).id != (#[trigger] s[j]).id
}

/// No two sessions share a token.
pub open spec fn tokens_unique(s: Seq<SessionView>) -> bool {
    forall|i: int, j: int|
        0 <= i < j < s.len() ==> (#[trigger] s[i]).token != (#[trigger] s[j]).token
}

/// No two invites share a code.
pub open spec fn codes_unique(s: Seq<InviteView>) -> bool {
    forall|i: int, j: int| 0 <= i < j < s.len() ==> (#[trigger] s[i]).code != (#[trigger] s[j]).code
}

/// No two invites share an id.
pub open spec fn invite_ids_unique(s: Seq<InviteView>) -> bool {
    forall|i: int, j: int| 0 <= i < j < s.len() ==> (#[trigger] s[i]).id != (#[trigger] s[j]).id
}

/// Some account has this (canonical) email.
pub open spec fn has_account_email(s: Seq<AccountView>, email: Seq<char>) -> bool {
    exists|i: int| 0 <= i < s.len() && (#[trigger] s[i]).email == email
}

/// The index of the account with this email (meaningful when one exists
/// and emails are unique).
pub open spec fn account_email_idx(s: Seq<AccountView>, email: Seq<char>) -> int {
    choose|i: int| 0 <= i < s.len() && (#[trigger] s[i]).email == email
}

/// The account with this email (meaningful when one exists and emails are
/// unique).
pub open spec fn account_by_email(s: Seq<AccountView>, email: Seq<char>) -> AccountView {
    s[account_email_idx(s, email)]
}

/// Some account has this id.
pub open spec fn has_account_id(s: Seq<AccountView>, id: u64) -> bool {
    exists|i: int| 0 <= i < s.len() && (#[trigger] s[i]).id == id
}

/// The index of the account with this id (meaningful when one exists and
/// ids are unique).
pub open spec fn account_id_idx(s: Seq<AccountView>, id: u64) -> int {
    choose|i: int| 0 <= i < s.len() && (#[trigger] s[i]).id == id
}

/// The account with this id (meaningful when one exists and ids are unique).
pub open spec fn account_by_id(s: Seq<AccountView>, id: u64) -> AccountView {
    s[account_id_idx(s, id)]
}

/// Some session carries this token.
pub open spec fn has_session_token(s: Seq<SessionView>, token: Seq<char>) -> bool {
    exists|i: int| 0 <= i < s.len() && (#[trigger] s[i]).token == token
}

/// The index of the session with this token (meaningful when one exists
/// and tokens are unique).
pub open spec fn session_token_idx(s: Seq<SessionView>, token: Seq<char>) -> int {
    choose|i: int| 0 <= i < s.len() && (#[trigger] s[i]).token == token
}

/// The session with this token (meaningful when one exists and tokens are
/// unique).
pub open spec fn session_by_token(s: Seq<SessionView>, token: Seq<char>) -> SessionView {
    s[session_token_idx(s, token)]
}

/// Some invite carries this code.
pub open spec fn has_invite_code(s: Seq<InviteView>, code: Seq<char>) -> bool {
    exists|i: int| 0 <= i < s.len() && (#[trigger] s[i]).code == code
}

/// The index of the invite with this code (meaningful when one exists and
/// codes are unique).
pub open spec fn invite_code_idx(s: Seq<InviteView>, code: Seq<char>) -> int {
    choose|i: int| 0 <= i < s.len() && (#[trigger] s[i]).code == code
}

/// The invite with this code (meaningful when one exists and codes are
/// unique).
pub open spec fn invite_by_code(s: Seq<InviteView>, code: Seq<char>) -> InviteView {
    s[invite_code_idx(s, code)]
}

impl DbView {
    /// The store's well-formedness invariant.
    pub open spec fn wf(self) -> bool {
        &&& emails_unique(self.accounts)
        &&& account_ids_unique(self.accounts)
        &&& forall|i: int|
            0 <= i < self.accounts.len() ==> (#[trigger] self.accounts[i]).id
                < self.next_account_id
        &&& tokens_unique(self.sessions)
        &&& forall|i: int|
            0 <= i < self.sessions.len() ==> has_account_id(
                self.accounts,
                (#[trigger] self.sessions[i]).account_id,
            )
        &&& codes_unique(self.invites)
        &&& invite_ids_unique(self.invites)
        &&& forall|i: int|
            0 <= i < self.invites.len() ==> (#[trigger] self.invites[i]).id < self.next_invite_id
    }
}

/// The state of a store that has seen no operation yet.
pub open spec fn empty_db() -> DbView {
    DbView {
        accounts: Seq::empty(),
        sessions: Seq::empty(),
        invites: Seq::empty(),
        next_account_id: 1,
        next_invite_id: 1,
    }
}

/// The in-memory store the operations of the library act on.
pub struct AuthDb {
    pub accounts: Vec<Account>,
    pub sessions: Vec<Session>,
    pub invites: Vec<Invite>,
    pub next_account_id: u64,
    pub next_invite_id: u64,
}

impl View for AuthDb {
    type V = DbView;

    open spec fn view(&self) -> DbView {
        DbView {
            accounts: self.accounts@.map_values(|a: Account| a@),
            sessions: self.sessions@.map_values(|s: Session| s@),
            invites: self.invites@.map_values(|i: Invite| i@),
            next_account_id: self.next_account_id,
            next_invite_id: self.next_invite_id,
        }
    }
}

impl AuthDb {
    /// An empty store.
    pub fn new() -> (r: AuthDb)
        ensures
            r@ == empty_db(),
            r@.wf(),
    {
        let r = AuthDb {
            accounts: Vec::new(),
            sessions: Vec::new(),
            invites: Vec::new(),
            next_account_id: 1,
            next_invite_id: 1,
        };
        proof {
            assert(r@.accounts =~= Seq::<AccountView>::empty());
            assert(r@.sessions =~= Seq::<SessionView>::empty());
            assert(r@.invites =~= Seq::<InviteView>::empty());
            assert(r@ =~= empty_db());
        }
        r
    }

    /// Index of the account row holding this email, if any.
    pub(crate) fn find_account_by_email(&self, email: &str) -> (r: Option<usize>)
        ensures
            (match r {
                Some(i) => i < self@.accounts.len() && self@.accounts[i as int].email == email@,
                None => !has_account_email(self@.accounts, email@),
            }),
    {
        let n = self.accounts.len();
        let mut i: usize = 0;
        while i < n
            invariant
                i <= n,
                n == self@.accounts.len(),
                self@.accounts == self.accounts@.map_values(|a: Account| a@),
                forall|k: int| 0 <= k < i ==> (#[trigger] self@.accounts[k]).email != email@,
            decreases n - i,
        {
            if crate::text::str_eq(self.accounts[i].email.as_str(), email) {
                return Some(i);
            }
            i = i + 1;
        }
        None
    }

    /// Index of the account row holding this id, if any.
    pub(crate) fn find_account_by_id(&self, id: u64) -> (r: Option<usize>)
        ensures
            (match r {
                Some(i) => i < self@.accounts.len() && self@.accounts[i as int].id == id,
                None => !has_account_id(self@.accounts, id),
            }),
    {
        let n = self.accounts.len();
        let mut i: usize = 0;
        while i < n
            invariant
                i <= n,
                n == self@.accounts.len(),
                self@.accounts == self.accounts@.map_values(|a: Account| a@),
                forall|k: int| 0 <= k < i ==> (#[trigger] self@.accounts[k]).id != id,
            decreases n - i,
        {
            if self.accounts[i].id == id {
                return Some(i);
            }
            i = i + 1;
        }
        None
    }

    /// Index of the session row holding this token, if any.
    pub(crate) fn find_session_by_token(&self, token: &str) -> (r: Option<usize>)
        ensures
            (match r {
                Some(i) => i < self@.sessions.len() && self@.sessions[i as int].token == token@,
                None => !has_session_token(self@.sessions, token@),
            }),
    {
        let n = self.sessions.len();
        let mut i: usize = 0;
        while i < n
            invariant
                i <= n,
                n == self@.sessions.len(),
                self@.sessions == self.sessions@.map_values(|s: Session| s@),
                forall|k: int| 0 <= k < i ==> (#[trigger] self@.sessions[k]).token != token@,
            decreases n - i,
        {
            if crate::text::str_eq(self.sessions[i].token.as_str(), token) {
                return Some(i);
            }
            i = i + 1;
        }
        None
    }

    /// Index of the invite row holding this code, if any.
    pub(crate) fn find_invite_by_code(&self, code: &str) -> (r: Option<usize>)
        ensures
            (match r {
                Some(i) => i < self@.invites.len() && self@.invites[i as int].code == code@,
                None => !has_invite_code(self@.invites, code@),
            }),
    {
        let n = self.invites.len();
        let mut i: usize = 0;
        while i < n
            invariant
                i <= n,
                n == self@.invites.len(),
                self@.invites == self.invites@.map_values(|iv: Invite| iv@),
                forall|k: int| 0 <= k < i ==> (#[trigger] self@.invites[k]).code != code@,
            decreases n - i,
        {
            if crate::text::str_eq(self.invites[i].code.as_str(), code) {
                return Some(i);
            }
            i = i + 1;
        }
        None
    }
}

/// When emails are unique, the account found at an index with a matching
/// email is exactly `account_by_email`.
pub proof fn lemma_account_by_email(s: Seq<AccountView>, i: int)
    requires
        emails_unique(s),
        0 <= i < s.len(),
    ensures
        has_account_email(s, s[i].email),
        account_by_email(s, s[i].email) == s[i],
{
    let email = s[i].email;
    assert(has_account_email(s, email));
    let j = choose|j: int| 0 <= j < s.len() && (#[trigger] s[j]).email == email;
    if i < j {
        assert(s[i].email != s[j].email);
    } else if j < i {
        assert(s[j].email != s[i].email);
    }
}

/// When ids are unique, the account found at an index with a matching id is
/// exactly `account_by_id`.
pub proof fn lemma_account_by_id(s: Seq<AccountView>, i: int)
    requires
        account_ids_unique(s),
        0 <= i < s.len(),
    ensures
        has_account_id(s, s[i].id),
        account_by_id(s, s[i].id) == s[i],
{
    let id = s[i].id;
    assert(has_account_id(s, id));
    let j = choose|j: int| 0 <= j < s.len() && (#[trigger] s[j]).id == id;
    if i < j {
        assert(s[i].id != s[j].id);
    } else if j < i {
        assert(s[j].id != s[i].id);
    }
}

/// When tokens are unique, the session found at an index with a matching
/// token is exactly `session_by_token`.
pub proof fn lemma_session_by_token(s: Seq<SessionView>, i: int)
    requires
        tokens_unique(s),
        0 <= i < s.len(),
    ensures
        has_session_token(s, s[i].token),
        session_by_token(s, s[i].token) == s[i],
{
    let token = s[i].token;
    assert(has_session_token(s, token));
    let j = choose|j: int| 0 <= j < s.len() && (#[trigger] s[j]).token == token;
    if i < j {
        assert(s[i].token != s[j].token);
    } else if j < i {
        assert(s[j].token != s[i].token);
    }
}

/// When codes are unique, the invite found at an index with a matching code
/// is exactly `invite_by_code`.
pub proof fn lemma_invite_by_code(s: Seq<InviteView>, i: int)
    requires
        codes_unique(s),
        0 <= i < s.len(),
    ensures
        has_invite_code(s, s[i].code),
        invite_by_code(s, s[i].code) == s[i],
{
    let code = s[i].code;
    assert(has_invite_code(s, code));
    let j = choose|j: int| 0 <= j < s.len() && (#[trigger] s[j]).code == code;
    if i < j {
        assert(s[i].code != s[j].code);
    } else if j < i {
        assert(s[j].code != s[i].code);
    }
}

} // verus!
