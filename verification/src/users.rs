//! Account administration: reading one's own account, listing and reading
//! accounts, deleting lower-ranked accounts, and changing one's own
//! credentials.
//!
//! Every operation here runs behind the role extractor: it takes either a
//! resolved requester role or the request's session token.  Listing and
//! reading demand at least `Admin`; deletion additionally demands that the
//! target ranks strictly below the requester.

use crate::email::EmailAddress;
use crate::password::{hash_password, hash_wf, password_matches};
use crate::role::UserRole;
use crate::store::{
    account_by_email, account_by_id, account_id_idx, has_account_email, has_account_id,
    lemma_account_by_id, lemma_session_by_token, session_by_token, tokens_unique, Account,
    AccountView, AuthDb, DbView, SessionView,
};
use crate::text::{ascii_lowercase, to_lower};
use crate::validate;
use crate::validate::{account_of_token, token_live};
use vstd::prelude::*;

verus! {

/// Why an account operation failed.
#[derive(Clone, Copy, Debug, PartialEq, Eq, Structural)]
pub enum Error {
    /// No account has the requested id.
    NotFound,
    /// The requester's rank does not cover the operation or its target.
    InsufficientPermissions,
    /// No unexpired session carries the presented token.
    InvalidToken,
    /// Another account already holds the requested email.
    Conflict,
    /// The new password could not be hashed; nothing was changed.
    PasswordHash,
}

/// What a handler reports about one account.
#[derive(Debug, PartialEq, Eq)]
pub struct UserData {
    pub id: u64,
    pub email: String,
    pub role: UserRole,
    pub role_rank: u8,
}

/// The view of a `UserData`.
pub struct UserDataView {
    pub id: u64,
    pub email: Seq<char>,
    pub role: UserRole,
    pub role_rank: u8,
}

impl View for UserData {
    type V = UserDataView;

    open spec fn view(&self) -> UserDataView {
        UserDataView {
            id: self.id,
            email: self.email@,
            role: self.role,
            role_rank: self.role_rank,
        }
    }
}

/// The report derived from one account row.
pub open spec fn user_data_of(a: AccountView) -> UserDataView {
    UserDataView { id: a.id, email: a.email, role: a.role, role_rank: a.role.spec_rank() }
}

/// The report for every account, in table order.
pub open spec fn users_list(accounts: Seq<AccountView>) -> Seq<UserDataView> {
    accounts.map_values(|a: AccountView| user_data_of(a))
}

/// What deleting account `id` on behalf of `requester` yields.
pub open spec fn delete_user_outcome(db: DbView, requester: UserRole, id: u64) -> Result<
    (),
    Error,
> {
    if !requester.spec_at_least(UserRole::Admin) {
        Err(Error::InsufficientPermissions)
    } else if !has_account_id(db.accounts, id) {
        Err(Error::NotFound)
    } else if account_by_id(db.accounts, id).role.spec_rank() >= requester.spec_rank() {
        Err(Error::InsufficientPermissions)
    } else {
        Ok(())
    }
}

/// The session table without every row owned by account `id`.
pub open spec fn without_account(s: Seq<SessionView>, id: u64) -> Seq<SessionView> {
    s.filter(|sv: SessionView| sv.account_id != id)
}

/// The store after a deletion attempt: the account row and its sessions
/// go together, or nothing changes.
pub open spec fn delete_user_next(db: DbView, requester: UserRole, id: u64) -> DbView {
    if delete_user_outcome(db, requester, id) is Ok {
        DbView {
            accounts: db.accounts.remove(account_id_idx(db.accounts, id)),
            sessions: without_account(db.sessions, id),
            ..db
        }
    } else {
        db
    }
}

/// The view of an optional owned string.
pub open spec fn string_opt_view(o: Option<String>) -> Option<Seq<char>> {
    match o {
        Some(h) => Some(h@),
        None => None,
    }
}

/// The view of an optional email argument.
pub open spec fn email_opt_view(o: Option<&EmailAddress>) -> Option<Seq<char>> {
    match o {
        Some(e) => Some(e@),
        None => None,
    }
}

/// What changing one's own email yields, hashing aside: the session must
/// resolve, and a requested email must not belong to another account.
pub open spec fn patch_outcome(
    db: DbView,
    token: Seq<char>,
    now: u64,
    new_email: Option<Seq<char>>,
) -> Result<(), Error> {
    if !token_live(db, token, now) {
        Err(Error::InvalidToken)
    } else {
        match new_email {
            Some(e) => {
                let canon = to_lower(e);
                if has_account_email(db.accounts, canon) && account_by_email(db.accounts, canon).id
                    != account_of_token(db, token).id {
                    Err(Error::Conflict)
                } else {
                    Ok(())
                }
            },
            None => Ok(()),
        }
    }
}

/// The account row after the requested changes.
pub open spec fn patched_account(
    a: AccountView,
    new_email: Option<Seq<char>>,
    new_hash: Option<Seq<char>>,
) -> AccountView {
    let a1 = match new_email {
        Some(e) => AccountView { email: to_lower(e), ..a },
        None => a,
    };
    match new_hash {
        Some(h) => AccountView { password_hash: h, ..a1 },
        None => a1,
    }
}

/// The store after a change of one's own credentials: the one account row
/// is rewritten, or nothing changes.
pub open spec fn patch_next(
    db: DbView,
    token: Seq<char>,
    now: u64,
    new_email: Option<Seq<char>>,
    new_hash: Option<Seq<char>>,
) -> DbView {
    if patch_outcome(db, token, now, new_email) is Ok {
        let j = account_id_idx(db.accounts, session_by_token(db.sessions, token).account_id);
        DbView {
            accounts: db.accounts.update(j, patched_account(db.accounts[j], new_email, new_hash)),
            ..db
        }
    } else {
        db
    }
}

/// Dropping one account's sessions keeps tokens unique and introduces no
/// row that was not there before.
proof fn lemma_without_account_wf(s: Seq<SessionView>, id: u64)
    requires
        tokens_unique(s),
    ensures
        tokens_unique(without_account(s, id)),
        forall|k: int|
            0 <= k < without_account(s, id).len() ==> exists|j: int|
                0 <= j < s.len() && #[trigger] without_account(s, id)[k] == s[j],
    decreases s.len(),
{
    reveal_with_fuel(Seq::filter, 2);
    if s.len() == 0 {
    } else {
        let dl = s.drop_last();
        let fdl = without_account(dl, id);
        lemma_without_account_wf(dl, id);
        assert(forall|j: int| 0 <= j < dl.len() ==> dl[j] == s[j]);
        if s.last().account_id != id {
            assert(without_account(s, id) == fdl.push(s.last()));
            assert forall|k: int, l: int| 0 <= k < l < without_account(s, id).len() implies (
            #[trigger] without_account(s, id)[k]).token != (
            #[trigger] without_account(s, id)[l]).token by {
                if l < fdl.len() {
                } else {
                    assert(without_account(s, id)[l] == s.last());
                    let j = choose|j: int| 0 <= j < dl.len() && fdl[k] == dl[j];
                    assert(s[j].token != s[s.len() - 1].token);
                }
            }
        } else {
            assert(without_account(s, id) == fdl);
        }
    }
}

impl Account {
    /// A field-for-field copy of the row.
    fn clone_row(&self) -> (r: Account)
        ensures
            r@ == self@,
    {
        Account {
            id: self.id,
            email: self.email.clone(),
            password_hash: self.password_hash.clone(),
            role: self.role,
        }
    }

    /// The report derived from this row.
    fn to_user_data(&self) -> (r: UserData)
        ensures
            r@ == user_data_of(self@),
    {
        UserData {
            id: self.id,
            email: self.email.clone(),
            role: self.role,
            role_rank: self.role.rank(),
        }
    }
}

impl AuthDb {
    /// The requester's own account, resolved from its session token.
    pub fn me(&self, token: &str, now: u64) -> (r: Result<UserData, validate::Error>)
        requires
            self@.wf(),
        ensures
            (match r {
                Ok(u) => token_live(self@, token@, now) && u@ == user_data_of(
                    account_of_token(self@, token@),
                ),
                Err(e) => !token_live(self@, token@, now) && e == validate::Error::InvalidToken,
            }),
    {
        match self.find_session_by_token(token) {
            None => Err(validate::Error::InvalidToken),
            Some(i) => {
                proof {
                    lemma_session_by_token(self@.sessions, i as int);
                }
                if self.sessions[i].expires_at > now {
                    let account_id = self.sessions[i].account_id;
                    proof {
                        assert(has_account_id(self@.accounts, account_id));
                    }
                    match self.find_account_by_id(account_id) {
                        Some(j) => {
                            proof {
                                lemma_account_by_id(self@.accounts, j as int);
                            }
                            Ok(self.accounts[j].to_user_data())
                        },
                        None => {
                            proof {
                                assert(false);
                            }
                            Err(validate::Error::InvalidToken)
                        },
                    }
                } else {
                    Err(validate::Error::InvalidToken)
                }
            },
        }
    }

    /// Every account, for a requester of rank at least `Admin`.
    pub fn users(&self, requester: UserRole) -> (r: Result<Vec<UserData>, validate::Error>)
        requires
            self@.wf(),
        ensures
            (match r {
                Ok(v) => requester.spec_at_least(UserRole::Admin) && v@.map_values(
                    |u: UserData| u@,
                ) == users_list(self@.accounts),
                Err(e) => !requester.spec_at_least(UserRole::Admin) && e
                    == validate::Error::InsufficientPermissions,
            }),
    {
        if !requester.at_least(UserRole::Admin) {
            return Err(validate::Error::InsufficientPermissions);
        }
        let n = self.accounts.len();
        let mut out: Vec<UserData> = Vec::new();
        let mut i: usize = 0;
        proof {
            assert(out@.map_values(|u: UserData| u@) =~= users_list(self@.accounts.take(0)));
        }
        while i < n
            invariant
                i <= n,
                n == self.accounts@.len(),
                self@.accounts == self.accounts@.map_values(|a: Account| a@),
                out@.map_values(|u: UserData| u@) == users_list(self@.accounts.take(i as int)),
            decreases n - i,
        {
            let ghost prev = out@.map_values(|u: UserData| u@);
            out.push(self.accounts[i].to_user_data());
            proof {
                assert(out@.map_values(|u: UserData| u@) =~= prev.push(
                    user_data_of(self@.accounts[i as int]),
                ));
                assert(out@.map_values(|u: UserData| u@) =~= users_list(
                    self@.accounts.take(i + 1),
                ));
            }
            i = i + 1;
        }
        proof {
            assert(self@.accounts.take(n as int) =~= self@.accounts);
        }
        Ok(out)
    }

    /// One account by id, for a requester of rank at least `Admin`.
    pub fn user(&self, requester: UserRole, id: u64) -> (r: Result<UserData, Error>)
        requires
            self@.wf(),
        ensures
            (match r {
                Ok(u) => {
                    &&& requester.spec_at_least(UserRole::Admin)
                    &&& has_account_id(self@.accounts, id)
                    &&& u@ == user_data_of(account_by_id(self@.accounts, id))
                },
                Err(e) => {
                    &&& (e == Error::InsufficientPermissions <==> !requester.spec_at_least(
                        UserRole::Admin,
                    ))
                    &&& (e == Error::NotFound <==> requester.spec_at_least(UserRole::Admin)
                        && !has_account_id(self@.accounts, id))
                },
            }),
    {
        if !requester.at_least(UserRole::Admin) {
            return Err(Error::InsufficientPermissions);
        }
        match self.find_account_by_id(id) {
            None => Err(Error::NotFound),
            Some(j) => {
                proof {
                    lemma_account_by_id(self@.accounts, j as int);
                }
                Ok(self.accounts[j].to_user_data())
            },
        }
    }

    /// Deletes account `id` and its sessions, for a requester of rank at
    /// least `Admin` whose rank strictly exceeds the target's.
    pub fn delete_user(&mut self, requester: UserRole, id: u64) -> (r: Result<(), Error>)
        requires
            old(self)@.wf(),
        ensures
            final(self)@ == delete_user_next(old(self)@, requester, id),
            final(self)@.wf(),
            (match r {
                Ok(()) => delete_user_outcome(old(self)@, requester, id) is Ok,
                Err(e) => delete_user_outcome(old(self)@, requester, id) == Err::<(), Error>(e),
            }),
    {
        if !requester.at_least(UserRole::Admin) {
            return Err(Error::InsufficientPermissions);
        }
        match self.find_account_by_id(id) {
            None => Err(Error::NotFound),
            Some(j) => {
                proof {
                    lemma_account_by_id(self@.accounts, j as int);
                }
                if self.accounts[j].role.rank() >= requester.rank() {
                    return Err(Error::InsufficientPermissions);
                }
                let ghost db0 = self@;
                self.accounts.remove(j);
                proof {
                    assert(self@.accounts =~= db0.accounts.remove(j as int));
                }
                // The deleted account's sessions go with it, as the
                // schema's foreign key would cascade them.
                let n = self.sessions.len();
                let mut kept: Vec<crate::store::Session> = Vec::new();
                let mut i: usize = 0;
                proof {
                    assert(kept@.map_values(|s: crate::store::Session| s@) =~= without_account(
                        db0.sessions.take(0),
                        id,
                    )) by {
                        reveal_with_fuel(Seq::filter, 2);
                        assert(db0.sessions.take(0) =~= Seq::<SessionView>::empty());
                    }
                }
                while i < n
                    invariant
                        i <= n,
                        n == self.sessions@.len(),
                        db0.sessions == self.sessions@.map_values(|s: crate::store::Session| s@),
                        kept@.map_values(|s: crate::store::Session| s@) == without_account(
                            db0.sessions.take(i as int),
                            id,
                        ),
                    decreases n - i,
                {
                    let ghost prev = kept@.map_values(|s: crate::store::Session| s@);
                    proof {
                        assert(db0.sessions[i as int] == self.sessions@[i as int]@);
                    }
                    if self.sessions[i].account_id != id {
                        kept.push(self.sessions[i].clone_row());
                        proof {
                            assert(kept@.map_values(|s: crate::store::Session| s@) =~= prev.push(
                                db0.sessions[i as int],
                            ));
                        }
                    }
                    proof {
                        let t1 = db0.sessions.take(i + 1);
                        assert(t1.drop_last() =~= db0.sessions.take(i as int));
                        assert(t1.last() == db0.sessions[i as int]);
                        assert(without_account(t1, id) == (if db0.sessions[i as int].account_id
                            != id {
                            without_account(db0.sessions.take(i as int), id).push(
                                db0.sessions[i as int],
                            )
                        } else {
                            without_account(db0.sessions.take(i as int), id)
                        })) by {
                            reveal_with_fuel(Seq::filter, 2);
                        }
                    }
                    i = i + 1;
                }
                self.sessions = kept;
                proof {
                    assert(db0.sessions.take(n as int) =~= db0.sessions);
                    assert(self@.sessions == without_account(db0.sessions, id));
                    assert(self@ == delete_user_next(old(self)@, requester, id));
                    lemma_without_account_wf(db0.sessions, id);
                    assert forall|a: int, b: int| 0 <= a < b < self@.accounts.len() implies (
                    #[trigger] self@.accounts[a]).email != (
                    #[trigger] self@.accounts[b]).email by {
                        assert(self@.accounts[a] == if a < j as int {
                            db0.accounts[a]
                        } else {
                            db0.accounts[a + 1]
                        });
                        assert(self@.accounts[b] == if b < j as int {
                            db0.accounts[b]
                        } else {
                            db0.accounts[b + 1]
                        });
                    }
                    assert forall|a: int, b: int| 0 <= a < b < self@.accounts.len() implies (
                    #[trigger] self@.accounts[a]).id != (#[trigger] self@.accounts[b]).id by {
                        assert(self@.accounts[a] == if a < j as int {
                            db0.accounts[a]
                        } else {
                            db0.accounts[a + 1]
                        });
                        assert(self@.accounts[b] == if b < j as int {
                            db0.accounts[b]
                        } else {
                            db0.accounts[b + 1]
                        });
                    }
                    assert forall|a: int| 0 <= a < self@.accounts.len() implies (
                    #[trigger] self@.accounts[a]).id < self@.next_account_id by {
                        assert(self@.accounts[a] == if a < j as int {
                            db0.accounts[a]
                        } else {
                            db0.accounts[a + 1]
                        });
                    }
                    assert forall|k: int| 0 <= k < self@.sessions.len() implies has_account_id(
                        self@.accounts,
                        (#[trigger] self@.sessions[k]).account_id,
                    ) by {
                        assert(without_account(db0.sessions, id)[k] == self@.sessions[k]);
                        let sj = choose|sj: int|
                            0 <= sj < db0.sessions.len() && #[trigger] without_account(
                                db0.sessions,
                                id,
                            )[k] == db0.sessions[sj];
                        let aid = db0.sessions[sj].account_id;
                        assert(has_account_id(db0.accounts, aid));
                        let w = choose|w: int|
                            0 <= w < db0.accounts.len() && (#[trigger] db0.accounts[w]).id == aid;
                        assert(aid != id);
                        assert(w != j as int);
                        if w < j as int {
                            assert(self@.accounts[w].id == aid);
                        } else {
                            assert(self@.accounts[w - 1].id == aid);
                        }
                    }
                }
                Ok(())
            },
        }
    }

    /// Changes the requester's own email and/or password, resolved from
    /// its session token.  Both changes land together or not at all.
    pub fn patch_me(
        &mut self,
        token: &str,
        now: u64,
        new_email: Option<&EmailAddress>,
        new_password: Option<&str>,
    ) -> (r: Result<(), Error>)
        requires
            old(self)@.wf(),
        ensures
            final(self)@.wf(),
            (match r {
                Ok(()) => {
                    &&& patch_outcome(old(self)@, token@, now, email_opt_view(new_email)) is Ok
                    &&& (match new_password {
                        None => final(self)@ == patch_next(
                            old(self)@,
                            token@,
                            now,
                            email_opt_view(new_email),
                            None,
                        ),
                        Some(p) => exists|h: Seq<char>|
                            {
                                &&& hash_wf(h)
                                &&& password_matches(p@, h)
                                &&& final(self)@ == #[trigger] patch_next(
                                    old(self)@,
                                    token@,
                                    now,
                                    email_opt_view(new_email),
                                    Some(h),
                                )
                            },
                    })
                },
                Err(e) => {
                    &&& final(self)@ == old(self)@
                    &&& (match patch_outcome(old(self)@, token@, now, email_opt_view(new_email)) {
                        Err(oe) => e == oe,
                        Ok(()) => e == Error::PasswordHash && new_password is Some,
                    })
                },
            }),
    {
        let i = match self.find_session_by_token(token) {
            None => {
                return Err(Error::InvalidToken);
            },
            Some(i) => i,
        };
        proof {
            lemma_session_by_token(self@.sessions, i as int);
        }
        if self.sessions[i].expires_at <= now {
            return Err(Error::InvalidToken);
        }
        let account_id = self.sessions[i].account_id;
        proof {
            assert(has_account_id(self@.accounts, account_id));
        }
        let j = match self.find_account_by_id(account_id) {
            Some(j) => j,
            None => {
                proof {
                    assert(false);
                }
                return Err(Error::InvalidToken);
            },
        };
        proof {
            lemma_account_by_id(self@.accounts, j as int);
        }
        let canon_opt: Option<String> = match new_email {
            Some(e) => {
                let canon = ascii_lowercase(e.as_str());
                match self.find_account_by_email(canon.as_str()) {
                    Some(w) => {
                        if self.accounts[w].id != account_id {
                            proof {
                                assert(account_by_email(self@.accounts, canon@)
                                    == self@.accounts[w as int]) by {
                                    let c = canon@;
                                    let x = crate::store::account_email_idx(self@.accounts, c);
                                    if x < w as int {
                                        assert(self@.accounts[x].email
                                            != self@.accounts[w as int].email);
                                    } else if (w as int) < x {
                                        assert(self@.accounts[w as int].email
                                            != self@.accounts[x].email);
                                    }
                                }
                            }
                            return Err(Error::Conflict);
                        }
                        Some(canon)
                    },
                    None => Some(canon),
                }
            },
            None => None,
        };
        proof {
            assert(patch_outcome(self@, token@, now, email_opt_view(new_email)) is Ok) by {
                if new_email is Some && has_account_email(
                    self@.accounts,
                    to_lower(new_email->0@),
                ) {
                    let c = to_lower(new_email->0@);
                    let x = crate::store::account_email_idx(self@.accounts, c);
                    if account_by_email(self@.accounts, c).id != account_id {
                        match canon_opt {
                            Some(cs) => {
                                assert(cs@ == c);
                            },
                            None => {},
                        }
                    }
                }
            }
        }
        let hash_opt: Option<String> = match new_password {
            Some(p) => {
                match hash_password(p) {
                    None => {
                        return Err(Error::PasswordHash);
                    },
                    Some(h) => Some(h),
                }
            },
            None => None,
        };
        let ghost db0 = self@;
        let ghost hv: Option<Seq<char>> = string_opt_view(hash_opt);
        let email_new = match canon_opt {
            Some(c) => c,
            None => self.accounts[j].email.clone(),
        };
        let hash_new = match hash_opt {
            Some(h) => h,
            None => self.accounts[j].password_hash.clone(),
        };
        let updated = Account {
            id: self.accounts[j].id,
            email: email_new,
            password_hash: hash_new,
            role: self.accounts[j].role,
        };
        self.accounts[j] = updated;
        proof {
            assert(self@.accounts =~= db0.accounts.update(
                j as int,
                patched_account(db0.accounts[j as int], email_opt_view(new_email), hv),
            ));
            assert(account_id_idx(db0.accounts, account_id) == j as int) by {
                let x = account_id_idx(db0.accounts, account_id);
                if x < j as int {
                    assert(db0.accounts[x].id != db0.accounts[j as int].id);
                } else if (j as int) < x {
                    assert(db0.accounts[j as int].id != db0.accounts[x].id);
                }
            }
            assert(self@ == patch_next(db0, token@, now, email_opt_view(new_email), hv));
            let a2 = patched_account(db0.accounts[j as int], email_opt_view(new_email), hv);
            assert forall|k: int|
                0 <= k < db0.accounts.len() && k != j as int implies (
            #[trigger] db0.accounts[k]).email != a2.email by {
                match new_email {
                    Some(e) => {
                        let c = to_lower(e@);
                        if db0.accounts[k].email == c {
                            assert(has_account_email(db0.accounts, c));
                            let x = crate::store::account_email_idx(db0.accounts, c);
                            if x < k {
                                assert(db0.accounts[x].email != db0.accounts[k].email);
                            } else if k < x {
                                assert(db0.accounts[k].email != db0.accounts[x].email);
                            }
                            assert(account_by_email(db0.accounts, c).id == account_id);
                            assert(db0.accounts[k].id != db0.accounts[j as int].id);
                        }
                    },
                    None => {
                        assert(a2.email == db0.accounts[j as int].email);
                    },
                }
            }
            assert forall|a: int, b: int| 0 <= a < b < self@.accounts.len() implies (
            #[trigger] self@.accounts[a]).email != (#[trigger] self@.accounts[b]).email by {
                if a != j as int && b != j as int {
                    assert(self@.accounts[a] == db0.accounts[a]);
                    assert(self@.accounts[b] == db0.accounts[b]);
                }
            }
            assert forall|a: int, b: int| 0 <= a < b < self@.accounts.len() implies (
            #[trigger] self@.accounts[a]).id != (#[trigger] self@.accounts[b]).id by {
                assert(self@.accounts[a].id == db0.accounts[a].id);
                assert(self@.accounts[b].id == db0.accounts[b].id);
            }
            assert forall|a: int| 0 <= a < self@.accounts.len() implies (
            #[trigger] self@.accounts[a]).id < self@.next_account_id by {
                assert(self@.accounts[a].id == db0.accounts[a].id);
            }
            assert forall|k: int| 0 <= k < self@.sessions.len() implies has_account_id(
                self@.accounts,
                (#[trigger] self@.sessions[k]).account_id,
            ) by {
                assert(has_account_id(db0.accounts, db0.sessions[k].account_id));
                let w = choose|w: int|
                    0 <= w < db0.accounts.len() && (#[trigger] db0.accounts[w]).id
                        == db0.sessions[k].account_id;
                assert(self@.accounts[w].id == db0.sessions[k].account_id);
            }
            if new_password is Some {
                assert(hash_wf(hv->0) && password_matches(new_password->0@, hv->0));
                assert(exists|h: Seq<char>|
                    {
                        &&& hash_wf(h)
                        &&& password_matches(new_password->0@, h)
                        &&& self@ == #[trigger] patch_next(
                            db0,
                            token@,
                            now,
                            email_opt_view(new_email),
                            Some(h),
                        )
                    });
            }
        }
        Ok(())
    }
}

impl Error {
    /// The HTTP status class this error maps to at the boundary.
    pub open spec fn spec_status(self) -> u16 {
        match self {
            Error::NotFound => 404,
            Error::InsufficientPermissions => 403,
            Error::InvalidToken => 401,
            Error::Conflict => 409,
            Error::PasswordHash => 500,
        }
    }

    /// The stable machine-readable code of this error, as the boundary
    /// reports it beside the message.
    pub open spec fn spec_code(self) -> Seq<char> {
        match self {
            Error::NotFound => "USERS_NOT_FOUND"@,
            Error::InsufficientPermissions => "USERS_INSUFFICIENT_PERMISSIONS"@,
            Error::InvalidToken => "USERS_INVALID_TOKEN"@,
            Error::Conflict => "USERS_CONFLICT"@,
            Error::PasswordHash => "USERS_PASSWORD_HASH"@,
        }
    }

    /// The human-readable message of this error.
    pub open spec fn spec_message(self) -> Seq<char> {
        match self {
            Error::NotFound => "Account not found"@,
            Error::InsufficientPermissions => "Insufficient permissions"@,
            Error::InvalidToken => "Invalid session token"@,
            Error::Conflict => "Account already exists"@,
            Error::PasswordHash => "Could not hash password"@,
        }
    }

    /// The HTTP status class this error maps to at the boundary.
    pub fn status(&self) -> (r: u16)
        ensures
            r == self.spec_status(),
    {
        match self {
            Error::NotFound => 404,
            Error::InsufficientPermissions => 403,
            Error::InvalidToken => 401,
            Error::Conflict => 409,
            Error::PasswordHash => 500,
        }
    }

    /// The stable machine-readable code of this error.
    pub fn code(&self) -> (r: &'static str)
        ensures
            r@ == self.spec_code(),
    {
        match self {
            Error::NotFound => "USERS_NOT_FOUND",
            Error::InsufficientPermissions => "USERS_INSUFFICIENT_PERMISSIONS",
            Error::InvalidToken => "USERS_INVALID_TOKEN",
            Error::Conflict => "USERS_CONFLICT",
            Error::PasswordHash => "USERS_PASSWORD_HASH",
        }
    }

    /// The human-readable message of this error.
    pub fn message(&self) -> (r: &'static str)
        ensures
            r@ == self.spec_message(),
    {
        match self {
            Error::NotFound => "Account not found",
            Error::InsufficientPermissions => "Insufficient permissions",
            Error::InvalidToken => "Invalid session token",
            Error::Conflict => "Account already exists",
            Error::PasswordHash => "Could not hash password",
        }
    }
}

} // verus!
