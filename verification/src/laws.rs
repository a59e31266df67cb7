//! Laws of the authentication core, proved over the same transition
//! functions the operations' contracts are stated with.
//!
//! Each law is a public proof function: its doc comment states the claim
//! in words, its `ensures` states it exactly.  The sequential transitions
//! here are what the store's row-level atomicity serializes concurrent
//! requests into, so a law about two consecutive steps covers two racing
//! ones in whichever order the store commits them.

use crate::invite::invite_allowed;
use crate::password::{hash_wf, password_matches};
use crate::role::UserRole;
use crate::signin::{session_expiry, signin_next, signin_outcome, Error as SigninError};
use crate::signout::{signout_next, without_token};
use crate::signup::{signup_next, signup_outcome, Error as SignupError};
use crate::store::{
    account_by_email, account_by_id, has_account_email, has_invite_code, has_session_token,
    invite_by_code, session_by_token, DbView, SessionView, SESSION_TOKEN_MAX_AGE_SECS,
};
use crate::text::to_lower;
use crate::validate;
use crate::validate::get_role_spec;
use vstd::prelude::*;

verus! {

/// For all valid credentials and a role-granting invite code: a signup
/// that succeeds, followed by a signin with the same email and password
/// and a fresh token, succeeds, and the issued session resolves to
/// exactly the role the invite granted, for as long as the session lives.
pub proof fn lemma_signup_then_signin(
    db: DbView,
    email: Seq<char>,
    password: Seq<char>,
    hash: Seq<char>,
    code: Seq<char>,
    token: Seq<char>,
    now1: u64,
    now2: u64,
    now3: u64,
)
    requires
        db.wf(),
        now2 + SESSION_TOKEN_MAX_AGE_SECS <= u64::MAX,
        now3 < now2 + SESSION_TOKEN_MAX_AGE_SECS,
    ensures
        ({
            let db1 = signup_next(db, email, hash, code, now1);
            let db2 = signin_next(db1, email, password, token, now2);
            (signup_outcome(db, email, code, now1) is Ok && hash_wf(hash) && password_matches(
                password,
                hash,
            ) && !has_session_token(db.sessions, token)) ==> {
                &&& signin_outcome(db1, email, password, token) is Ok
                &&& get_role_spec(db2, token, now3) == Ok::<UserRole, validate::Error>(
                    invite_by_code(db.invites, code).role,
                )
            }
        }),
{
    if signup_outcome(db, email, code, now1) is Ok && hash_wf(hash) && password_matches(
        password,
        hash,
    ) && !has_session_token(db.sessions, token) {
        let canon = to_lower(email);
        let db1 = signup_next(db, email, hash, code, now1);
        let newa = db1.accounts.last();
        assert(newa.email == canon && newa.password_hash == hash);
        assert(has_account_email(db1.accounts, canon));
        let w = choose|w: int|
            0 <= w < db1.accounts.len() && (#[trigger] db1.accounts[w]).email == canon;
        if w < db1.accounts.len() - 1 {
            assert(db.accounts[w].email == canon);
            assert(has_account_email(db.accounts, canon));
        }
        assert(account_by_email(db1.accounts, canon) == newa);
        assert(signin_outcome(db1, email, password, token) is Ok);
        let db2 = signin_next(db1, email, password, token, now2);
        let news = db2.sessions.last();
        assert(news.token == token && news.account_id == newa.id && news.expires_at
            == session_expiry(now2));
        assert(has_session_token(db2.sessions, token));
        let v = choose|v: int|
            0 <= v < db2.sessions.len() && (#[trigger] db2.sessions[v]).token == token;
        if v < db2.sessions.len() - 1 {
            assert(db.sessions[v].token == token);
            assert(has_session_token(db.sessions, token));
        }
        assert(session_by_token(db2.sessions, token) == news);
        assert(news.expires_at > now3);
        assert(validate::token_live(db2, token, now3));
        let u = choose|u: int|
            0 <= u < db2.accounts.len() && (#[trigger] db2.accounts[u]).id == newa.id;
        assert(db2.accounts == db1.accounts);
        if u < db2.accounts.len() - 1 {
            assert(db.accounts[u].id < db.next_account_id);
        }
        assert(account_by_id(db2.accounts, newa.id) == newa);
        assert(newa.role == invite_by_code(db.invites, code).role);
    }
}

/// For every invite code, at most one redemption succeeds: once a signup
/// has consumed the code, every later attempt with it -- whatever email
/// it brings and however soon it follows -- reads the invite as expired.
pub proof fn lemma_invite_single_use(
    db: DbView,
    email1: Seq<char>,
    email2: Seq<char>,
    hash: Seq<char>,
    code: Seq<char>,
    now1: u64,
    now2: u64,
)
    requires
        db.wf(),
        now1 <= now2,
    ensures
        ({
            let db1 = signup_next(db, email1, hash, code, now1);
            signup_outcome(db, email1, code, now1) is Ok ==> signup_outcome(
                db1,
                email2,
                code,
                now2,
            ) == Err::<(), SignupError>(SignupError::ExpiredInvite)
        }),
{
    if signup_outcome(db, email1, code, now1) is Ok {
        let db1 = signup_next(db, email1, hash, code, now1);
        let k = crate::store::invite_code_idx(db.invites, code);
        assert(db1.invites[k].code == code && db1.invites[k].expires_at == now1);
        assert(has_invite_code(db1.invites, code));
        let w = choose|w: int|
            0 <= w < db1.invites.len() && (#[trigger] db1.invites[w]).code == code;
        if w != k {
            assert(db.invites[w].code == code && db.invites[k].code == code);
        }
        assert(invite_by_code(db1.invites, code) == db1.invites[k]);
        assert(invite_by_code(db1.invites, code).expires_at <= now2);
    }
}

/// A signup that fails on a duplicate email changes nothing and leaves
/// the invite redeemable: a later signup with the same code and a free
/// email, before the invite's expiry, succeeds.
pub proof fn lemma_conflict_keeps_invite(
    db: DbView,
    email: Seq<char>,
    email2: Seq<char>,
    hash: Seq<char>,
    code: Seq<char>,
    now: u64,
    now2: u64,
)
    ensures
        signup_outcome(db, email, code, now) == Err::<(), SignupError>(SignupError::Conflict)
            ==> {
            &&& signup_next(db, email, hash, code, now) == db
            &&& has_invite_code(db.invites, code)
            &&& invite_by_code(db.invites, code).expires_at > now
            &&& (!has_account_email(db.accounts, to_lower(email2)) && invite_by_code(
                db.invites,
                code,
            ).expires_at > now2 ==> signup_outcome(db, email2, code, now2) is Ok)
        },
{
}

/// Signin with a wrong password always reports `IncorrectPassword` and
/// creates no session row: the store is exactly what it was.
pub proof fn lemma_wrong_password(
    db: DbView,
    email: Seq<char>,
    password: Seq<char>,
    token: Seq<char>,
    now: u64,
)
    ensures
        ({
            let canon = to_lower(email);
            (has_account_email(db.accounts, canon) && hash_wf(
                account_by_email(db.accounts, canon).password_hash,
            ) && !password_matches(password, account_by_email(db.accounts, canon).password_hash))
                ==> {
                &&& signin_outcome(db, email, password, token) == Err::<(), SigninError>(
                    SigninError::IncorrectPassword,
                )
                &&& signin_next(db, email, password, token, now) == db
            }
        }),
{
}

/// A session whose expiry has passed is invalid to the role extractor,
/// whether or not the sweeper has removed the row yet.
pub proof fn lemma_expired_session_invalid(db: DbView, token: Seq<char>, now: u64)
    ensures
        (has_session_token(db.sessions, token) && session_by_token(db.sessions, token).expires_at
            <= now) ==> get_role_spec(db, token, now) == Err::<UserRole, validate::Error>(
            validate::Error::InvalidToken,
        ),
{
}

/// Role comparisons are strict: an `Editor` fails every gate of `Admin`
/// or above, and invites are minted only by a `SuperAdmin` and never for
/// the `SuperAdmin` role itself.
pub proof fn lemma_role_gates_strict()
    ensures
        !UserRole::Editor.spec_at_least(UserRole::Admin),
        !UserRole::Editor.spec_at_least(UserRole::SuperAdmin),
        invite_allowed(UserRole::SuperAdmin, UserRole::Editor),
        invite_allowed(UserRole::SuperAdmin, UserRole::Admin),
        !invite_allowed(UserRole::SuperAdmin, UserRole::SuperAdmin),
        forall|requester: UserRole, target: UserRole|
            #[trigger] invite_allowed(requester, target) ==> requester == UserRole::SuperAdmin
                && target != UserRole::SuperAdmin,
{
}

/// A row that is live at sweep time survives the sweep.
proof fn lemma_live_sessions_keeps(s: Seq<SessionView>, now: u64, i: int)
    requires
        0 <= i < s.len(),
        s[i].expires_at >= now,
    ensures
        exists|k: int|
            0 <= k < crate::sweeper::live_sessions(s, now).len()
                && #[trigger] crate::sweeper::live_sessions(s, now)[k] == s[i],
    decreases s.len(),
{
    reveal_with_fuel(Seq::filter, 2);
    let f = crate::sweeper::live_sessions(s, now);
    let dl = s.drop_last();
    let fdl = crate::sweeper::live_sessions(dl, now);
    if i == s.len() - 1 {
        assert(f == fdl.push(s.last()));
        assert(f[f.len() - 1] == s[i]);
    } else {
        assert(forall|j: int| 0 <= j < dl.len() ==> dl[j] == s[j]);
        lemma_live_sessions_keeps(dl, now, i);
        let k = choose|k: int| 0 <= k < fdl.len() && #[trigger] fdl[k] == dl[i];
        if s.last().expires_at >= now {
            assert(f == fdl.push(s.last()));
        } else {
            assert(f == fdl);
        }
        assert(f[k] == s[i]);
    }
}

/// A membership account of sweeping: a token is found among the live rows
/// exactly when its row was there and live, and it is then the same row.
proof fn lemma_live_sessions_member(s: Seq<SessionView>, now: u64, token: Seq<char>)
    requires
        crate::store::tokens_unique(s),
    ensures
        has_session_token(crate::sweeper::live_sessions(s, now), token) <==> (has_session_token(
            s,
            token,
        ) && session_by_token(s, token).expires_at >= now),
        has_session_token(crate::sweeper::live_sessions(s, now), token) ==> session_by_token(
            crate::sweeper::live_sessions(s, now),
            token,
        ) == session_by_token(s, token),
{
    let f = crate::sweeper::live_sessions(s, now);
    crate::sweeper::lemma_live_sessions_wf(s, now);
    if has_session_token(f, token) {
        let u = choose|u: int| 0 <= u < f.len() && (#[trigger] f[u]).token == token;
        assert(f[u].expires_at >= now);
        let j = choose|j: int| 0 <= j < s.len() && #[trigger] f[u] == s[j];
        crate::store::lemma_session_by_token(s, j);
        crate::store::lemma_session_by_token(f, u);
        assert(session_by_token(f, token) == f[u]);
        assert(session_by_token(s, token) == s[j]);
        assert(has_session_token(s, token) && session_by_token(s, token).expires_at >= now);
    }
    if has_session_token(s, token) && session_by_token(s, token).expires_at >= now {
        let i = choose|i: int| 0 <= i < s.len() && (#[trigger] s[i]).token == token;
        crate::store::lemma_session_by_token(s, i);
        lemma_live_sessions_keeps(s, now, i);
        let k = choose|k: int| 0 <= k < f.len() && #[trigger] f[k] == s[i];
        assert(f[k].token == token);
        assert(has_session_token(f, token));
    }
}

/// The sweeper is housekeeping, not authority: a sweep at or before the
/// time of a later lookup changes nothing about what any token resolves
/// to.  Expiry filtering at lookup time already hides what it removes.
pub proof fn lemma_sweep_preserves_resolution(db: DbView, sweep_at: u64, token: Seq<char>, now: u64)
    requires
        db.wf(),
        sweep_at <= now,
    ensures
        get_role_spec(crate::sweeper::sweep_next(db, sweep_at), token, now) == get_role_spec(
            db,
            token,
            now,
        ),
{
    let db1 = crate::sweeper::sweep_next(db, sweep_at);
    lemma_live_sessions_member(db.sessions, sweep_at, token);
    if validate::token_live(db, token, now) {
        assert(session_by_token(db.sessions, token).expires_at >= sweep_at);
        assert(validate::token_live(db1, token, now));
        assert(session_by_token(db1.sessions, token) == session_by_token(db.sessions, token));
    } else {
        if has_session_token(db1.sessions, token) {
            assert(session_by_token(db1.sessions, token) == session_by_token(db.sessions, token));
        }
        assert(!validate::token_live(db1, token, now));
    }
}

/// No row of a token-filtered table carries that token.
proof fn lemma_without_token_absent(s: Seq<SessionView>, token: Seq<char>)
    ensures
        forall|i: int|
            0 <= i < without_token(s, token).len() ==> (#[trigger] without_token(s, token)[i]).token
                != token,
    decreases s.len(),
{
    reveal_with_fuel(Seq::filter, 2);
    if s.len() == 0 {
    } else {
        lemma_without_token_absent(s.drop_last(), token);
    }
}

/// Rows without the token pass the filter untouched.
proof fn lemma_without_token_fixed(s: Seq<SessionView>, token: Seq<char>)
    requires
        forall|i: int| 0 <= i < s.len() ==> (#[trigger] s[i]).token != token,
    ensures
        without_token(s, token) == s,
    decreases s.len(),
{
    reveal_with_fuel(Seq::filter, 2);
    if s.len() == 0 {
    } else {
        let dl = s.drop_last();
        assert(forall|j: int| 0 <= j < dl.len() ==> dl[j] == s[j]);
        lemma_without_token_fixed(dl, token);
        assert(without_token(s, token) =~= s);
    }
}

/// Signout is idempotent: a second signout with the same, now-invalid
/// token succeeds and changes nothing further.
pub proof fn lemma_signout_idempotent(db: DbView, token: Seq<char>)
    ensures
        signout_next(signout_next(db, token), token) == signout_next(db, token),
{
    let once = without_token(db.sessions, token);
    lemma_without_token_absent(db.sessions, token);
    lemma_without_token_fixed(once, token);
}

} // verus!
