//! The role extractor: resolving a request's session token to a role.
//!
//! A request carries its token in a cookie header; extraction can fail
//! before any lookup (no header at all, or no `session_token` entry in
//! it), and those two failures are kept distinct.  A token resolves to the
//! owning account's role only while its session is unexpired; the sweeper
//! is a safety net, not the authority on expiry.

use crate::role::UserRole;
use crate::store::{
    account_by_id, has_account_id, has_session_token, lemma_account_by_id, lemma_session_by_token,
    session_by_token, AuthDb, DbView,
};
use vstd::prelude::*;

verus! {

/// Why a request could not be validated or authorized.
#[derive(Clone, Copy, Debug, PartialEq, Eq, Structural)]
pub enum Error {
    /// The request carries no cookie header at all.
    NoCookies,
    /// A cookie header is there, but holds no `session_token` entry.
    NoSessionToken,
    /// No unexpired session carries the presented token.
    InvalidToken,
    /// The session is valid but the resolved role is below the required one.
    InsufficientPermissions,
}

/// An unexpired session carries `token` at time `now`.
pub open spec fn token_live(db: DbView, token: Seq<char>, now: u64) -> bool {
    has_session_token(db.sessions, token) && session_by_token(db.sessions, token).expires_at > now
}

/// The account owning the session that carries `token`.
pub open spec fn account_of_token(db: DbView, token: Seq<char>) -> crate::store::AccountView {
    account_by_id(db.accounts, session_by_token(db.sessions, token).account_id)
}

/// The role of the account owning the session that carries `token`.
pub open spec fn role_of_token(db: DbView, token: Seq<char>) -> UserRole {
    account_of_token(db, token).role
}

/// What resolving `token` at `now` yields: the owning account's role while
/// the session is live, `InvalidToken` otherwise.
pub open spec fn get_role_spec(db: DbView, token: Seq<char>, now: u64) -> Result<UserRole, Error> {
    if token_live(db, token, now) {
        Ok(role_of_token(db, token))
    } else {
        Err(Error::InvalidToken)
    }
}

/// The ASCII whitespace the parser strips around one cookie entry.
pub open spec fn is_cookie_space(c: char) -> bool {
    c == ' ' || c == '\t' || c == '\r' || c == '\n'
}

/// `s` without its leading whitespace.
pub open spec fn trim_front(s: Seq<char>) -> Seq<char>
    decreases s.len(),
{
    if s.len() > 0 && is_cookie_space(s[0]) {
        trim_front(s.drop_first())
    } else {
        s
    }
}

/// `s` without its trailing whitespace.
pub open spec fn trim_back(s: Seq<char>) -> Seq<char>
    decreases s.len(),
{
    if s.len() > 0 && is_cookie_space(s.last()) {
        trim_back(s.drop_last())
    } else {
        s
    }
}

/// `s` without whitespace at either end.
pub open spec fn trimmed(s: Seq<char>) -> Seq<char> {
    trim_back(trim_front(s))
}

/// The cookie name the session token travels under, with its separator.
pub open spec fn cookie_prefix() -> Seq<char> {
    "session_token="@
}

/// What one `;`-separated cookie entry contributes: the text after
/// `session_token=` when the trimmed entry starts with it.
pub open spec fn seg_token(seg: Seq<char>) -> Option<Seq<char>> {
    let t = trimmed(seg);
    if t.len() >= cookie_prefix().len() && t.take(cookie_prefix().len() as int) == cookie_prefix() {
        Some(t.skip(cookie_prefix().len() as int))
    } else {
        None
    }
}

/// The position of the first `;` in `s`, or -1.
pub open spec fn find_semi(s: Seq<char>) -> int
    decreases s.len(),
{
    if s.len() == 0 {
        -1
    } else if s[0] == ';' {
        0
    } else {
        let r = find_semi(s.drop_first());
        if r == -1 {
            -1
        } else {
            r + 1
        }
    }
}

/// The token carried by a cookie header: what the first entry that names
/// `session_token` holds after the `=`.
pub open spec fn extract_cookie_token(s: Seq<char>) -> Option<Seq<char>>
    decreases s.len(),
{
    let k = find_semi(s);
    if 0 <= k < s.len() {
        match seg_token(s.take(k)) {
            Some(t) => Some(t),
            None => extract_cookie_token(s.skip(k + 1)),
        }
    } else {
        seg_token(s)
    }
}

/// A `;` at `k` with none before it is the first one.
proof fn lemma_find_semi_at(s: Seq<char>, k: int)
    requires
        0 <= k < s.len(),
        s[k] == ';',
        forall|i: int| 0 <= i < k ==> s[i] != ';',
    ensures
        find_semi(s) == k,
    decreases k,
{
    if k == 0 {
    } else {
        assert(forall|i: int| 0 <= i < s.drop_first().len() ==> s.drop_first()[i] == s[i + 1]);
        lemma_find_semi_at(s.drop_first(), k - 1);
    }
}

/// Without any `;`, nothing is found.
proof fn lemma_find_semi_none(s: Seq<char>)
    requires
        forall|i: int| 0 <= i < s.len() ==> s[i] != ';',
    ensures
        find_semi(s) == -1,
    decreases s.len(),
{
    if s.len() == 0 {
    } else {
        assert(forall|i: int| 0 <= i < s.drop_first().len() ==> s.drop_first()[i] == s[i + 1]);
        lemma_find_semi_none(s.drop_first());
    }
}

/// Trimming the front drops exactly the leading whitespace.
proof fn lemma_trim_front_skip(s: Seq<char>, k: int)
    requires
        0 <= k <= s.len(),
        forall|i: int| 0 <= i < k ==> is_cookie_space(s[i]),
        k == s.len() || !is_cookie_space(s[k]),
    ensures
        trim_front(s) == s.skip(k),
    decreases k,
{
    if k == 0 {
        assert(s.skip(0) =~= s);
    } else {
        assert(forall|i: int| 0 <= i < s.drop_first().len() ==> s.drop_first()[i] == s[i + 1]);
        lemma_trim_front_skip(s.drop_first(), k - 1);
        assert(s.drop_first().skip(k - 1) =~= s.skip(k));
    }
}

/// Trimming the back drops exactly the trailing whitespace.
proof fn lemma_trim_back_take(s: Seq<char>, k: int)
    requires
        0 <= k <= s.len(),
        forall|i: int| k <= i < s.len() ==> is_cookie_space(s[i]),
        k == 0 || !is_cookie_space(s[k - 1]),
    ensures
        trim_back(s) == s.take(k),
    decreases s.len(),
{
    if k == s.len() {
        assert(s.take(k) =~= s);
    } else {
        assert(is_cookie_space(s.last()));
        assert(forall|i: int| 0 <= i < s.drop_last().len() ==> s.drop_last()[i] == s[i]);
        lemma_trim_back_take(s.drop_last(), k);
        assert(s.drop_last().take(k) =~= s.take(k));
    }
}

/// Whether the parser treats this character as whitespace.
fn is_space_char(c: char) -> (r: bool)
    ensures
        r == is_cookie_space(c),
{
    c == ' ' || c == '\t' || c == '\r' || c == '\n'
}

/// Pulls the session token out of a request's cookie header, exactly as
/// the header's first `session_token=` entry carries it: no header at all
/// and a header without the entry are reported apart.
pub fn extract_session_token(cookie_header: Option<&str>) -> (r: Result<String, Error>)
    ensures
        (match cookie_header {
            None => r == Err::<String, Error>(Error::NoCookies),
            Some(h) => (match extract_cookie_token(h@) {
                Some(t) => (match r {
                    Ok(s) => s@ == t,
                    Err(_) => false,
                }),
                None => r == Err::<String, Error>(Error::NoSessionToken),
            }),
        }),
{
    let h = match cookie_header {
        None => {
            return Err(Error::NoCookies);
        },
        Some(h) => h,
    };
    let n = h.unicode_len();
    let prefix = "session_token=";
    proof {
        reveal_strlit("session_token=");
        assert(h@.skip(0) =~= h@);
    }
    let mut pos: usize = 0;
    loop
        invariant
            cookie_header == Some(h),
            pos <= n,
            n == h@.len(),
            extract_cookie_token(h@) == extract_cookie_token(h@.skip(pos as int)),
            prefix@ == cookie_prefix(),
            prefix@.len() == 14,
        decreases n - pos,
    {
        let ghost suf = h@.skip(pos as int);
        // The current entry runs to the next `;` or the end.
        let mut j: usize = pos;
        while j < n && h.get_char(j) != ';'
            invariant
                pos <= j <= n,
                n == h@.len(),
                forall|i: int| pos <= i < j ==> h@[i] != ';',
            decreases n - j,
        {
            j = j + 1;
        }
        proof {
            assert(forall|i: int| 0 <= i < suf.len() ==> suf[i] == h@[pos + i]);
            if j < n {
                lemma_find_semi_at(suf, j - pos);
            } else {
                lemma_find_semi_none(suf);
            }
        }
        let ghost seg = if j < n {
            suf.take(j - pos)
        } else {
            suf
        };
        proof {
            assert(seg =~= h@.subrange(pos as int, j as int));
        }
        // Trim whitespace off both ends of the entry.
        let mut ts: usize = pos;
        while ts < j && is_space_char(h.get_char(ts))
            invariant
                pos <= ts <= j <= n,
                n == h@.len(),
                forall|i: int| pos <= i < ts ==> is_cookie_space(h@[i]),
            decreases j - ts,
        {
            ts = ts + 1;
        }
        let mut te: usize = j;
        while te > ts && is_space_char(h.get_char(te - 1))
            invariant
                ts <= te <= j <= n,
                n == h@.len(),
                forall|i: int| te <= i < j ==> is_cookie_space(h@[i]),
            decreases te,
        {
            te = te - 1;
        }
        proof {
            assert(forall|i: int| 0 <= i < seg.len() ==> seg[i] == h@[pos + i]);
            lemma_trim_front_skip(seg, ts - pos);
            let fr = seg.skip(ts - pos);
            assert(forall|i: int| 0 <= i < fr.len() ==> fr[i] == h@[ts + i]);
            lemma_trim_back_take(fr, te - ts);
            assert(trimmed(seg) =~= h@.subrange(ts as int, te as int));
        }
        // Does the trimmed entry start with `session_token=`?
        let mut matched = false;
        if te - ts >= 14 {
            let mut q: usize = 0;
            while q < 14 && h.get_char(ts + q) == prefix.get_char(q)
                invariant
                    0 <= q <= 14,
                    ts + 14 <= te <= n,
                    n == h@.len(),
                    prefix@.len() == 14,
                    prefix@ == cookie_prefix(),
                    forall|i: int| 0 <= i < q ==> h@[ts + i] == prefix@[i],
                decreases 14 - q,
            {
                q = q + 1;
            }
            matched = q == 14;
            proof {
                let t = trimmed(seg);
                if q == 14 {
                    assert(t.take(14) =~= cookie_prefix());
                } else {
                    assert(t.take(14)[q as int] != cookie_prefix()[q as int]);
                    assert(t.take(14) != cookie_prefix());
                }
            }
        } else {
            proof {
                assert(trimmed(seg).len() < cookie_prefix().len());
            }
        }
        if matched {
            let tok = h.substring_char(ts + 14, te).to_owned();
            proof {
                let t = trimmed(seg);
                assert(t.skip(14) =~= h@.subrange(ts + 14, te as int));
                assert(seg_token(seg) == Some(tok@));
                if j < n {
                    assert(extract_cookie_token(suf) == Some(tok@));
                } else {
                    assert(find_semi(suf) == -1);
                    assert(extract_cookie_token(suf) == Some(tok@));
                }
            }
            return Ok(tok);
        }
        proof {
            assert(seg_token(seg) is None);
        }
        if j == n {
            proof {
                assert(extract_cookie_token(suf) == seg_token(suf));
            }
            return Err(Error::NoSessionToken);
        }
        proof {
            assert(find_semi(suf) == j - pos);
            assert(suf.skip((j - pos) + 1) =~= h@.skip(j + 1));
            assert(extract_cookie_token(suf) == extract_cookie_token(h@.skip(j + 1)));
        }
        pos = j + 1;
    }
}

/// The role comparison every protected operation runs on its requester.
pub fn require_role(requester: UserRole, required: UserRole) -> (r: Result<(), Error>)
    ensures
        r == (if requester.spec_at_least(required) {
            Result::<(), Error>::Ok(())
        } else {
            Result::<(), Error>::Err(Error::InsufficientPermissions)
        }),
{
    if requester.at_least(required) {
        Ok(())
    } else {
        Err(Error::InsufficientPermissions)
    }
}

impl AuthDb {
    /// Resolves a session token to the owning account's role.  A token
    /// whose session has expired is invalid even if not yet swept.
    pub fn get_role(&self, token: &str, now: u64) -> (r: Result<UserRole, Error>)
        requires
            self@.wf(),
        ensures
            r == get_role_spec(self@, token@, now),
    {
        match self.find_session_by_token(token) {
            None => Err(Error::InvalidToken),
            Some(i) => {
                proof {
                    lemma_session_by_token(self@.sessions, i as int);
                }
                if self.sessions[i].expires_at > now {
                    let account_id = self.sessions[i].account_id;
                    proof {
                        assert(has_account_id(self@.accounts, account_id));
                    }
                    match self.find_account_by_id(account_id) {
                        Some(j) => {
                            proof {
                                lemma_account_by_id(self@.accounts, j as int);
                            }
                            Ok(self.accounts[j].role)
                        },
                        None => {
                            proof {
                                assert(false);
                            }
                            Err(Error::InvalidToken)
                        },
                    }
                } else {
                    Err(Error::InvalidToken)
                }
            },
        }
    }

    /// Whether the presented token names a live session at all.
    pub fn validate(&self, token: &str, now: u64) -> (r: Result<(), Error>)
        requires
            self@.wf(),
        ensures
            r == (if token_live(self@, token@, now) {
                Result::<(), Error>::Ok(())
            } else {
                Result::<(), Error>::Err(Error::InvalidToken)
            }),
    {
        match self.find_session_by_token(token) {
            None => Err(Error::InvalidToken),
            Some(i) => {
                proof {
                    lemma_session_by_token(self@.sessions, i as int);
                }
                if self.sessions[i].expires_at > now {
                    Ok(())
                } else {
                    Err(Error::InvalidToken)
                }
            },
        }
    }
}

impl Error {
    /// The HTTP status class this error maps to at the boundary.
    pub open spec fn spec_status(self) -> u16 {
        match self {
            Error::NoCookies => 401,
            Error::NoSessionToken => 401,
            Error::InvalidToken => 401,
            Error::InsufficientPermissions => 403,
        }
    }

    /// The stable machine-readable code of this error, as the boundary
    /// reports it beside the message.
    pub open spec fn spec_code(self) -> Seq<char> {
        match self {
            Error::NoCookies => "VALIDATE_NO_COOKIES"@,
            Error::NoSessionToken => "VALIDATE_NO_SESSION_TOKEN"@,
            Error::InvalidToken => "VALIDATE_INVALID_TOKEN"@,
            Error::InsufficientPermissions => "VALIDATE_INSUFFICIENT_PERMISSIONS"@,
        }
    }

    /// The human-readable message of this error.
    pub open spec fn spec_message(self) -> Seq<char> {
        match self {
            Error::NoCookies => "Cookies not found"@,
            Error::NoSessionToken => "session_token cookie not found"@,
            Error::InvalidToken => "Invalid session token"@,
            Error::InsufficientPermissions => "Insufficient permissions"@,
        }
    }

    /// The HTTP status class this error maps to at the boundary.
    pub fn status(&self) -> (r: u16)
        ensures
            r == self.spec_status(),
    {
        match self {
            Error::NoCookies => 401,
            Error::NoSessionToken => 401,
            Error::InvalidToken => 401,
            Error::InsufficientPermissions => 403,
        }
    }

    /// The stable machine-readable code of this error.
    pub fn code(&self) -> (r: &'static str)
        ensures
            r@ == self.spec_code(),
    {
        match self {
            Error::NoCookies => "VALIDATE_NO_COOKIES",
            Error::NoSessionToken => "VALIDATE_NO_SESSION_TOKEN",
            Error::InvalidToken => "VALIDATE_INVALID_TOKEN",
            Error::InsufficientPermissions => "VALIDATE_INSUFFICIENT_PERMISSIONS",
        }
    }

    /// The human-readable message of this error.
    pub fn message(&self) -> (r: &'static str)
        ensures
            r@ == self.spec_message(),
    {
        match self {
            Error::NoCookies => "Cookies not found",
            Error::NoSessionToken => "session_token cookie not found",
            Error::InvalidToken => "Invalid session token",
            Error::InsufficientPermissions => "Insufficient permissions",
        }
    }
}

} // verus!
