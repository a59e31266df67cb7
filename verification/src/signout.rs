//! Signout: deleting the session a request's token names.
//!
//! Deletion is unconditional: when no session carries the token, signout
//! still succeeds, so calling it again with a now-invalid token is
//! harmless.  The caller-facing layer is expected to clear the transported
//! credential in either case.

use crate::store::{has_account_id, tokens_unique, AuthDb, DbView, SessionView};
use vstd::prelude::*;

verus! {

/// The session table without every row carrying `token`.
pub open spec fn without_token(s: Seq<SessionView>, token: Seq<char>) -> Seq<SessionView> {
    s.filter(|sv: SessionView| sv.token != token)
}

/// The store after a signout with `token`: only the session table changes.
pub open spec fn signout_next(db: DbView, token: Seq<char>) -> DbView {
    DbView { sessions: without_token(db.sessions, token), ..db }
}

/// Dropping rows for one token touches no row without that token.
proof fn lemma_without_token_no_match(s: Seq<SessionView>, token: Seq<char>)
    requires
        forall|i: int| 0 <= i < s.len() ==> (#[trigger] s[i]).token != token,
    ensures
        without_token(s, token) == s,
    decreases s.len(),
{
    reveal_with_fuel(Seq::filter, 2);
    if s.len() == 0 {
    } else {
        let dl = s.drop_last();
        assert(forall|j: int| 0 <= j < dl.len() ==> dl[j] == s[j]);
        lemma_without_token_no_match(dl, token);
        assert(without_token(s, token) =~= s);
    }
}

/// With unique tokens, dropping the rows for a present token is removing
/// its one row.
proof fn lemma_without_token_remove(s: Seq<SessionView>, i: int, token: Seq<char>)
    requires
        tokens_unique(s),
        0 <= i < s.len(),
        s[i].token == token,
    ensures
        without_token(s, token) == s.remove(i),
    decreases s.len(),
{
    reveal_with_fuel(Seq::filter, 2);
    let dl = s.drop_last();
    assert(forall|j: int| 0 <= j < dl.len() ==> dl[j] == s[j]);
    if i == s.len() - 1 {
        lemma_without_token_no_match(dl, token);
        assert(s.remove(i) =~= dl);
    } else {
        lemma_without_token_remove(dl, i, token);
        assert(s.remove(i) =~= dl.remove(i).push(s.last()));
    }
}

impl AuthDb {
    /// Deletes the session carrying `token`; when none does, the store is
    /// unchanged and the call still succeeds.
    pub fn signout(&mut self, token: &str)
        requires
            old(self)@.wf(),
        ensures
            final(self)@ == signout_next(old(self)@, token@),
            final(self)@.wf(),
    {
        match self.find_session_by_token(token) {
            Some(i) => {
                self.sessions.remove(i);
                proof {
                    lemma_without_token_remove(old(self)@.sessions, i as int, token@);
                    assert(self@.sessions =~= old(self)@.sessions.remove(i as int));
                    assert(self@ == signout_next(old(self)@, token@));
                    assert forall|k: int, l: int|
                        0 <= k < l < self@.sessions.len() implies (
                    #[trigger] self@.sessions[k]).token != (
                    #[trigger] self@.sessions[l]).token by {
                        assert(self@.sessions[k] == if k < i as int {
                            old(self)@.sessions[k]
                        } else {
                            old(self)@.sessions[k + 1]
                        });
                        assert(self@.sessions[l] == if l < i as int {
                            old(self)@.sessions[l]
                        } else {
                            old(self)@.sessions[l + 1]
                        });
                    }
                    assert forall|k: int| 0 <= k < self@.sessions.len() implies has_account_id(
                        self@.accounts,
                        (#[trigger] self@.sessions[k]).account_id,
                    ) by {
                        assert(self@.sessions[k] == if k < i as int {
                            old(self)@.sessions[k]
                        } else {
                            old(self)@.sessions[k + 1]
                        });
                    }
                }
            },
            None => {
                proof {
                    lemma_without_token_no_match(old(self)@.sessions, token@);
                    assert(self@ == signout_next(old(self)@, token@));
                }
            },
        }
    }
}

} // verus!
