//! The session sweeper: bulk deletion of expired sessions.
//!
//! A background task runs this on a fixed interval.  It is housekeeping
//! only -- validation filters by expiry anyway -- but it bounds the growth
//! of the session table.  Each run deletes every session whose expiry has
//! passed and reports how many rows went.

use crate::store::{has_account_id, tokens_unique, AuthDb, DbView, Session, SessionView};
use vstd::prelude::*;

verus! {

/// The rows of a session table that are still live at `now`.
pub open spec fn live_sessions(s: Seq<SessionView>, now: u64) -> Seq<SessionView> {
    s.filter(|sv: SessionView| sv.expires_at >= now)
}

/// The store after one sweep at `now`: only the session table changes.
pub open spec fn sweep_next(db: DbView, now: u64) -> DbView {
    DbView { sessions: live_sessions(db.sessions, now), ..db }
}

/// Sweeping keeps tokens unique, introduces no row that was not there
/// before, and keeps only live rows.
pub(crate) proof fn lemma_live_sessions_wf(s: Seq<SessionView>, now: u64)
    requires
        tokens_unique(s),
    ensures
        tokens_unique(live_sessions(s, now)),
        forall|k: int|
            0 <= k < live_sessions(s, now).len() ==> exists|j: int|
                0 <= j < s.len() && #[trigger] live_sessions(s, now)[k] == s[j],
        forall|k: int|
            0 <= k < live_sessions(s, now).len() ==> (#[trigger] live_sessions(
                s,
                now,
            )[k]).expires_at >= now,
    decreases s.len(),
{
    reveal_with_fuel(Seq::filter, 2);
    if s.len() == 0 {
    } else {
        let dl = s.drop_last();
        let fdl = live_sessions(dl, now);
        lemma_live_sessions_wf(dl, now);
        assert(forall|j: int| 0 <= j < dl.len() ==> dl[j] == s[j]);
        if s.last().expires_at >= now {
            assert(live_sessions(s, now) == fdl.push(s.last()));
            assert forall|k: int, l: int| 0 <= k < l < live_sessions(s, now).len() implies (
            #[trigger] live_sessions(s, now)[k]).token != (
            #[trigger] live_sessions(s, now)[l]).token by {
                if l < fdl.len() {
                } else {
                    assert(live_sessions(s, now)[l] == s.last());
                    let j = choose|j: int| 0 <= j < dl.len() && fdl[k] == dl[j];
                    assert(s[j].token != s[s.len() - 1].token);
                }
            }
        } else {
            assert(live_sessions(s, now) == fdl);
        }
    }
}

impl Session {
    /// A field-for-field copy of the row.
    pub(crate) fn clone_row(&self) -> (r: Session)
        ensures
            r@ == self@,
    {
        Session {
            token: self.token.clone(),
            account_id: self.account_id,
            expires_at: self.expires_at,
        }
    }
}

impl AuthDb {
    /// Deletes every session whose `expires_at` has passed and returns the
    /// number of rows deleted.
    pub fn cleanup_expired_sessions(&mut self, now: u64) -> (removed: u64)
        requires
            old(self)@.wf(),
        ensures
            final(self)@ == sweep_next(old(self)@, now),
            final(self)@.wf(),
            removed as int == old(self)@.sessions.len() - final(self)@.sessions.len(),
    {
        let ghost all = self@.sessions;
        let n = self.sessions.len();
        let mut kept: Vec<Session> = Vec::new();
        let mut i: usize = 0;
        proof {
            assert(all.take(0) =~= Seq::<SessionView>::empty());
            assert(live_sessions(all.take(0), now) =~= Seq::<SessionView>::empty()) by {
                reveal_with_fuel(Seq::filter, 2);
            }
            assert(kept@.map_values(|s: Session| s@) =~= Seq::<SessionView>::empty());
        }
        while i < n
            invariant
                i <= n,
                n == self.sessions@.len(),
                all == self@.sessions,
                self@.sessions == self.sessions@.map_values(|s: Session| s@),
                kept@.map_values(|s: Session| s@) == live_sessions(all.take(i as int), now),
                kept@.len() <= i,
            decreases n - i,
        {
            let ghost prev = kept@.map_values(|s: Session| s@);
            proof {
                assert(all[i as int] == self.sessions@[i as int]@);
            }
            if self.sessions[i].expires_at >= now {
                kept.push(self.sessions[i].clone_row());
                proof {
                    assert(kept@.map_values(|s: Session| s@) =~= prev.push(all[i as int]));
                }
            }
            proof {
                let t1 = all.take(i + 1);
                assert(t1.drop_last() =~= all.take(i as int));
                assert(t1.last() == all[i as int]);
                assert(live_sessions(t1, now) == (if all[i as int].expires_at >= now {
                    live_sessions(all.take(i as int), now).push(all[i as int])
                } else {
                    live_sessions(all.take(i as int), now)
                })) by {
                    reveal_with_fuel(Seq::filter, 2);
                }
                assert(kept@.map_values(|s: Session| s@) == live_sessions(all.take(i + 1), now));
            }
            i = i + 1;
        }
        proof {
            assert(all.take(n as int) =~= all);
        }
        let removed = (n - kept.len()) as u64;
        self.sessions = kept;
        proof {
            lemma_live_sessions_wf(all, now);
            assert(self@.sessions == live_sessions(all, now));
            assert(self@ == sweep_next(old(self)@, now));
            assert forall|k: int| 0 <= k < self@.sessions.len() implies has_account_id(
                self@.accounts,
                (#[trigger] self@.sessions[k]).account_id,
            ) by {
                assert(live_sessions(all, now)[k] == self@.sessions[k]);
                let j = choose|j: int|
                    0 <= j < all.len() && #[trigger] live_sessions(all, now)[k] == all[j];
                assert(has_account_id(old(self)@.accounts, all[j].account_id));
            }
        }
        removed
    }
}

} // verus!
