//! What holds of every run: planned commands follow declaration order, live
//! windows are never touched, each window is created at most once, and a
//! second run against the resulting state plans nothing.

use vstd::prelude::*;

use crate::config::{Config, Session, Window};
use crate::reconcile::{declared_windows, plan, startup_plan, state_after_window, window_exists, window_plan};
use crate::state::LiveView;

verus! {

proof fn lemma_after_window_keeps(session: Seq<char>, window: Seq<char>, st: LiveView, s2: Seq<char>, w2: Seq<char>)
    requires
        window_exists(st, s2, w2),
    ensures
        window_exists(state_after_window(session, window, st), s2, w2),
{
    let next = state_after_window(session, window, st);
    if !window_exists(st, session, window) && st.contains_key(session) && s2 == session {
        let k = choose|k: int| 0 <= k < st[s2].len() && st[s2][k] == w2;
        assert(next[s2][k] == w2);
    }
}

proof fn lemma_after_window_adds(session: Seq<char>, window: Seq<char>, st: LiveView)
    ensures
        window_exists(state_after_window(session, window, st), session, window),
{
    let next = state_after_window(session, window, st);
    if !window_exists(st, session, window) {
        if st.contains_key(session) {
            assert(next[session][st[session].len() as int] == window);
        } else {
            assert(next[session][0] == window);
        }
    }
}

proof fn lemma_plan_keeps(socket: Seq<char>, ts: Seq<(Seq<char>, Window)>, st: LiveView, s2: Seq<char>, w2: Seq<char>)
    requires
        window_exists(st, s2, w2),
    ensures
        window_exists(plan(socket, ts, st).1, s2, w2),
    decreases ts.len(),
{
    if ts.len() > 0 {
        lemma_plan_keeps(socket, ts.drop_last(), st, s2, w2);
        let mid = plan(socket, ts.drop_last(), st).1;
        lemma_after_window_keeps(ts.last().0, ts.last().1.name@, mid, s2, w2);
    }
}

proof fn lemma_plan_covers(socket: Seq<char>, ts: Seq<(Seq<char>, Window)>, st: LiveView)
    ensures
        forall|i: int|
            0 <= i < ts.len() ==> window_exists(plan(socket, ts, st).1, #[trigger] ts[i].0, ts[i].1.name@),
    decreases ts.len(),
{
    if ts.len() > 0 {
        let front = ts.drop_last();
        lemma_plan_covers(socket, front, st);
        let mid = plan(socket, front, st).1;
        let t = ts.last();
        lemma_after_window_adds(t.0, t.1.name@, mid);
        assert forall|i: int| 0 <= i < ts.len() implies window_exists(plan(socket, ts, st).1, #[trigger] ts[i].0, ts[i].1.name@) by {
            if i < ts.len() - 1 {
                assert(front[i] == ts[i]);
                lemma_after_window_keeps(t.0, t.1.name@, mid, ts[i].0, ts[i].1.name@);
            }
        }
    }
}

proof fn lemma_plan_settled(socket: Seq<char>, ts: Seq<(Seq<char>, Window)>, st: LiveView)
    requires
        forall|i: int| 0 <= i < ts.len() ==> window_exists(st, #[trigger] ts[i].0, ts[i].1.name@),
    ensures
        plan(socket, ts, st) == (Seq::<Seq<Seq<char>>>::empty(), st),
    decreases ts.len(),
{
    if ts.len() > 0 {
        let front = ts.drop_last();
        assert forall|i: int| 0 <= i < front.len() implies window_exists(st, #[trigger] front[i].0, front[i].1.name@) by {
            assert(front[i] == ts[i]);
        }
        lemma_plan_settled(socket, front, st);
        assert(window_exists(st, ts[ts.len() - 1].0, ts[ts.len() - 1].1.name@));
        assert(plan(socket, ts, st).0 =~= Seq::<Seq<Seq<char>>>::empty());
    }
}

/// Running the plan again on the state it leads to plans no command and
/// leaves that state as it is: provisioning is idempotent.
pub proof fn lemma_startup_idempotent(socket: Seq<char>, config: Config, st: LiveView)
    ensures
        startup_plan(socket, config, startup_plan(socket, config, st).1) == (
            Seq::<Seq<Seq<char>>>::empty(),
            startup_plan(socket, config, st).1,
        ),
{
    if let Some(t) = config.tmux {
        let ts = declared_windows(t.sessions@);
        lemma_plan_covers(socket, ts, st);
        lemma_plan_settled(socket, ts, plan(socket, ts, st).1);
    }
}

/// Planning two runs of declared windows one after the other is planning the
/// first, then the second against the state the first leads to: the commands
/// of earlier windows all come before those of later ones.
pub proof fn lemma_plan_concat(socket: Seq<char>, a: Seq<(Seq<char>, Window)>, b: Seq<(Seq<char>, Window)>, st: LiveView)
    ensures
        plan(socket, a + b, st) == (
            plan(socket, a, st).0 + plan(socket, b, plan(socket, a, st).1).0,
            plan(socket, b, plan(socket, a, st).1).1,
        ),
    decreases b.len(),
{
    let mid = plan(socket, a, st).1;
    if b.len() == 0 {
        assert(a + b =~= a);
        assert(plan(socket, a, st).0 + plan(socket, b, mid).0 =~= plan(socket, a, st).0);
    } else {
        lemma_plan_concat(socket, a, b.drop_last(), st);
        assert((a + b).drop_last() =~= a + b.drop_last());
        assert((a + b).last() == b.last());
        let inner = plan(socket, b.drop_last(), mid);
        let w = window_plan(socket, b.last().0, b.last().1, inner.1);
        assert(plan(socket, a, st).0 + inner.0 + w =~= plan(socket, a, st).0 + (inner.0 + w));
    }
}

proof fn lemma_declared_windows_concat(a: Seq<Session>, b: Seq<Session>)
    ensures
        declared_windows(a + b) == declared_windows(a) + declared_windows(b),
    decreases b.len(),
{
    if b.len() == 0 {
        assert(a + b =~= a);
        assert(declared_windows(a) + declared_windows(b) =~= declared_windows(a));
    } else {
        lemma_declared_windows_concat(a, b.drop_last());
        assert((a + b).drop_last() =~= a + b.drop_last());
        assert((a + b).last() == b.last());
        assert(declared_windows(a) + declared_windows(b.drop_last()) + crate::reconcile::session_windows(b.last())
            =~= declared_windows(a) + (declared_windows(b.drop_last()) + crate::reconcile::session_windows(b.last())));
    }
}

/// Sessions are provisioned in declaration order: the commands of a run are
/// those of its first `k` sessions, followed by those of the remaining ones
/// planned against the state the first `k` lead to.
pub proof fn lemma_sessions_in_order(socket: Seq<char>, sessions: Seq<Session>, k: int, st: LiveView)
    requires
        0 <= k <= sessions.len(),
    ensures
        ({
            let first = plan(socket, declared_windows(sessions.take(k)), st);
            let rest = plan(socket, declared_windows(sessions.skip(k)), first.1);
            plan(socket, declared_windows(sessions), st) == (first.0 + rest.0, rest.1)
        }),
{
    assert(sessions.take(k) + sessions.skip(k) =~= sessions);
    lemma_declared_windows_concat(sessions.take(k), sessions.skip(k));
    lemma_plan_concat(socket, declared_windows(sessions.take(k)), declared_windows(sessions.skip(k)), st);
}

/// A window that is already live gets no command, startup commands included,
/// and leaves the state as it was.
pub proof fn lemma_live_window_untouched(socket: Seq<char>, ts: Seq<(Seq<char>, Window)>, k: int, st: LiveView)
    requires
        0 <= k < ts.len(),
        window_exists(st, ts[k].0, ts[k].1.name@),
    ensures
        plan(socket, ts.take(k + 1), st) == plan(socket, ts.take(k), st),
{
    assert(ts.take(k + 1).drop_last() =~= ts.take(k));
    lemma_plan_keeps(socket, ts.take(k), st, ts[k].0, ts[k].1.name@);
    assert(plan(socket, ts.take(k), st).0 + Seq::<Seq<Seq<char>>>::empty() =~= plan(socket, ts.take(k), st).0);
}

/// A window is created at most once in a run: a later declaration of the same
/// window in the same session gets no command and leaves the state as it was.
pub proof fn lemma_window_created_once(socket: Seq<char>, ts: Seq<(Seq<char>, Window)>, j: int, k: int, st: LiveView)
    requires
        0 <= j < k < ts.len(),
        ts[j].0 == ts[k].0,
        ts[j].1.name == ts[k].1.name,
    ensures
        plan(socket, ts.take(k + 1), st) == plan(socket, ts.take(k), st),
{
    lemma_plan_covers(socket, ts.take(k), st);
    assert(ts.take(k)[j] == ts[j]);
    let mid = plan(socket, ts.take(k), st).1;
    assert(window_exists(mid, ts[k].0, ts[k].1.name@));
    assert(ts.take(k + 1).drop_last() =~= ts.take(k));
    assert(plan(socket, ts.take(k), st).0 + Seq::<Seq<Seq<char>>>::empty() =~= plan(socket, ts.take(k), st).0);
}

} // verus!
