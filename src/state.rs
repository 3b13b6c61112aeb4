//! The live state of a tmux server: which sessions exist, and their windows.

use vstd::prelude::*;

use crate::command::words;
use crate::text::{lines_of, parse_lines};

verus! {

/// The model of a live state: session name to the names of its windows, in order.
pub type LiveView = Map<Seq<char>, Seq<Seq<char>>>;

/// One live session and the names of its windows, in server order.
#[derive(Debug, Clone, PartialEq, Eq)]
struct LiveSession {
    name: String,
    windows: Vec<String>,
}

/// A snapshot of the sessions and windows present on a tmux server.
///
/// Session names are unique; the snapshot is kept in step with the commands a
/// run issues, so that it is never fetched twice in one run.
#[derive(Debug, Clone, PartialEq, Eq)]
pub struct TmuxState {
    sessions: Vec<LiveSession>,
}

impl View for TmuxState {
    type V = LiveView;

    closed spec fn view(&self) -> LiveView {
        Map::new(
            |k: Seq<char>| self.has_entry(k),
            |k: Seq<char>| words(self.sessions@[self.entry_of(k)].windows@),
        )
    }
}

impl TmuxState {
    /// No two entries name the same session.
    pub closed spec fn wf(&self) -> bool {
        forall|i: int, j: int|
            0 <= i < j < self.sessions@.len() ==> #[trigger] self.sessions@[i].name@
                != #[trigger] self.sessions@[j].name@
    }

    spec fn has_entry(&self, name: Seq<char>) -> bool {
        exists|i: int| 0 <= i < self.sessions@.len() && #[trigger] self.sessions@[i].name@ == name
    }

    spec fn entry_of(&self, name: Seq<char>) -> int {
        choose|i: int| 0 <= i < self.sessions@.len() && #[trigger] self.sessions@[i].name@ == name
    }

    proof fn lemma_entry(&self, i: int)
        requires
            self.wf(),
            0 <= i < self.sessions@.len(),
        ensures
            self@.contains_key(self.sessions@[i].name@),
            self@[self.sessions@[i].name@] == words(self.sessions@[i].windows@),
    {
        let k = self.sessions@[i].name@;
        assert(self.has_entry(k));
        let j = self.entry_of(k);
        assert(self.sessions@[j].name@ == k);
        if j < i {
            assert(self.sessions@[j].name@ != self.sessions@[i].name@);
        } else if i < j {
            assert(self.sessions@[i].name@ != self.sessions@[j].name@);
        }
    }

    /// The empty state: no server, or a server without sessions.
    pub fn new() -> (r: TmuxState)
        ensures
            r.wf(),
            r@ == Map::<Seq<char>, Seq<Seq<char>>>::empty(),
    {
        let r = TmuxState { sessions: Vec::new() };
        assert(r@ =~= Map::<Seq<char>, Seq<Seq<char>>>::empty());
        r
    }

    fn find(&self, name: &String) -> (r: Option<usize>)
        requires
            self.wf(),
        ensures
            match r {
                Some(i) => i < self.sessions@.len() && self.sessions@[i as int].name@ == name@,
                None => !self@.contains_key(name@),
            },
    {
        let mut i: usize = 0;
        while i < self.sessions.len()
            invariant
                i <= self.sessions@.len(),
                forall|j: int| 0 <= j < i ==> #[trigger] self.sessions@[j].name@ != name@,
            decreases self.sessions.len() - i,
        {
            if self.sessions[i].name == *name {
                return Some(i);
            }
            i = i + 1;
        }
        None
    }

    /// The windows of a session, or `None` when the session does not exist.
    pub fn windows(&self, session: &String) -> (r: Option<Vec<String>>)
        requires
            self.wf(),
        ensures
            r is Some <==> self@.contains_key(session@),
            r is Some ==> words(r->0@) == self@[session@],
    {
        match self.find(session) {
            Some(i) => {
                proof { self.lemma_entry(i as int); }
                Some(self.sessions[i].windows.clone())
            },
            None => None,
        }
    }
    /// Whether the window `window` exists in the session `session`.
    pub fn has_window(&self, session: &String, window: &String) -> (r: bool)
        requires
            self.wf(),
        ensures
            r == (self@.contains_key(session@) && self@[session@].contains(window@)),
    {
        match self.find(session) {
            Some(i) => {
                proof { self.lemma_entry(i as int); }
                let names = &self.sessions[i].windows;
                let mut j: usize = 0;
                while j < names.len()
                    invariant
                        j <= names@.len(),
                        self@.contains_key(session@),
                        self@[session@] == words(names@),
                        forall|k: int| 0 <= k < j ==> #[trigger] names@[k]@ != window@,
                    decreases names.len() - j,
                {
                    if names[j] == *window {
                        assert(self@[session@] == words(names@));
                        assert(words(names@)[j as int] == window@);
                        assert(words(names@).contains(window@));
                        return true;
                    }
                    j = j + 1;
                }
                assert(!words(names@).contains(window@)) by {
                    if words(names@).contains(window@) {
                        let k = choose|k: int| 0 <= k < words(names@).len() && words(names@)[k] == window@;
                        assert(names@[k]@ == window@);
                    }
                }
                false
            },
            None => false,
        }
    }

    /// Records that the window `window` now exists in the session `session`:
    /// appended to the session's windows, the session being created if absent.
    pub fn add_window(&mut self, session: &String, window: &String)
        requires
            old(self).wf(),
        ensures
            final(self).wf(),
            final(self)@ == old(self)@.insert(
                session@,
                if old(self)@.contains_key(session@) {
                    old(self)@[session@].push(window@)
                } else {
                    seq![window@]
                },
            ),
    {
        match self.find(session) {
            Some(i) => {
                proof { self.lemma_entry(i as int); }
                let ghost prev = *self;
                let mut names = self.sessions[i].windows.clone();
                names.push(window.clone());
                let entry = LiveSession { name: session.clone(), windows: names };
                assert(words(entry.windows@) =~= old(self)@[session@].push(window@));
                self.sessions.set(i, entry);
                proof { prev.lemma_set_entry(*self, i as int); }
            },
            None => {
                let ghost prev = *self;
                self.sessions.push(LiveSession { name: session.clone(), windows: vec![window.clone()] });
                assert(self.sessions@.drop_last() =~= prev.sessions@);
                proof { prev.lemma_push_entry(*self); }
                assert(words(self.sessions@.last().windows@) =~= seq![window@]);
            },
        }
    }

    /// Sets the windows of the session `session`, replacing any it had.
    pub fn insert(&mut self, session: String, windows: Vec<String>)
        requires
            old(self).wf(),
        ensures
            final(self).wf(),
            final(self)@ == old(self)@.insert(session@, words(windows@)),
    {
        match self.find(&session) {
            Some(i) => {
                let ghost prev = *self;
                self.sessions.set(i, LiveSession { name: session, windows });
                proof { prev.lemma_set_entry(*self, i as int); }
            },
            None => {
                let ghost prev = *self;
                self.sessions.push(LiveSession { name: session, windows });
                assert(self.sessions@.drop_last() =~= prev.sessions@);
                proof { prev.lemma_push_entry(*self); }
            },
        }
    }

    /// The names of the sessions, each once.
    pub fn session_names(&self) -> (r: Vec<String>)
        requires
            self.wf(),
        ensures
            forall|k: Seq<char>| self@.contains_key(k) <==> words(r@).contains(k),
            words(r@).no_duplicates(),
    {
        let mut r: Vec<String> = Vec::new();
        let mut i: usize = 0;
        while i < self.sessions.len()
            invariant
                self.wf(),
                i <= self.sessions@.len(),
                r@.len() == i,
                forall|j: int| 0 <= j < i ==> #[trigger] r@[j]@ == self.sessions@[j].name@,
            decreases self.sessions.len() - i,
        {
            r.push(self.sessions[i].name.clone());
            i = i + 1;
        }
        assert forall|k: Seq<char>| self@.contains_key(k) <==> words(r@).contains(k) by {
            if self@.contains_key(k) {
                let j = self.entry_of(k);
                assert(words(r@)[j] == k);
            }
            if words(r@).contains(k) {
                let j = choose|j: int| 0 <= j < words(r@).len() && words(r@)[j] == k;
                assert(self.sessions@[j].name@ == k);
            }
        }
        assert(words(r@).no_duplicates()) by {
            assert forall|a: int, b: int| 0 <= a < words(r@).len() && 0 <= b < words(r@).len() && a != b
                implies words(r@)[a] != words(r@)[b] by {
                if a < b {
                    assert(self.sessions@[a].name@ != self.sessions@[b].name@);
                } else {
                    assert(self.sessions@[b].name@ != self.sessions@[a].name@);
                }
            }
        }
        r
    }

    proof fn lemma_set_entry(&self, next: TmuxState, i: int)
        requires
            self.wf(),
            0 <= i < self.sessions@.len(),
            next.sessions@ == self.sessions@.update(i, next.sessions@[i]),
            next.sessions@[i].name@ == self.sessions@[i].name@,
        ensures
            next.wf(),
            next@ == self@.insert(self.sessions@[i].name@, words(next.sessions@[i].windows@)),
    {
        let k = self.sessions@[i].name@;
        assert forall|a: int, b: int| 0 <= a < b < next.sessions@.len() implies #[trigger] next.sessions@[a].name@
            != #[trigger] next.sessions@[b].name@ by {
            assert(self.sessions@[a].name@ != self.sessions@[b].name@);
        }
        let target = self@.insert(k, words(next.sessions@[i].windows@));
        assert forall|key: Seq<char>| #[trigger] next@.contains_key(key) <==> target.contains_key(key) by {
            if next.has_entry(key) {
                let j = next.entry_of(key);
                if j != i {
                    assert(self.sessions@[j].name@ == key);
                }
            }
            if self.has_entry(key) {
                let j = self.entry_of(key);
                assert(next.sessions@[j].name@ == key);
            }
            if key == k {
                assert(next.sessions@[i].name@ == key);
            }
        }
        assert forall|key: Seq<char>| #[trigger] next@.contains_key(key) implies next@[key] == target[key] by {
            let j = next.entry_of(key);
            next.lemma_entry(j);
            if j != i {
                self.lemma_entry(j);
                assert(self.sessions@[j].name@ != k) by {
                    if j < i {
                        assert(self.sessions@[j].name@ != self.sessions@[i].name@);
                    } else {
                        assert(self.sessions@[i].name@ != self.sessions@[j].name@);
                    }
                }
            }
        }
        assert(next@ =~= target);
    }

    proof fn lemma_push_entry(&self, next: TmuxState)
        requires
            self.wf(),
            next.sessions@.len() == self.sessions@.len() + 1,
            next.sessions@.drop_last() == self.sessions@,
            !self@.contains_key(next.sessions@.last().name@),
        ensures
            next.wf(),
            next@ == self@.insert(next.sessions@.last().name@, words(next.sessions@.last().windows@)),
    {
        let n = self.sessions@.len() as int;
        let k = next.sessions@[n].name@;
        assert forall|j: int| 0 <= j < n implies #[trigger] next.sessions@[j] == self.sessions@[j] by {
            assert(next.sessions@.drop_last()[j] == next.sessions@[j]);
        }
        assert forall|a: int, b: int| 0 <= a < b < next.sessions@.len() implies #[trigger] next.sessions@[a].name@
            != #[trigger] next.sessions@[b].name@ by {
            if b == n {
                assert(!self.has_entry(k));
            } else {
                assert(self.sessions@[a].name@ != self.sessions@[b].name@);
            }
        }
        let target = self@.insert(k, words(next.sessions@[n].windows@));
        assert forall|key: Seq<char>| #[trigger] next@.contains_key(key) <==> target.contains_key(key) by {
            if next.has_entry(key) {
                let j = next.entry_of(key);
                if j != n {
                    assert(self.sessions@[j].name@ == key);
                }
            }
            if self.has_entry(key) {
                let j = self.entry_of(key);
                assert(next.sessions@[j].name@ == key);
            }
            if key == k {
                assert(next.sessions@[n].name@ == key);
            }
        }
        assert forall|key: Seq<char>| #[trigger] next@.contains_key(key) implies next@[key] == target[key] by {
            let j = next.entry_of(key);
            next.lemma_entry(j);
            if j != n {
                self.lemma_entry(j);
            }
        }
        assert(next@ =~= target);
    }
}

/// The live state that listing outputs describe: each listed session, with
/// the lines of its window listing as its windows. A session listed twice
/// keeps its last listing.
pub open spec fn gathered(sessions: Seq<Seq<char>>, window_listings: Seq<Seq<char>>) -> LiveView
    decreases sessions.len(),
{
    if sessions.len() == 0 {
        Map::empty()
    } else {
        gathered(sessions.drop_last(), window_listings.drop_last()).insert(
            sessions.last(),
            lines_of(window_listings[sessions.len() - 1]),
        )
    }
}

/// Builds the live state from the output of `list-sessions` and, for each
/// session it lists, in order, the output of `list-windows`. A server that is
/// not running lists nothing, which is the empty state.
pub fn gather_tmux_state(sessions_output: &str, window_listings: &Vec<String>) -> (r: TmuxState)
    requires
        window_listings@.len() == lines_of(sessions_output@).len(),
    ensures
        r.wf(),
        r@ == gathered(lines_of(sessions_output@), words(window_listings@)),
{
    let names = parse_lines(sessions_output);
    let ghost all_names = words(names@);
    let ghost all_listings = words(window_listings@);
    let mut state = TmuxState::new();
    let mut i: usize = 0;
    while i < names.len()
        invariant
            state.wf(),
            i <= names@.len(),
            names@.len() == window_listings@.len(),
            all_names == words(names@),
            all_listings == words(window_listings@),
            state@ == gathered(all_names.take(i as int), all_listings.take(i as int)),
        decreases names.len() - i,
    {
        let windows = parse_lines(window_listings[i].as_str());
        state.insert(names[i].clone(), windows);
        assert(all_names.take(i + 1).drop_last() =~= all_names.take(i as int));
        assert(all_listings.take(i + 1).drop_last() =~= all_listings.take(i as int));
        i = i + 1;
    }
    assert(all_names.take(i as int) =~= all_names);
    assert(all_listings.take(i as int) =~= all_listings);
    state
}

} // verus!
