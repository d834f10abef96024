//! Where sessions live between runs.

use crate::session::model::{Session, SessionView, State};
use crate::text::str_equal;
use vstd::prelude::*;
use vstd::string::*;

verus! {

/// Why a session operation was refused.
#[derive(Debug, Clone)]
pub enum SessionError {
    /// `create` was asked for an id that is already taken.
    AlreadyExists(String),
}

impl SessionError {
    /// The message of the error, as the runtime reports it.
    pub fn message(&self) -> (r: String)
        ensures
            self matches SessionError::AlreadyExists(id) ==> r@ == "session already exists: "@ + id@,
    {
        match self {
            SessionError::AlreadyExists(id) => {
                let mut m = String::from_str("session already exists: ");
                m.append(id.as_str());
                m
            },
        }
    }
}

/// A store of sessions keyed by their id.
pub trait SessionManager {
    fn create(&mut self, session_id: &str, user_id: Option<&str>) -> Result<Session, SessionError>;

    fn get(&self, session_id: &str) -> Option<Session>;

    fn save(&mut self, session: Session);

    fn get_or_create(&mut self, session_id: &str, user_id: Option<&str>) -> Session;
}

/// The sessions of `s` as a map from id to session, later entries winning.
pub open spec fn sessions_map(s: Seq<Session>) -> Map<Seq<char>, SessionView>
    decreases s.len(),
{
    if s.len() == 0 {
        Map::empty()
    } else {
        sessions_map(s.drop_last()).insert(s.last().session_id@, s.last()@)
    }
}

/// No two sessions in `s` share an id.
pub open spec fn unique_ids(s: Seq<Session>) -> bool {
    forall|i: int, j: int|
        0 <= i < s.len() && 0 <= j < s.len() && i != j ==> (#[trigger] s[i]).session_id@ != (
        #[trigger] s[j]).session_id@
}

proof fn lemma_map_domain(s: Seq<Session>, k: Seq<char>)
    ensures
        sessions_map(s).contains_key(k) <==> exists|i: int|
            0 <= i < s.len() && (#[trigger] s[i]).session_id@ == k,
    decreases s.len(),
{
    if s.len() > 0 {
        lemma_map_domain(s.drop_last(), k);
        if sessions_map(s).contains_key(k) && s.last().session_id@ != k {
            let i = choose|i: int| 0 <= i < s.drop_last().len() && (#[trigger] s.drop_last()[i]).session_id@ == k;
            assert(s[i] == s.drop_last()[i]);
        }
        if exists|i: int| 0 <= i < s.len() && (#[trigger] s[i]).session_id@ == k {
            let i = choose|i: int| 0 <= i < s.len() && (#[trigger] s[i]).session_id@ == k;
            if i < s.len() - 1 {
                assert(s.drop_last()[i] == s[i]);
            }
        }
    }
}

proof fn lemma_map_value(s: Seq<Session>, i: int)
    requires
        unique_ids(s),
        0 <= i < s.len(),
    ensures
        sessions_map(s).contains_key(s[i].session_id@),
        sessions_map(s)[s[i].session_id@] == s[i]@,
    decreases s.len(),
{
    if i < s.len() - 1 {
        let t = s.drop_last();
        assert(t[i] == s[i]);
        assert(unique_ids(t)) by {
            assert forall|a: int, b: int|
                0 <= a < t.len() && 0 <= b < t.len() && a != b implies (#[trigger] t[a]).session_id@
                != (#[trigger] t[b]).session_id@ by {
                assert(t[a] == s[a]);
                assert(t[b] == s[b]);
            }
        }
        lemma_map_value(t, i);
        assert(s[s.len() - 1].session_id@ != s[i].session_id@);
    }
}

proof fn lemma_map_push(s: Seq<Session>, x: Session)
    ensures
        sessions_map(s.push(x)) == sessions_map(s).insert(x.session_id@, x@),
{
    assert(s.push(x).drop_last() =~= s);
}

proof fn lemma_map_update(s: Seq<Session>, i: int, x: Session)
    requires
        unique_ids(s),
        0 <= i < s.len(),
        x.session_id@ == s[i].session_id@,
    ensures
        unique_ids(s.update(i, x)),
        sessions_map(s.update(i, x)) == sessions_map(s).insert(x.session_id@, x@),
{
    let u = s.update(i, x);
    assert forall|a: int, b: int|
        0 <= a < u.len() && 0 <= b < u.len() && a != b implies (#[trigger] u[a]).session_id@ != (
        #[trigger] u[b]).session_id@ by {
        assert(u[a].session_id@ == s[a].session_id@);
        assert(u[b].session_id@ == s[b].session_id@);
    }
    let m1 = sessions_map(u);
    let m2 = sessions_map(s).insert(x.session_id@, x@);
    assert forall|k: Seq<char>| m1.contains_key(k) <==> m2.contains_key(k) by {
        lemma_map_domain(u, k);
        lemma_map_domain(s, k);
        assert(u[i].session_id@ == x.session_id@);
        if m2.contains_key(k) {
            if k == x.session_id@ {
                assert(u[i].session_id@ == k);
            } else {
                let j = choose|j: int| 0 <= j < s.len() && (#[trigger] s[j]).session_id@ == k;
                if j == i {
                    assert(u[i].session_id@ == k);
                } else {
                    assert(u[j] == s[j]);
                }
            }
        }
        if m1.contains_key(k) {
            let j = choose|j: int| 0 <= j < u.len() && (#[trigger] u[j]).session_id@ == k;
            if j != i {
                assert(u[j] == s[j]);
            }
        }
    }
    assert forall|k: Seq<char>| #[trigger] m1.contains_key(k) implies m1[k] == m2[k] by {
        lemma_map_domain(u, k);
        let j = choose|j: int| 0 <= j < u.len() && (#[trigger] u[j]).session_id@ == k;
        lemma_map_value(u, j);
        if j != i {
            assert(u[j] == s[j]);
            lemma_map_value(s, j);
        }
    }
    assert(m1 =~= m2);
}

/// Sessions held in memory for the life of the process.
pub struct InMemorySessionManager {
    sessions: Vec<Session>,
}

impl InMemorySessionManager {
    #[verifier::type_invariant]
    spec fn ids_are_unique(self) -> bool {
        unique_ids(self.sessions@)
    }

    /// The stored sessions by id.
    pub closed spec fn view(&self) -> Map<Seq<char>, SessionView> {
        sessions_map(self.sessions@)
    }

    /// A manager that holds no session.
    pub fn new() -> (m: Self)
        ensures
            m.view() == Map::<Seq<char>, SessionView>::empty(),
    {
        InMemorySessionManager { sessions: Vec::new() }
    }

    /// The position of the session with this id, if any.
    fn position(&self, session_id: &str) -> (r: Option<usize>)
        ensures
            match r {
                Some(i) => i < self.sessions@.len() && self.sessions@[i as int].session_id@
                    == session_id@,
                None => forall|i: int|
                    0 <= i < self.sessions@.len() ==> (#[trigger] self.sessions@[i]).session_id@
                        != session_id@,
            },
    {
        let mut i: usize = 0;
        while i < self.sessions.len()
            invariant
                i <= self.sessions@.len(),
                forall|j: int|
                    0 <= j < i ==> (#[trigger] self.sessions@[j]).session_id@ != session_id@,
            decreases self.sessions.len() - i,
        {
            if str_equal(self.sessions[i].session_id.as_str(), session_id) {
                return Some(i);
            }
            i = i + 1;
        }
        None
    }

    /// Creates a session, refusing an id that is already stored.
    pub fn create(&mut self, session_id: &str, user_id: Option<&str>) -> (r: Result<
        Session,
        SessionError,
    >)
        ensures
            r is Ok <==> !old(self).view().contains_key(session_id@),
            r matches Ok(s) ==> {
                &&& s@.session_id == session_id@
                &&& s@.user_id == match user_id {
                    Some(u) => Some(u@),
                    None => None::<Seq<char>>,
                }
                &&& s@.events.len() == 0
                &&& s@.state == State::empty_view()
                &&& final(self).view() == old(self).view().insert(session_id@, s@)
            },
            r matches Err(e) ==> e matches SessionError::AlreadyExists(id) && id@ == session_id@
                && final(self).view() == old(self).view(),
    {
        proof {
            use_type_invariant(&*self);
            lemma_map_domain(self.sessions@, session_id@);
        }
        match self.position(session_id) {
            Some(_) => Err(SessionError::AlreadyExists(String::from_str(session_id))),
            None => {
                let session = Session::new(
                    String::from_str(session_id),
                    match user_id {
                        Some(u) => Some(String::from_str(u)),
                        None => None,
                    },
                );
                let copy = session.duplicate();
                proof {
                    lemma_map_push(self.sessions@, session);
                    assert forall|a: int, b: int|
                        0 <= a < self.sessions@.push(session).len() && 0 <= b
                            < self.sessions@.push(session).len() && a != b implies (
                    #[trigger] self.sessions@.push(session)[a]).session_id@ != (
                    #[trigger] self.sessions@.push(session)[b]).session_id@ by {}
                }
                let mut sessions = Vec::new();
                std::mem::swap(&mut sessions, &mut self.sessions);
                sessions.push(session);
                self.sessions = sessions;
                Ok(copy)
            },
        }
    }

    /// The stored session with this id.
    pub fn get(&self, session_id: &str) -> (r: Option<Session>)
        ensures
            r is Some <==> self.view().contains_key(session_id@),
            r matches Some(s) ==> s@ == self.view()[session_id@] && s@.session_id == session_id@,
    {
        proof {
            use_type_invariant(self);
            lemma_map_domain(self.sessions@, session_id@);
        }
        match self.position(session_id) {
            Some(i) => {
                proof {
                    lemma_map_value(self.sessions@, i as int);
                }
                Some(self.sessions[i].duplicate())
            },
            None => None,
        }
    }

    /// Stores the session under its id, replacing any stored one.
    pub fn save(&mut self, session: Session)
        ensures
            final(self).view() == old(self).view().insert(session.session_id@, session@),
    {
        proof {
            use_type_invariant(&*self);
        }
        match self.position(session.session_id.as_str()) {
            Some(i) => {
                proof {
                    lemma_map_update(self.sessions@, i as int, session);
                }
                let mut sessions = Vec::new();
                std::mem::swap(&mut sessions, &mut self.sessions);
                sessions.set(i, session);
                self.sessions = sessions;
            },
            None => {
                proof {
                    lemma_map_push(self.sessions@, session);
                    assert forall|a: int, b: int|
                        0 <= a < self.sessions@.push(session).len() && 0 <= b
                            < self.sessions@.push(session).len() && a != b implies (
                    #[trigger] self.sessions@.push(session)[a]).session_id@ != (
                    #[trigger] self.sessions@.push(session)[b]).session_id@ by {}
                }
                let mut sessions = Vec::new();
                std::mem::swap(&mut sessions, &mut self.sessions);
                sessions.push(session);
                self.sessions = sessions;
            },
        }
    }

    /// The stored session with this id, created and stored first when missing.
    pub fn get_or_create(&mut self, session_id: &str, user_id: Option<&str>) -> (s: Session)
        ensures
            s@.session_id == session_id@,
            old(self).view().contains_key(session_id@) ==> s@ == old(self).view()[session_id@]
                && final(self).view() == old(self).view(),
            !old(self).view().contains_key(session_id@) ==> {
                &&& s@.session_id == session_id@
                &&& s@.user_id == match user_id {
                    Some(u) => Some(u@),
                    None => None::<Seq<char>>,
                }
                &&& s@.events.len() == 0
                &&& s@.state == State::empty_view()
                &&& final(self).view() == old(self).view().insert(session_id@, s@)
            },
    {
        match self.get(session_id) {
            Some(s) => s,
            None => match self.create(session_id, user_id) {
                Ok(s) => s,
                Err(_) => {
                    proof {
                        assert(false);
                    }
                    Session::new(String::new(), None)
                },
            },
        }
    }
}

impl Default for InMemorySessionManager {
    fn default() -> (m: Self)
        ensures
            m.view() == Map::<Seq<char>, SessionView>::empty(),
    {
        InMemorySessionManager::new()
    }
}

impl SessionManager for InMemorySessionManager {
    fn create(&mut self, session_id: &str, user_id: Option<&str>) -> (r: Result<Session, SessionError>)
        ensures
            r is Ok <==> !old(self).view().contains_key(session_id@),
            r matches Ok(s) ==> final(self).view() == old(self).view().insert(session_id@, s@),
            r matches Err(e) ==> final(self).view() == old(self).view(),
    {
        InMemorySessionManager::create(self, session_id, user_id)
    }

    fn get(&self, session_id: &str) -> (r: Option<Session>)
        ensures
            r is Some <==> self.view().contains_key(session_id@),
            r matches Some(s) ==> s@ == self.view()[session_id@] && s@.session_id == session_id@,
    {
        InMemorySessionManager::get(self, session_id)
    }

    fn save(&mut self, session: Session)
        ensures
            final(self).view() == old(self).view().insert(session.session_id@, session@),
    {
        InMemorySessionManager::save(self, session)
    }

    fn get_or_create(&mut self, session_id: &str, user_id: Option<&str>) -> (s: Session)
        ensures
            s@.session_id == session_id@,
            final(self).view().contains_key(session_id@),
            final(self).view()[session_id@] == s@,
    {
        InMemorySessionManager::get_or_create(self, session_id, user_id)
    }
}

/// What a read gives back of a write: after `save`, `get` with the saved
/// session's id returns that session, and every other id reads as before.
pub proof fn law_get_after_save(
    before: Map<Seq<char>, SessionView>,
    saved: SessionView,
    other: Seq<char>,
)
    requires
        other != saved.session_id,
    ensures
        before.insert(saved.session_id, saved).contains_key(saved.session_id),
        before.insert(saved.session_id, saved)[saved.session_id] == saved,
        before.insert(saved.session_id, saved).contains_key(other) == before.contains_key(other),
        before.contains_key(other) ==> before.insert(saved.session_id, saved)[other]
            == before[other],
{
}

} // verus!
