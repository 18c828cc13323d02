//! The session controller: the process-wide registry of live sessions and
//! the user-to-session index that makes ownership unique.
//!
//! The two maps agree at all times: a user appears in the index exactly
//! when one live session has them as its owner ([`ControllerView::wf`],
//! and the law [`lemma_user_session_agreement`]).

use vstd::prelude::*;
use crate::errors::Error;
use crate::session::{Session, SessionEffect, SessionView, User};

verus! {

/// Abstract value of a [`Controller`]: the live sessions and the
/// `(user id, session id)` index.
pub struct ControllerView<C> {
    pub sessions: Seq<SessionView<C>>,
    pub user_sessions: Seq<(Seq<char>, Seq<char>)>,
}

/// Whether a session with id `sid` is registered.
pub open spec fn has_session<C>(s: Seq<SessionView<C>>, sid: Seq<char>) -> bool {
    exists|i: int| 0 <= i < s.len() && s[i].session_id == sid
}

/// Whether the user `uid` is in the index.
pub open spec fn has_user(us: Seq<(Seq<char>, Seq<char>)>, uid: Seq<char>) -> bool {
    exists|i: int| 0 <= i < us.len() && us[i].0 == uid
}

/// Whether the index maps `uid` to `sid`.
pub open spec fn user_maps(us: Seq<(Seq<char>, Seq<char>)>, uid: Seq<char>, sid: Seq<char>) -> bool {
    exists|i: int| 0 <= i < us.len() && us[i] == (uid, sid)
}

/// Whether a live session backs the index entry `p`: its id is `p.1` and
/// its owner is `p.0`.
pub open spec fn session_backs_pair<C>(
    ss: Seq<SessionView<C>>,
    p: (Seq<char>, Seq<char>),
) -> bool {
    exists|j: int| 0 <= j < ss.len() && (#[trigger] ss[j]).session_id == p.1 && ss[j].owner.id
        == p.0
}

impl<C> ControllerView<C> {
    /// Registry well-formedness: session ids and indexed users are
    /// unique, every index entry points at a live session owned by that
    /// user, and every live session is indexed under its owner.
    pub open spec fn wf(self) -> bool {
        &&& forall|a: int, b: int|
            0 <= a < b < self.sessions.len() ==> (#[trigger] self.sessions[a]).session_id != (
            #[trigger] self.sessions[b]).session_id
        &&& forall|a: int, b: int|
            0 <= a < b < self.user_sessions.len() ==> (#[trigger] self.user_sessions[a]).0 != (
            #[trigger] self.user_sessions[b]).0
        &&& forall|i: int|
            0 <= i < self.user_sessions.len() ==> session_backs_pair(
                self.sessions,
                #[trigger] self.user_sessions[i],
            )
        &&& forall|j: int|
            0 <= j < self.sessions.len() ==> user_maps(
                self.user_sessions,
                (#[trigger] self.sessions[j]).owner.id,
                self.sessions[j].session_id,
            )
    }
}

pub struct Controller<C> {
    sessions: Vec<Session<C>>,
    user_sessions: Vec<(String, String)>,
}

impl<C> View for Controller<C> {
    type V = ControllerView<C>;

    closed spec fn view(&self) -> ControllerView<C> {
        ControllerView {
            sessions: self.sessions@.map_values(|s: Session<C>| s@),
            user_sessions: self.user_sessions@.map_values(|p: (String, String)| (p.0@, p.1@)),
        }
    }
}

impl<C> Controller<C> {
    pub fn new() -> (c: Self)
        ensures
            c@.sessions.len() == 0,
            c@.user_sessions.len() == 0,
            c@.wf(),
    {
        let c = Self { sessions: Vec::new(), user_sessions: Vec::new() };
        proof {
            assert(c@.sessions =~= Seq::<SessionView<C>>::empty());
            assert(c@.user_sessions =~= Seq::<(Seq<char>, Seq<char>)>::empty());
        }
        c
    }

    /// Whether `user_id` owns a live session.
    pub fn check_user_has_session(&self, user_id: &String) -> (r: bool)
        ensures
            r == has_user(self@.user_sessions, user_id@),
    {
        let mut i: usize = 0;
        while i < self.user_sessions.len()
            invariant
                i <= self.user_sessions.len(),
                self.user_sessions@.len() == self@.user_sessions.len(),
                forall|j: int| 0 <= j < i ==> (#[trigger] self@.user_sessions[j]).0 != user_id@,
            decreases self.user_sessions.len() - i,
        {
            if self.user_sessions[i].0.eq(user_id) {
                proof {
                    assert(self@.user_sessions[i as int].0 == user_id@);
                }
                return true;
            }
            i += 1;
        }
        false
    }

    /// Whether `user_id` owns precisely the session `session_id`.
    pub fn check_user_own_session(&self, user_id: &String, session_id: &String) -> (r: bool)
        ensures
            r == user_maps(self@.user_sessions, user_id@, session_id@),
    {
        let mut i: usize = 0;
        while i < self.user_sessions.len()
            invariant
                i <= self.user_sessions.len(),
                self.user_sessions@.len() == self@.user_sessions.len(),
                forall|j: int|
                    0 <= j < i ==> (#[trigger] self@.user_sessions[j]) != (user_id@, session_id@),
            decreases self.user_sessions.len() - i,
        {
            if self.user_sessions[i].0.eq(user_id) && self.user_sessions[i].1.eq(session_id) {
                proof {
                    assert(self@.user_sessions[i as int] == (user_id@, session_id@));
                }
                return true;
            }
            i += 1;
        }
        false
    }

    /// The id of the session `user_id` owns, or the empty string.
    pub fn get_user_session(&self, user_id: &String) -> (r: String)
        requires
            self@.wf(),
        ensures
            !has_user(self@.user_sessions, user_id@) ==> r@ == Seq::<char>::empty(),
            forall|j: int|
                0 <= j < self@.user_sessions.len() && (#[trigger] self@.user_sessions[j]).0
                    == user_id@ ==> r@ == self@.user_sessions[j].1,
    {
        let mut i: usize = 0;
        while i < self.user_sessions.len()
            invariant
                self@.wf(),
                i <= self.user_sessions.len(),
                self.user_sessions@.len() == self@.user_sessions.len(),
                forall|j: int| 0 <= j < i ==> (#[trigger] self@.user_sessions[j]).0 != user_id@,
            decreases self.user_sessions.len() - i,
        {
            if self.user_sessions[i].0.eq(user_id) {
                let r = self.user_sessions[i].1.clone();
                proof {
                    assert(self@.user_sessions[i as int].0 == user_id@);
                    assert forall|j: int|
                        0 <= j < self@.user_sessions.len() && (#[trigger] self@.user_sessions[j]).0
                            == user_id@ implies r@ == self@.user_sessions[j].1 by {
                        if j != i as int {
                            assert(self@.user_sessions[j].0 != self@.user_sessions[i as int].0);
                        }
                    }
                }
                return r;
            }
            i += 1;
        }
        String::new()
    }

    /// The index of the session with id `session_id`.
    fn session_index(&self, session_id: &String) -> (r: Option<usize>)
        ensures
            r is Some <==> has_session(self@.sessions, session_id@),
            r matches Some(i) ==> i < self@.sessions.len() && self@.sessions[i as int].session_id
                == session_id@,
    {
        let mut i: usize = 0;
        while i < self.sessions.len()
            invariant
                i <= self.sessions.len(),
                self.sessions@.len() == self@.sessions.len(),
                forall|j: int| 0 <= j < i ==> (#[trigger] self@.sessions[j]).session_id
                    != session_id@,
            decreases self.sessions.len() - i,
        {
            let sid = self.sessions[i].session_id();
            if sid.eq(session_id) {
                proof {
                    assert(self@.sessions[i as int].session_id == session_id@);
                }
                return Some(i);
            }
            i += 1;
        }
        None
    }

    /// A shared borrow of the session with id `session_id`.
    pub fn get_session(&self, session_id: &String) -> (r: Result<&Session<C>, Error>)
        ensures
            r is Ok <==> has_session(self@.sessions, session_id@),
            r matches Ok(s) ==> s@.session_id == session_id@ && self@.sessions.contains(s@),
            r is Err ==> (r matches Err(Error::SessionNotFound { id }) && id@ == session_id@),
    {
        match self.session_index(session_id) {
            Some(i) => {
                let s = &self.sessions[i];
                proof {
                    assert(self@.sessions[i as int] == s@);
                }
                Ok(s)
            },
            None => Err(Error::SessionNotFound { id: session_id.clone() }),
        }
    }

    /// All live sessions.
    pub fn get_sessions(&self) -> (r: &Vec<Session<C>>)
        ensures
            r@.map_values(|s: Session<C>| s@) == self@.sessions,
    {
        &self.sessions
    }

    /// A mutable borrow of the session at `i` (as `session_index` finds
    /// it); the caller's mutations through the borrow are what the
    /// registry sees afterwards.
    pub fn session_at_mut(&mut self, i: usize) -> (s: &mut Session<C>)
        requires
            i < old(self)@.sessions.len(),
        ensures
            (*s)@ == old(self)@.sessions[i as int],
            final(self)@.sessions == old(self)@.sessions.update(i as int, (*final(s))@),
            final(self)@.user_sessions == old(self)@.user_sessions,
    {
        &mut self.sessions[i]
    }

    /// Looks the session up and hands out a mutable borrow of it.
    pub fn session_mut(&mut self, session_id: &String) -> (r: Result<&mut Session<C>, Error>)
        ensures
            r is Ok <==> has_session(old(self)@.sessions, session_id@),
            r is Err ==> final(self)@ == old(self)@ && (r matches Err(
                Error::SessionNotFound { id },
            ) && id@ == session_id@),
            r matches Ok(s) ==> (*s)@.session_id == session_id@ && final(self)@.user_sessions
                == old(self)@.user_sessions && exists|j: int|
                0 <= j < old(self)@.sessions.len() && (#[trigger] old(self)@.sessions[j]).session_id
                    == session_id@ && final(self)@.sessions == old(self)@.sessions.update(
                    j,
                    (*final(s))@,
                ),
    {
        match self.session_index(session_id) {
            Some(i) => {
                let s = &mut self.sessions[i];
                Ok(s)
            },
            None => Err(Error::SessionNotFound { id: session_id.clone() }),
        }
    }

    /// Registers the session `session_id` for `user_id`: rejected with
    /// `SessionExists` exactly when the user already owns a session, and
    /// with a registry fault exactly when the id is already taken; the
    /// state is unchanged on every failure.  The session starts with an
    /// empty queue and no peers; the caller spawns its broadcaster.
    pub fn register_session(
        &mut self,
        session_id: String,
        user_id: String,
        user: User,
        start_time: u64,
    ) -> (r: Result<(), Error>)
        requires
            old(self)@.wf(),
            user@.id == user_id@,
        ensures
            final(self)@.wf(),
            (r matches Err(Error::SessionExists)) <==> has_user(
                old(self)@.user_sessions,
                user_id@,
            ),
            (r matches Err(Error::SessionError { .. })) <==> !has_user(
                old(self)@.user_sessions,
                user_id@,
            ) && has_session(old(self)@.sessions, session_id@),
            r is Ok <==> !has_user(old(self)@.user_sessions, user_id@) && !has_session(
                old(self)@.sessions,
                session_id@,
            ),
            r is Err ==> final(self)@ == old(self)@,
            r is Ok ==> {
                &&& final(self)@.user_sessions == old(self)@.user_sessions.push(
                    (user_id@, session_id@),
                )
                &&& final(self)@.sessions.len() == old(self)@.sessions.len() + 1
                &&& final(self)@.sessions.subrange(0, old(self)@.sessions.len() as int) == old(
                    self,
                )@.sessions
                &&& final(self)@.sessions.last().session_id == session_id@
                &&& final(self)@.sessions.last().owner == user@
                &&& final(self)@.sessions.last().start_time == start_time as int
                &&& final(self)@.sessions.last().queue.items.len() == 0
                &&& final(self)@.sessions.last().peers.len() == 0
            },
    {
        if self.check_user_has_session(&user_id) {
            return Err(Error::SessionExists);
        }
        if self.session_index(&session_id).is_some() {
            return Err(Error::SessionError { msg: String::from_str("session id already in use") });
        }
        let ghost oldv = self@;
        let sess = Session::new(session_id.clone(), user, start_time);
        self.sessions.push(sess);
        self.user_sessions.push((user_id, session_id.clone()));
        proof {
            assert(self@.sessions =~= oldv.sessions.push(sess@));
            assert(self@.user_sessions =~= oldv.user_sessions.push((user_id@, session_id@)));
            assert(final(self)@.sessions.subrange(0, oldv.sessions.len() as int) =~= oldv.sessions);
            lemma_register_wf(oldv, sess@, user_id@, session_id@);
        }
        Ok(())
    }

    /// Registers a session for `user_id` under a fresh id and returns
    /// that id.  `SessionExists` comes exactly when the user already
    /// owns a session; the only other failure is the vanishingly
    /// unlikely collision of the fresh random id, and the state is
    /// unchanged on every failure.
    pub fn create_session(&mut self, user_id: String, user: User, start_time: u64) -> (r: Result<
        String,
        Error,
    >)
        requires
            old(self)@.wf(),
            user@.id == user_id@,
        ensures
            final(self)@.wf(),
            (r matches Err(Error::SessionExists)) <==> has_user(
                old(self)@.user_sessions,
                user_id@,
            ),
            r is Err ==> final(self)@ == old(self)@ && (r matches Err(Error::SessionExists) || r
                matches Err(Error::SessionError { .. })),
            r matches Ok(id) ==> {
                &&& !has_user(old(self)@.user_sessions, user_id@)
                &&& !has_session(old(self)@.sessions, id@)
                &&& final(self)@.user_sessions == old(self)@.user_sessions.push((user_id@, id@))
                &&& final(self)@.sessions.len() == old(self)@.sessions.len() + 1
                &&& final(self)@.sessions.subrange(0, old(self)@.sessions.len() as int) == old(
                    self,
                )@.sessions
                &&& final(self)@.sessions.last().session_id == id@
                &&& final(self)@.sessions.last().owner == user@
                &&& final(self)@.sessions.last().start_time == start_time as int
                &&& final(self)@.sessions.last().queue.items.len() == 0
                &&& final(self)@.sessions.last().peers.len() == 0
            },
    {
        let id = crate::ids::fresh_uuid();
        match self.register_session(id.clone(), user_id, user, start_time) {
            Ok(()) => Ok(id),
            Err(e) => Err(e),
        }
    }

    /// Unregisters the session with id `session_id`: its broadcast stops,
    /// its scratch directory goes away, its listeners get a terminal
    /// `"end"` event, and both maps drop it.
    pub fn delete_session(&mut self, session_id: &String) -> (r: Result<Vec<SessionEffect>, Error>)
        requires
            old(self)@.wf(),
        ensures
            final(self)@.wf(),
            r is Ok <==> has_session(old(self)@.sessions, session_id@),
            r is Err ==> final(self)@ == old(self)@ && (r matches Err(
                Error::SessionNotFound { id },
            ) && id@ == session_id@),
            r matches Ok(e) ==> {
                &&& forall|i: int|
                    0 <= i < old(self)@.sessions.len() && (#[trigger] old(
                        self,
                    )@.sessions[i]).session_id == session_id@ ==> final(self)@.sessions == old(
                        self,
                    )@.sessions.remove(i)
                &&& forall|j: int|
                    0 <= j < old(self)@.user_sessions.len() && (#[trigger] old(
                        self,
                    )@.user_sessions[j]).1 == session_id@ ==> final(self)@.user_sessions == old(
                        self,
                    )@.user_sessions.remove(j)
                &&& !has_session(final(self)@.sessions, session_id@)
                &&& !user_maps_to(final(self)@.user_sessions, session_id@)
                &&& e@.len() == 4
                &&& e@[0] is SendStop
                &&& e@[1] is CleanScratch
                &&& e@[2] is RemoveScratchDir
                &&& is_end_event(e@[3])
            },
    {
        let idx = match self.session_index(session_id) {
            Some(i) => i,
            None => {
                return Err(Error::SessionNotFound { id: session_id.clone() });
            },
        };
        let ghost oldv = self@;
        self.sessions.remove(idx);
        proof {
            assert(self@.sessions =~= oldv.sessions.remove(idx as int));
            oldv.sessions.remove_ensures(idx as int);
        }
        let mut j: usize = 0;
        let mut pair_idx: Option<usize> = None;
        while j < self.user_sessions.len()
            invariant
                j <= self.user_sessions.len(),
                self.user_sessions@.len() == oldv.user_sessions.len(),
                self@.user_sessions == oldv.user_sessions,
                pair_idx is None ==> forall|k: int|
                    0 <= k < j ==> (#[trigger] oldv.user_sessions[k]).1 != session_id@,
                pair_idx matches Some(p) ==> p < oldv.user_sessions.len()
                    && oldv.user_sessions[p as int].1 == session_id@,
            decreases self.user_sessions.len() - j,
        {
            if pair_idx.is_none() && self.user_sessions[j].1.eq(session_id) {
                proof {
                    assert(oldv.user_sessions[j as int].1 == session_id@);
                }
                pair_idx = Some(j);
            }
            j += 1;
        }
        proof {
            lemma_at_most_one_pair(oldv, session_id@);
        }
        let ghost mid_us = self@.user_sessions;
        match pair_idx {
            Some(p) => {
                self.user_sessions.remove(p);
                proof {
                    assert(self@.user_sessions =~= oldv.user_sessions.remove(p as int));
                    oldv.user_sessions.remove_ensures(p as int);
                }
            },
            None => {
                proof {
                    // the owner's index entry always exists for a live session
                    assert(user_maps(
                        oldv.user_sessions,
                        oldv.sessions[idx as int].owner.id,
                        oldv.sessions[idx as int].session_id,
                    ));
                    let w = choose|w: int|
                        0 <= w < oldv.user_sessions.len() && oldv.user_sessions[w] == (
                        oldv.sessions[idx as int].owner.id,
                        oldv.sessions[idx as int].session_id,
                        );
                    assert(oldv.user_sessions[w].1 == session_id@);
                    assert(false);
                }
            },
        }
        proof {
            lemma_delete_wf(oldv, idx as int, self@);
        }
        let mut e: Vec<SessionEffect> = Vec::new();
        e.push(SessionEffect::SendStop);
        e.push(SessionEffect::CleanScratch);
        e.push(SessionEffect::RemoveScratchDir);
        e.push(SessionEffect::Publish { msg: String::from_str("end") });
        proof {
            reveal_strlit("end");
        }
        Ok(e)
    }
}

/// Whether some index entry points at the session `sid`.
pub open spec fn user_maps_to(us: Seq<(Seq<char>, Seq<char>)>, sid: Seq<char>) -> bool {
    exists|i: int| 0 <= i < us.len() && us[i].1 == sid
}

/// Under `wf`, at most one index entry points at any one session.
proof fn lemma_at_most_one_pair<C>(v: ControllerView<C>, sid: Seq<char>)
    requires
        v.wf(),
    ensures
        forall|a: int, b: int|
            0 <= a < v.user_sessions.len() && 0 <= b < v.user_sessions.len() && (
            #[trigger] v.user_sessions[a]).1 == sid && (#[trigger] v.user_sessions[b]).1 == sid
                ==> a == b,
{
    assert forall|a: int, b: int|
        0 <= a < v.user_sessions.len() && 0 <= b < v.user_sessions.len() && (
        #[trigger] v.user_sessions[a]).1 == sid && (#[trigger] v.user_sessions[b]).1 == sid implies a
        == b by {
        if a != b {
            assert(session_backs_pair(v.sessions, v.user_sessions[a]));
            assert(session_backs_pair(v.sessions, v.user_sessions[b]));
            let ja = choose|j: int|
                0 <= j < v.sessions.len() && (#[trigger] v.sessions[j]).session_id
                    == v.user_sessions[a].1 && v.sessions[j].owner.id == v.user_sessions[a].0;
            let jb = choose|j: int|
                0 <= j < v.sessions.len() && (#[trigger] v.sessions[j]).session_id
                    == v.user_sessions[b].1 && v.sessions[j].owner.id == v.user_sessions[b].0;
            if ja != jb {
                assert(v.sessions[ja].session_id != v.sessions[jb].session_id);
            }
            assert(v.user_sessions[a].0 == v.user_sessions[b].0);
        }
    }
}

/// Removing a session together with its index entry keeps the registry
/// well-formed and leaves no trace of the session id.
proof fn lemma_delete_wf<C>(oldv: ControllerView<C>, i: int, newv: ControllerView<C>)
    requires
        oldv.wf(),
        0 <= i < oldv.sessions.len(),
        newv.sessions == oldv.sessions.remove(i),
        exists|p: int|
            0 <= p < oldv.user_sessions.len() && (#[trigger] oldv.user_sessions[p]).1
                == oldv.sessions[i].session_id && newv.user_sessions == oldv.user_sessions.remove(
                p,
            ),
    ensures
        newv.wf(),
        !has_session(newv.sessions, oldv.sessions[i].session_id),
        !user_maps_to(newv.user_sessions, oldv.sessions[i].session_id),
{
    let sid = oldv.sessions[i].session_id;
    let p = choose|p: int|
        0 <= p < oldv.user_sessions.len() && (#[trigger] oldv.user_sessions[p]).1 == sid
            && newv.user_sessions == oldv.user_sessions.remove(p);
    oldv.sessions.remove_ensures(i);
    oldv.user_sessions.remove_ensures(p);
    lemma_at_most_one_pair(oldv, sid);

    // index maps between the old and new sequences
    assert forall|a: int, b: int|
        0 <= a < b < newv.sessions.len() implies (#[trigger] newv.sessions[a]).session_id != (
    #[trigger] newv.sessions[b]).session_id by {
        let a0 = if a < i { a } else { a + 1 };
        let b0 = if b < i { b } else { b + 1 };
        assert(newv.sessions[a] == oldv.sessions[a0]);
        assert(newv.sessions[b] == oldv.sessions[b0]);
        assert(oldv.sessions[a0].session_id != oldv.sessions[b0].session_id);
    }
    assert forall|a: int, b: int|
        0 <= a < b < newv.user_sessions.len() implies (#[trigger] newv.user_sessions[a]).0 != (
    #[trigger] newv.user_sessions[b]).0 by {
        let a0 = if a < p { a } else { a + 1 };
        let b0 = if b < p { b } else { b + 1 };
        assert(newv.user_sessions[a] == oldv.user_sessions[a0]);
        assert(newv.user_sessions[b] == oldv.user_sessions[b0]);
        assert(oldv.user_sessions[a0].0 != oldv.user_sessions[b0].0);
    }
    assert forall|x: int|
        0 <= x < newv.sessions.len() implies (#[trigger] newv.sessions[x]).session_id != sid by {
        let x0 = if x < i { x } else { x + 1 };
        assert(newv.sessions[x] == oldv.sessions[x0]);
        if x0 != i {
            if x0 < i {
                assert(oldv.sessions[x0].session_id != oldv.sessions[i].session_id);
            } else {
                assert(oldv.sessions[i].session_id != oldv.sessions[x0].session_id);
            }
        }
    }
    assert forall|x: int|
        0 <= x < newv.user_sessions.len() implies (#[trigger] newv.user_sessions[x]).1 != sid by {
        let x0 = if x < p { x } else { x + 1 };
        assert(newv.user_sessions[x] == oldv.user_sessions[x0]);
    }
    assert forall|x: int|
        0 <= x < newv.user_sessions.len() implies session_backs_pair(
            newv.sessions,
            #[trigger] newv.user_sessions[x],
        ) by {
        let x0 = if x < p { x } else { x + 1 };
        assert(newv.user_sessions[x] == oldv.user_sessions[x0]);
        assert(session_backs_pair(oldv.sessions, oldv.user_sessions[x0]));
        let j0 = choose|j: int|
            0 <= j < oldv.sessions.len() && (#[trigger] oldv.sessions[j]).session_id
                == oldv.user_sessions[x0].1 && oldv.sessions[j].owner.id
                == oldv.user_sessions[x0].0;
        assert(oldv.user_sessions[x0].1 != sid);
        assert(j0 != i);
        let j1 = if j0 < i { j0 } else { j0 - 1 };
        assert(newv.sessions[j1] == oldv.sessions[j0]);
        assert(newv.sessions[j1].session_id == newv.user_sessions[x].1
            && newv.sessions[j1].owner.id == newv.user_sessions[x].0);
    }
    assert forall|j: int| 0 <= j < newv.sessions.len() implies user_maps(
        newv.user_sessions,
        (#[trigger] newv.sessions[j]).owner.id,
        newv.sessions[j].session_id,
    ) by {
        let j0 = if j < i { j } else { j + 1 };
        assert(newv.sessions[j] == oldv.sessions[j0]);
        let x0 = choose|x: int|
            0 <= x < oldv.user_sessions.len() && oldv.user_sessions[x] == (
            oldv.sessions[j0].owner.id,
            oldv.sessions[j0].session_id,
            );
        assert(newv.sessions[j].session_id != sid);
        assert(oldv.user_sessions[x0].1 != sid);
        assert(x0 != p);
        let x1 = if x0 < p { x0 } else { x0 - 1 };
        assert(newv.user_sessions[x1] == oldv.user_sessions[x0]);
        assert(newv.user_sessions[x1] == (newv.sessions[j].owner.id, newv.sessions[j].session_id));
    }
}

/// The terminal event a deleted session publishes.
pub open spec fn is_end_event(e: SessionEffect) -> bool {
    e matches SessionEffect::Publish { msg } && msg@ == "end"@
}

/// Registering a fresh session for a fresh user keeps the registry
/// well-formed.
proof fn lemma_register_wf<C>(
    oldv: ControllerView<C>,
    sess: SessionView<C>,
    uid: Seq<char>,
    sid: Seq<char>,
)
    requires
        oldv.wf(),
        !has_user(oldv.user_sessions, uid),
        !has_session(oldv.sessions, sid),
        sess.session_id == sid,
        sess.owner.id == uid,
    ensures
        (ControllerView {
            sessions: oldv.sessions.push(sess),
            user_sessions: oldv.user_sessions.push((uid, sid)),
        }).wf(),
{
    let newv = ControllerView {
        sessions: oldv.sessions.push(sess),
        user_sessions: oldv.user_sessions.push((uid, sid)),
    };
    assert forall|a: int, b: int|
        0 <= a < b < newv.sessions.len() implies (#[trigger] newv.sessions[a]).session_id != (
    #[trigger] newv.sessions[b]).session_id by {
        if b == newv.sessions.len() - 1 {
            assert(!(0 <= a < oldv.sessions.len() && oldv.sessions[a].session_id == sid));
        }
    }
    assert forall|a: int, b: int|
        0 <= a < b < newv.user_sessions.len() implies (#[trigger] newv.user_sessions[a]).0 != (
    #[trigger] newv.user_sessions[b]).0 by {
        if b == newv.user_sessions.len() - 1 {
            assert(!(0 <= a < oldv.user_sessions.len() && oldv.user_sessions[a].0 == uid));
        }
    }
    assert forall|i: int|
        0 <= i < newv.user_sessions.len() implies session_backs_pair(
            newv.sessions,
            #[trigger] newv.user_sessions[i],
        ) by {
        if i < oldv.user_sessions.len() {
            assert(newv.user_sessions[i] == oldv.user_sessions[i]);
            assert(session_backs_pair(oldv.sessions, oldv.user_sessions[i]));
            let j = choose|j: int|
                0 <= j < oldv.sessions.len() && (#[trigger] oldv.sessions[j]).session_id
                    == oldv.user_sessions[i].1 && oldv.sessions[j].owner.id
                    == oldv.user_sessions[i].0;
            assert(newv.sessions[j].session_id == newv.user_sessions[i].1
                && newv.sessions[j].owner.id == newv.user_sessions[i].0);
        } else {
            let j = newv.sessions.len() - 1;
            assert(newv.sessions[j].session_id == newv.user_sessions[i].1
                && newv.sessions[j].owner.id == newv.user_sessions[i].0);
        }
    }
    assert forall|j: int| 0 <= j < newv.sessions.len() implies user_maps(
        newv.user_sessions,
        (#[trigger] newv.sessions[j]).owner.id,
        newv.sessions[j].session_id,
    ) by {
        if j < oldv.sessions.len() {
            let i = choose|i: int|
                0 <= i < oldv.user_sessions.len() && oldv.user_sessions[i] == (
                oldv.sessions[j].owner.id,
                oldv.sessions[j].session_id,
                );
            assert(newv.user_sessions[i] == (newv.sessions[j].owner.id, newv.sessions[j].session_id));
        } else {
            assert(newv.user_sessions[newv.user_sessions.len() - 1] == (
            newv.sessions[j].owner.id,
            newv.sessions[j].session_id,
            ));
        }
    }
}

/// Law: a user appears in the index exactly when some live session has
/// them as its owner.
pub proof fn lemma_user_session_agreement<C>(v: ControllerView<C>, uid: Seq<char>)
    requires
        v.wf(),
    ensures
        has_user(v.user_sessions, uid) <==> exists|j: int|
            0 <= j < v.sessions.len() && (#[trigger] v.sessions[j]).owner.id == uid,
{
    if has_user(v.user_sessions, uid) {
        let i = choose|i: int| 0 <= i < v.user_sessions.len() && v.user_sessions[i].0 == uid;
        assert(session_backs_pair(v.sessions, v.user_sessions[i]));
        let j = choose|j: int|
            0 <= j < v.sessions.len() && (#[trigger] v.sessions[j]).session_id
                == v.user_sessions[i].1 && v.sessions[j].owner.id == v.user_sessions[i].0;
        assert(v.sessions[j].owner.id == uid);
    }
    if exists|j: int| 0 <= j < v.sessions.len() && (#[trigger] v.sessions[j]).owner.id == uid {
        let j = choose|j: int|
            0 <= j < v.sessions.len() && (#[trigger] v.sessions[j]).owner.id == uid;
        assert(user_maps(v.user_sessions, v.sessions[j].owner.id, v.sessions[j].session_id));
        let i = choose|i: int|
            0 <= i < v.user_sessions.len() && v.user_sessions[i] == (
            v.sessions[j].owner.id,
            v.sessions[j].session_id,
            );
        assert(v.user_sessions[i].0 == uid);
    }
}

} // verus!
