//! The session: a room owned by one user, binding a play queue, the
//! broadcaster, and the set of peer connections.
//!
//! Every mutating operation returns the list of [`SessionEffect`]s the
//! embedding actor must perform, in order: commands for the broadcaster
//! first, then the single event published on the session bus (queue
//! mutations publish exactly one cursor event after the media commands).

use vstd::prelude::*;
use crate::broadcaster::{BroadcasterCommand, BroadcasterEvent};
use crate::dec::dec_seq;
use crate::errors::Error;
use crate::peer::{Listener, ListenerView, PeerState, PeerView};
use crate::queue::{
    spec_add, spec_next, spec_prev, spec_remove_by_id, spec_remove_by_key, spec_reorder,
    ActionView, PlayQueue, QueueAction, QueueView,
};

verus! {

/// At most this many peers may listen to a session, the owner included.
pub const MAX_LISTENERS: usize = 5;

/// A session owner's profile, as stored with the session.
#[derive(Debug)]
pub struct User {
    pub id: String,
    pub name: String,
    pub picture: String,
}

/// Abstract value of a [`User`].
#[verifier::ext_equal]
pub struct UserView {
    pub id: Seq<char>,
    pub name: Seq<char>,
    pub picture: Seq<char>,
}

impl View for User {
    type V = UserView;

    open spec fn view(&self) -> UserView {
        UserView { id: self.id@, name: self.name@, picture: self.picture@ }
    }
}

/// A snapshot of a session for its public statistics.
pub struct SessionStats {
    pub session_owner: Listener,
    pub num_listeners: usize,
    pub listeners: Vec<Listener>,
    pub active_file_title: String,
}

/// One outside action a session operation asks its runtime to perform,
/// in order of appearance.
pub enum SessionEffect {
    /// Send `Stop` to the broadcaster.
    SendStop,
    /// Send `Play { key }` to the broadcaster.
    SendPlay { key: String },
    /// Empty the session's scratch directory.
    CleanScratch,
    /// Remove the session's scratch directory altogether.
    RemoveScratchDir,
    /// Publish `msg` on the session event bus.
    Publish { msg: String },
}

/// The effect is a publication of exactly `m`.
pub open spec fn is_publish(e: SessionEffect, m: Seq<char>) -> bool {
    e matches SessionEffect::Publish { msg } && msg@ == m
}

/// The effect starts playback of exactly `k`.
pub open spec fn is_play(e: SessionEffect, k: Seq<char>) -> bool {
    e matches SessionEffect::SendPlay { key } && key@ == k
}

/// Abstract value of a [`Session`].
#[verifier::ext_equal]
pub struct SessionView<C> {
    pub session_id: Seq<char>,
    pub owner: UserView,
    pub start_time: int,
    pub queue: QueueView,
    pub peers: Seq<PeerView<C>>,
}

/// How many peers are currently active.
pub open spec fn spec_active_count<C>(s: Seq<PeerView<C>>) -> int
    decreases s.len(),
{
    if s.len() == 0 {
        0
    } else {
        spec_active_count(s.drop_last()) + if s.last().active {
            1int
        } else {
            0int
        }
    }
}

/// The profiles of the currently active peers, in peer order.
pub open spec fn spec_active_listeners<C>(s: Seq<PeerView<C>>) -> Seq<ListenerView>
    decreases s.len(),
{
    if s.len() == 0 {
        Seq::<ListenerView>::empty()
    } else {
        let rest = spec_active_listeners(s.drop_last());
        if s.last().active {
            rest.push(s.last().listener)
        } else {
            rest
        }
    }
}

/// Whether some peer carries the id `pid`.
pub open spec fn has_peer<C>(s: Seq<PeerView<C>>, pid: Seq<char>) -> bool {
    exists|i: int| 0 <= i < s.len() && s[i].peer_id == pid
}

/// Whether some active peer belongs to the listener `lid`.
pub open spec fn has_active_listener<C>(s: Seq<PeerView<C>>, lid: Seq<char>) -> bool {
    exists|i: int| 0 <= i < s.len() && s[i].listener.id == lid && s[i].active
}

/// Whether the peer `pid` exists, is open, and still awaits its track.
pub open spec fn peer_ready_for_track<C>(s: Seq<PeerView<C>>, pid: Seq<char>) -> bool {
    exists|j: int|
        0 <= j < s.len() && (#[trigger] s[j]).peer_id == pid && s[j].phase is Created
            && !s[j].closed
}

/// Whether the peer `pid` exists with its track attached, awaiting the
/// offer.
pub open spec fn peer_ready_for_offer<C>(s: Seq<PeerView<C>>, pid: Seq<char>) -> bool {
    exists|j: int| 0 <= j < s.len() && (#[trigger] s[j]).peer_id == pid && s[j].phase
        is TrackAttached
}

/// Whether the peer `pid` exists with an offer outstanding, awaiting the
/// answer.
pub open spec fn peer_ready_for_answer<C>(s: Seq<PeerView<C>>, pid: Seq<char>) -> bool {
    exists|j: int| 0 <= j < s.len() && (#[trigger] s[j]).peer_id == pid && s[j].phase is Offered
}

impl<C> SessionView<C> {
    /// Session well-formedness: the queue invariant holds and peer ids
    /// are unique.
    pub open spec fn wf(self) -> bool {
        &&& self.queue.wf()
        &&& forall|a: int, b: int|
            0 <= a < b < self.peers.len() ==> #[trigger] self.peers[a].peer_id != #[trigger] self.peers[b].peer_id
    }
}

pub struct Session<C> {
    session_id: String,
    owner: User,
    start_time: u64,
    queue: PlayQueue,
    peers: Vec<PeerState<C>>,
}

impl<C> View for Session<C> {
    type V = SessionView<C>;

    closed spec fn view(&self) -> SessionView<C> {
        SessionView {
            session_id: self.session_id@,
            owner: self.owner@,
            start_time: self.start_time as int,
            queue: self.queue@,
            peers: self.peers@.map_values(|p: PeerState<C>| p@),
        }
    }
}

impl<C> Session<C> {
    pub fn new(session_id: String, owner: User, start_time: u64) -> (s: Self)
        ensures
            s@.session_id == session_id@,
            s@.owner == owner@,
            s@.start_time == start_time as int,
            s@.queue.items.len() == 0,
            s@.queue.cursor == 0,
            s@.peers.len() == 0,
            s@.wf(),
    {
        let s = Self { session_id, owner, start_time, queue: PlayQueue::new(), peers: Vec::new() };
        proof {
            assert(s@.peers =~= Seq::<PeerView<C>>::empty());
        }
        s
    }

    pub fn session_id(&self) -> (r: String)
        ensures
            r@ == self@.session_id,
    {
        self.session_id.clone()
    }

    pub fn get_session_owner(&self) -> (r: User)
        ensures
            r@ == self@.owner,
    {
        User {
            id: self.owner.id.clone(),
            name: self.owner.name.clone(),
            picture: self.owner.picture.clone(),
        }
    }

    pub fn get_session_start_time(&self) -> (r: u64)
        ensures
            r as int == self@.start_time,
    {
        self.start_time
    }

    pub fn get_queue_position(&self) -> (r: String)
        ensures
            r@ == dec_seq(self@.queue.cursor as nat),
    {
        self.queue.get_id()
    }

    pub fn get_queue_id(&self) -> (r: String)
        ensures
            r@ == dec_seq(self@.queue.cursor as nat),
    {
        self.queue.get_id()
    }

    pub fn get_queue(&self) -> (r: Vec<Vec<String>>)
        ensures
            r@.len() == self@.queue.items.len(),
            forall|i: int| 0 <= i < r@.len() ==> (#[trigger] r@[i])@.len() == 2,
            forall|i: int| 0 <= i < r@.len() ==> (#[trigger] r@[i])@[0]@ == self@.queue.items[i].0,
            forall|i: int| 0 <= i < r@.len() ==> (#[trigger] r@[i])@[1]@ == self@.queue.items[i].1,
    {
        self.queue.get_all()
    }

    pub fn has_file_in_queue(&self, key: String) -> (r: bool)
        ensures
            r == self@.queue.has_key(key@),
    {
        self.queue.has_key(key)
    }

    /// The titles of the first three queue slots, padded with empty
    /// strings past the end of the queue.
    pub fn get_top_queue(&self) -> (r: Vec<String>)
        ensures
            r@.len() == 3,
            forall|i: int|
                0 <= i < 3 ==> (#[trigger] r@[i])@ == if i < self@.queue.items.len() {
                    self@.queue.items[i].1
                } else {
                    Seq::<char>::empty()
                },
    {
        let mut r: Vec<String> = Vec::new();
        r.push(self.queue.get_title(0));
        r.push(self.queue.get_title(1));
        r.push(self.queue.get_title(2));
        r
    }

    /// How many peers are currently active, the listeners a stats call
    /// reports.
    pub fn get_number_of_listeners(&self) -> (r: usize)
        ensures
            r as int == spec_active_count(self@.peers),
    {
        let mut n: usize = 0;
        let mut i: usize = 0;
        while i < self.peers.len()
            invariant
                i <= self.peers.len(),
                self.peers@.len() == self@.peers.len(),
                n as int == spec_active_count(self@.peers.subrange(0, i as int)),
                n <= i,
            decreases self.peers.len() - i,
        {
            proof {
                let ext = self@.peers.subrange(0, i as int + 1);
                assert(ext.drop_last() =~= self@.peers.subrange(0, i as int));
                assert(ext.last() == self@.peers[i as int]);
            }
            if self.peers[i].is_active() {
                n = n + 1;
            }
            i += 1;
        }
        proof {
            assert(self@.peers.subrange(0, i as int) =~= self@.peers);
        }
        n
    }

    /// The profiles of the currently active peers.
    pub fn get_listeners(&self) -> (r: Vec<Listener>)
        ensures
            r@.map_values(|l: Listener| l@) == spec_active_listeners(self@.peers),
    {
        let mut r: Vec<Listener> = Vec::new();
        let mut i: usize = 0;
        proof {
            assert(r@.map_values(|l: Listener| l@) =~= spec_active_listeners(
                self@.peers.subrange(0, 0),
            ));
        }
        while i < self.peers.len()
            invariant
                i <= self.peers.len(),
                self.peers@.len() == self@.peers.len(),
                r@.map_values(|l: Listener| l@) =~= spec_active_listeners(
                    self@.peers.subrange(0, i as int),
                ),
            decreases self.peers.len() - i,
        {
            proof {
                let ext = self@.peers.subrange(0, i as int + 1);
                assert(ext.drop_last() =~= self@.peers.subrange(0, i as int));
                assert(ext.last() == self@.peers[i as int]);
            }
            if self.peers[i].is_active() {
                let l = self.peers[i].get_profile();
                r.push(l);
                proof {
                    assert(r@.map_values(|l: Listener| l@) =~= spec_active_listeners(
                        self@.peers.subrange(0, i as int + 1),
                    ));
                }
            } else {
                proof {
                    assert(r@.map_values(|l: Listener| l@) =~= spec_active_listeners(
                        self@.peers.subrange(0, i as int + 1),
                    ));
                }
            }
            i += 1;
        }
        proof {
            assert(self@.peers.subrange(0, i as int) =~= self@.peers);
        }
        r
    }

    /// One line per peer for the server-state page: the peer id and its
    /// activity flag.
    pub fn get_peers(&self) -> (r: Vec<String>)
        ensures
            r@.len() == self@.peers.len(),
            forall|i: int|
                0 <= i < r@.len() ==> (#[trigger] r@[i])@ == "uuid: "@ + self@.peers[i].peer_id
                    + " -- active: "@ + (if self@.peers[i].active {
                    "true"@
                } else {
                    "false"@
                }),
    {
        let mut r: Vec<String> = Vec::new();
        let mut i: usize = 0;
        while i < self.peers.len()
            invariant
                i <= self.peers.len(),
                self.peers@.len() == self@.peers.len(),
                r@.len() == i,
                forall|j: int|
                    0 <= j < i ==> (#[trigger] r@[j])@ == "uuid: "@ + self@.peers[j].peer_id
                        + " -- active: "@ + (if self@.peers[j].active {
                        "true"@
                    } else {
                        "false"@
                    }),
            decreases self.peers.len() - i,
        {
            let mut line = String::from_str("uuid: ");
            let pid = self.peers[i].peer_id();
            line.append(pid.as_str());
            line.append(" -- active: ");
            if self.peers[i].is_active() {
                line.append("true");
            } else {
                line.append("false");
            }
            r.push(line);
            i += 1;
        }
        r
    }

    /// Whether a new peer for `listener_id` may join: a second active
    /// connection by the owner is rejected, and listeners beyond the cap
    /// are turned away with `SessionFull`.
    pub fn admit_listener(&self, listener_id: &String) -> (r: Result<(), Error>)
        ensures
            r is Ok <==> !(listener_id@ == self@.owner.id && has_active_listener(
                self@.peers,
                self@.owner.id,
            )) && !(listener_id@ != self@.owner.id && spec_active_count(self@.peers)
                >= MAX_LISTENERS),
            listener_id@ == self@.owner.id && has_active_listener(self@.peers, self@.owner.id)
                ==> (r matches Err(Error::SessionError { .. })),
            listener_id@ != self@.owner.id && spec_active_count(self@.peers) >= MAX_LISTENERS ==> (
            r matches Err(Error::SessionFull)),
    {
        if self.owner.id.eq(listener_id) {
            let mut i: usize = 0;
            while i < self.peers.len()
                invariant
                    i <= self.peers.len(),
                    self.peers@.len() == self@.peers.len(),
                    self@.owner.id == listener_id@,
                    forall|j: int|
                        0 <= j < i ==> !((#[trigger] self@.peers[j]).listener.id == self@.owner.id
                            && self@.peers[j].active),
                decreases self.peers.len() - i,
            {
                if self.peers[i].is_active() {
                    let lid = self.peers[i].get_listener_id();
                    if lid == self.owner.id {
                        proof {
                            assert(self@.peers[i as int].listener.id == self@.owner.id
                                && self@.peers[i as int].active);
                        }
                        return Err(
                            Error::SessionError {
                                msg: String::from_str("owner already connected"),
                            },
                        );
                    }
                }
                i += 1;
            }
            Ok(())
        } else {
            if self.get_number_of_listeners() >= MAX_LISTENERS {
                return Err(Error::SessionFull);
            }
            Ok(())
        }
    }

    /// Registers a peer under the given id; an id already in use is
    /// rejected and nothing changes.
    pub fn register_peer(&mut self, peer_id: String, listener: Listener) -> (r: Result<(), Error>)
        requires
            old(self)@.wf(),
        ensures
            final(self)@.wf(),
            final(self)@.session_id == old(self)@.session_id,
            final(self)@.owner == old(self)@.owner,
            final(self)@.start_time == old(self)@.start_time,
            final(self)@.queue == old(self)@.queue,
            r is Ok <==> !has_peer(old(self)@.peers, peer_id@),
            r is Err ==> final(self)@ == old(self)@ && (r matches Err(Error::SessionError { .. })),
            r is Ok ==> {
                &&& final(self)@.peers.len() == old(self)@.peers.len() + 1
                &&& final(self)@.peers.subrange(0, old(self)@.peers.len() as int) == old(
                    self,
                )@.peers
                &&& final(self)@.peers.last() == (PeerView {
                    peer_id: peer_id@,
                    listener: listener@,
                    active: false,
                    gathering_complete: false,
                    ice: Seq::<C>::empty(),
                    phase: crate::peer::PeerPhase::Created,
                    closed: false,
                })
            },
    {
        if self.find_peer_idx(&peer_id).is_some() {
            return Err(Error::SessionError { msg: String::from_str("peer id already in use") });
        }
        let peer = PeerState::new(peer_id.clone(), listener);
        let ghost oldpeers = self@.peers;
        self.peers.push(peer);
        proof {
            assert(self@.peers =~= oldpeers.push(peer@));
            assert(final(self)@.peers.subrange(0, oldpeers.len() as int) =~= oldpeers);
            assert forall|a: int, b: int|
                0 <= a < b < self@.peers.len() implies #[trigger] self@.peers[a].peer_id
                != #[trigger] self@.peers[b].peer_id by {
                if b == self@.peers.len() - 1 {
                    assert(!has_peer(oldpeers, peer_id@));
                    assert(oldpeers[a].peer_id != peer_id@);
                }
            }
        }
        Ok(())
    }

    /// Creates a peer for `listener` under a fresh id and asks the
    /// broadcaster to attach the shared track to it.  Fails only in the
    /// vanishingly unlikely case that the fresh random id is already
    /// taken; the state is then unchanged.
    pub fn create_peer(&mut self, listener: Listener) -> (r: Result<
        (String, BroadcasterCommand),
        Error,
    >)
        requires
            old(self)@.wf(),
        ensures
            final(self)@.wf(),
            final(self)@.session_id == old(self)@.session_id,
            final(self)@.owner == old(self)@.owner,
            final(self)@.start_time == old(self)@.start_time,
            final(self)@.queue == old(self)@.queue,
            r matches Ok((id, cmd)) ==> {
                &&& !has_peer(old(self)@.peers, id@)
                &&& final(self)@.peers.len() == old(self)@.peers.len() + 1
                &&& final(self)@.peers.subrange(0, old(self)@.peers.len() as int) == old(
                    self,
                )@.peers
                &&& final(self)@.peers.last() == (PeerView {
                    peer_id: id@,
                    listener: listener@,
                    active: false,
                    gathering_complete: false,
                    ice: Seq::<C>::empty(),
                    phase: crate::peer::PeerPhase::Created,
                    closed: false,
                })
                &&& cmd matches BroadcasterCommand::Attach { peer_id } && peer_id@ == id@
            },
            r is Err ==> final(self)@ == old(self)@ && (r matches Err(Error::SessionError { .. })),
    {
        let id = crate::ids::fresh_uuid();
        match self.register_peer(id.clone(), listener) {
            Ok(()) => Ok((id.clone(), BroadcasterCommand::Attach { peer_id: id })),
            Err(e) => Err(e),
        }
    }

    /// The index of the peer with the given id.
    fn find_peer_idx(&self, peer_id: &String) -> (r: Option<usize>)
        ensures
            r is Some <==> has_peer(self@.peers, peer_id@),
            r matches Some(i) ==> i < self@.peers.len() && self@.peers[i as int].peer_id
                == peer_id@,
    {
        let mut i: usize = 0;
        while i < self.peers.len()
            invariant
                i <= self.peers.len(),
                self.peers@.len() == self@.peers.len(),
                forall|j: int| 0 <= j < i ==> (#[trigger] self@.peers[j]).peer_id != peer_id@,
            decreases self.peers.len() - i,
        {
            let pid = self.peers[i].peer_id();
            if pid.eq(peer_id) {
                proof {
                    assert(self@.peers[i as int].peer_id == peer_id@);
                }
                return Some(i);
            }
            i += 1;
        }
        None
    }

    /// A connection-state callback for one peer: flips its activity flag;
    /// the returned flag says that a `"connection"` event must be
    /// published.
    pub fn on_peer_connection_state(&mut self, peer_id: &String, connected: bool) -> (r: Result<
        bool,
        Error,
    >)
        requires
            old(self)@.wf(),
        ensures
            final(self)@.wf(),
            final(self)@.session_id == old(self)@.session_id,
            final(self)@.owner == old(self)@.owner,
            final(self)@.start_time == old(self)@.start_time,
            final(self)@.queue == old(self)@.queue,
            r is Ok <==> has_peer(old(self)@.peers, peer_id@),
            r is Err ==> final(self)@ == old(self)@ && (r matches Err(
                Error::PeerConnectionNotFound { peerid },
            ) && peerid@ == peer_id@),
            r matches Ok(publish) ==> publish && forall|j: int|
                0 <= j < old(self)@.peers.len() && (#[trigger] old(self)@.peers[j]).peer_id
                    == peer_id@ ==> final(self)@.peers == old(self)@.peers.update(
                    j,
                    (PeerView { active: connected, ..old(self)@.peers[j] }),
                ),
    {
        match self.find_peer_idx(peer_id) {
            Some(i) => {
                let ghost oldpeers = self@.peers;
                let publish = self.peers[i].on_connection_state(connected);
                proof {
                    assert(self@.peers =~= oldpeers.update(
                        i as int,
                        (PeerView { active: connected, ..oldpeers[i as int] }),
                    ));
                    lemma_unique_update(oldpeers, i as int, self@.peers);
                }
                Ok(publish)
            },
            None => Err(Error::PeerConnectionNotFound { peerid: peer_id.clone() }),
        }
    }

    /// An ICE callback for one peer: a `Some` candidate is appended to
    /// its list, the `None` candidate latches gathering completion.
    pub fn on_peer_ice(&mut self, peer_id: &String, candidate: Option<C>) -> (r: Result<(), Error>)
        requires
            old(self)@.wf(),
        ensures
            final(self)@.wf(),
            final(self)@.session_id == old(self)@.session_id,
            final(self)@.owner == old(self)@.owner,
            final(self)@.start_time == old(self)@.start_time,
            final(self)@.queue == old(self)@.queue,
            r is Ok <==> has_peer(old(self)@.peers, peer_id@),
            r is Err ==> final(self)@ == old(self)@ && (r matches Err(
                Error::PeerConnectionNotFound { peerid },
            ) && peerid@ == peer_id@),
            r is Ok ==> forall|j: int|
                0 <= j < old(self)@.peers.len() && (#[trigger] old(self)@.peers[j]).peer_id
                    == peer_id@ ==> final(self)@.peers == old(self)@.peers.update(
                    j,
                    match candidate {
                        Some(c) => (PeerView {
                            ice: old(self)@.peers[j].ice.push(c),
                            ..old(self)@.peers[j]
                        }),
                        None => (PeerView {
                            gathering_complete: true,
                            ..old(self)@.peers[j]
                        }),
                    },
                ),
    {
        match self.find_peer_idx(peer_id) {
            Some(i) => {
                let ghost oldpeers = self@.peers;
                self.peers[i].on_ice(candidate);
                proof {
                    assert(self@.peers =~= oldpeers.update(i as int, self@.peers[i as int]));
                    lemma_unique_update(oldpeers, i as int, self@.peers);
                }
                Ok(())
            },
            None => Err(Error::PeerConnectionNotFound { peerid: peer_id.clone() }),
        }
    }

    /// The track-attachment step for one peer (the broadcaster's
    /// `Attach` handling): succeeds exactly on an existing, open peer
    /// that still awaits its track.
    pub fn peer_add_track(&mut self, peer_id: &String) -> (r: Result<(), Error>)
        requires
            old(self)@.wf(),
        ensures
            final(self)@.wf(),
            final(self)@.session_id == old(self)@.session_id,
            final(self)@.owner == old(self)@.owner,
            final(self)@.start_time == old(self)@.start_time,
            final(self)@.queue == old(self)@.queue,
            r is Ok <==> peer_ready_for_track(old(self)@.peers, peer_id@),
            !has_peer(old(self)@.peers, peer_id@) ==> (r matches Err(
                Error::PeerConnectionNotFound { peerid },
            ) && peerid@ == peer_id@),
            has_peer(old(self)@.peers, peer_id@) && r is Err ==> (r matches Err(
                Error::WebRTCErr { .. },
            )),
            r is Err ==> final(self)@ == old(self)@,
            r is Ok ==> forall|j: int|
                0 <= j < old(self)@.peers.len() && (#[trigger] old(self)@.peers[j]).peer_id
                    == peer_id@ ==> final(self)@.peers == old(self)@.peers.update(
                    j,
                    (PeerView {
                        phase: crate::peer::PeerPhase::TrackAttached,
                        ..old(self)@.peers[j]
                    }),
                ),
    {
        match self.find_peer_idx(peer_id) {
            Some(i) => {
                let ghost oldpeers = self@.peers;
                let r = self.peers[i].add_track();
                proof {
                    assert(self@.peers =~= oldpeers.update(i as int, self@.peers[i as int]));
                    lemma_unique_update(oldpeers, i as int, self@.peers);
                    assert forall|j: int|
                        0 <= j < oldpeers.len() && (#[trigger] oldpeers[j]).peer_id == peer_id@
                            implies j == i as int by {
                        if j < i as int {
                            assert(oldpeers[j].peer_id != oldpeers[i as int].peer_id);
                        }
                        if j > i as int {
                            assert(oldpeers[i as int].peer_id != oldpeers[j].peer_id);
                        }
                    }
                    if r is Ok {
                        assert(oldpeers[i as int].peer_id == peer_id@
                            && oldpeers[i as int].phase is Created && !oldpeers[i as int].closed);
                    } else {
                        assert(self@.peers[i as int] =~= oldpeers[i as int]);
                        assert(self@.peers =~= oldpeers);
                        assert(self@ =~= old(self)@);
                        if peer_ready_for_track(oldpeers, peer_id@) {
                            let j = choose|j: int|
                                0 <= j < oldpeers.len() && (#[trigger] oldpeers[j]).peer_id
                                    == peer_id@ && oldpeers[j].phase is Created
                                    && !oldpeers[j].closed;
                            assert(j == i as int);
                            assert(false);
                        }
                    }
                }
                r
            },
            None => {
                proof {
                    if peer_ready_for_track(self@.peers, peer_id@) {
                        let j = choose|j: int|
                            0 <= j < self@.peers.len() && (#[trigger] self@.peers[j]).peer_id
                                == peer_id@ && self@.peers[j].phase is Created
                                && !self@.peers[j].closed;
                        assert(has_peer(self@.peers, peer_id@));
                    }
                }
                Err(Error::PeerConnectionNotFound { peerid: peer_id.clone() })
            },
        }
    }

    /// The offer step for one peer: the stack reported `local_sdp` as
    /// the local description.  Succeeds exactly on an existing peer with
    /// its track attached and a description present; a missing
    /// description is `LocalDescriptionMissing`, a wrong order fails
    /// fast.
    pub fn get_offer(&mut self, peer_id: &String, local_sdp: Option<String>) -> (r: Result<
        String,
        Error,
    >)
        requires
            old(self)@.wf(),
        ensures
            final(self)@.wf(),
            final(self)@.session_id == old(self)@.session_id,
            final(self)@.owner == old(self)@.owner,
            final(self)@.start_time == old(self)@.start_time,
            final(self)@.queue == old(self)@.queue,
            r is Ok <==> (local_sdp is Some && peer_ready_for_offer(old(self)@.peers, peer_id@)),
            r matches Ok(sdp) ==> (local_sdp matches Some(s) && sdp@ == s@),
            !has_peer(old(self)@.peers, peer_id@) ==> (r matches Err(
                Error::PeerConnectionNotFound { peerid },
            ) && peerid@ == peer_id@),
            has_peer(old(self)@.peers, peer_id@) && !peer_ready_for_offer(
                old(self)@.peers,
                peer_id@,
            ) ==> (r matches Err(Error::WebRTCErr { .. })),
            peer_ready_for_offer(old(self)@.peers, peer_id@) && local_sdp is None ==> (r matches
                Err(Error::LocalDescriptionMissing)),
            r is Err ==> final(self)@ == old(self)@,
            r is Ok ==> forall|j: int|
                0 <= j < old(self)@.peers.len() && (#[trigger] old(self)@.peers[j]).peer_id
                    == peer_id@ ==> final(self)@.peers == old(self)@.peers.update(
                    j,
                    (PeerView { phase: crate::peer::PeerPhase::Offered, ..old(self)@.peers[j] }),
                ),
    {
        match self.find_peer_idx(peer_id) {
            Some(i) => {
                let ghost oldpeers = self@.peers;
                let r = self.peers[i].offer_ready(local_sdp);
                proof {
                    assert(self@.peers =~= oldpeers.update(i as int, self@.peers[i as int]));
                    lemma_unique_update(oldpeers, i as int, self@.peers);
                    assert forall|j: int|
                        0 <= j < oldpeers.len() && (#[trigger] oldpeers[j]).peer_id == peer_id@
                            implies j == i as int by {
                        if j < i as int {
                            assert(oldpeers[j].peer_id != oldpeers[i as int].peer_id);
                        }
                        if j > i as int {
                            assert(oldpeers[i as int].peer_id != oldpeers[j].peer_id);
                        }
                    }
                    if r is Ok {
                        assert(oldpeers[i as int].peer_id == peer_id@
                            && oldpeers[i as int].phase is TrackAttached);
                    } else {
                        assert(self@.peers[i as int] =~= oldpeers[i as int]);
                        assert(self@.peers =~= oldpeers);
                        assert(self@ =~= old(self)@);
                        if peer_ready_for_offer(oldpeers, peer_id@) {
                            let j = choose|j: int|
                                0 <= j < oldpeers.len() && (#[trigger] oldpeers[j]).peer_id
                                    == peer_id@ && oldpeers[j].phase is TrackAttached;
                            assert(j == i as int);
                        }
                    }
                }
                r
            },
            None => {
                proof {
                    if peer_ready_for_offer(self@.peers, peer_id@) {
                        let j = choose|j: int|
                            0 <= j < self@.peers.len() && (#[trigger] self@.peers[j]).peer_id
                                == peer_id@ && self@.peers[j].phase is TrackAttached;
                        assert(has_peer(self@.peers, peer_id@));
                    }
                }
                Err(Error::PeerConnectionNotFound { peerid: peer_id.clone() })
            },
        }
    }

    /// The answer step for one peer: an SDP answer arrived for it.
    /// Succeeds exactly on an existing peer with an offer outstanding;
    /// the answer itself is consumed by the transport stack.
    pub fn set_answer(&mut self, peer_id: &String) -> (r: Result<(), Error>)
        requires
            old(self)@.wf(),
        ensures
            final(self)@.wf(),
            final(self)@.session_id == old(self)@.session_id,
            final(self)@.owner == old(self)@.owner,
            final(self)@.start_time == old(self)@.start_time,
            final(self)@.queue == old(self)@.queue,
            r is Ok <==> peer_ready_for_answer(old(self)@.peers, peer_id@),
            !has_peer(old(self)@.peers, peer_id@) ==> (r matches Err(
                Error::PeerConnectionNotFound { peerid },
            ) && peerid@ == peer_id@),
            has_peer(old(self)@.peers, peer_id@) && r is Err ==> (r matches Err(
                Error::WebRTCErr { .. },
            )),
            r is Err ==> final(self)@ == old(self)@,
            r is Ok ==> forall|j: int|
                0 <= j < old(self)@.peers.len() && (#[trigger] old(self)@.peers[j]).peer_id
                    == peer_id@ ==> final(self)@.peers == old(self)@.peers.update(
                    j,
                    (PeerView { phase: crate::peer::PeerPhase::Answered, ..old(self)@.peers[j] }),
                ),
    {
        match self.find_peer_idx(peer_id) {
            Some(i) => {
                let ghost oldpeers = self@.peers;
                let r = self.peers[i].answer_received();
                proof {
                    assert(self@.peers =~= oldpeers.update(i as int, self@.peers[i as int]));
                    lemma_unique_update(oldpeers, i as int, self@.peers);
                    assert forall|j: int|
                        0 <= j < oldpeers.len() && (#[trigger] oldpeers[j]).peer_id == peer_id@
                            implies j == i as int by {
                        if j < i as int {
                            assert(oldpeers[j].peer_id != oldpeers[i as int].peer_id);
                        }
                        if j > i as int {
                            assert(oldpeers[i as int].peer_id != oldpeers[j].peer_id);
                        }
                    }
                    if r is Ok {
                        assert(oldpeers[i as int].peer_id == peer_id@
                            && oldpeers[i as int].phase is Offered);
                    } else {
                        assert(self@.peers[i as int] =~= oldpeers[i as int]);
                        assert(self@.peers =~= oldpeers);
                        assert(self@ =~= old(self)@);
                        if peer_ready_for_answer(oldpeers, peer_id@) {
                            let j = choose|j: int|
                                0 <= j < oldpeers.len() && (#[trigger] oldpeers[j]).peer_id
                                    == peer_id@ && oldpeers[j].phase is Offered;
                            assert(j == i as int);
                        }
                    }
                }
                r
            },
            None => {
                proof {
                    if peer_ready_for_answer(self@.peers, peer_id@) {
                        let j = choose|j: int|
                            0 <= j < self@.peers.len() && (#[trigger] self@.peers[j]).peer_id
                                == peer_id@ && self@.peers[j].phase is Offered;
                        assert(has_peer(self@.peers, peer_id@));
                    }
                }
                Err(Error::PeerConnectionNotFound { peerid: peer_id.clone() })
            },
        }
    }

    /// The gathered local candidates of one peer, once gathering has
    /// completed; `Ok(None)` asks the caller to wait on the latch.
    pub fn get_ice(&self, peer_id: &String) -> (r: Result<Option<&Vec<C>>, Error>)
        requires
            self@.wf(),
        ensures
            r is Err <==> !has_peer(self@.peers, peer_id@),
            r is Err ==> (r matches Err(Error::PeerConnectionNotFound { peerid }) && peerid@
                == peer_id@),
            r matches Ok(snap) ==> forall|j: int|
                0 <= j < self@.peers.len() && (#[trigger] self@.peers[j]).peer_id == peer_id@
                    ==> (snap is Some <==> self@.peers[j].gathering_complete) && (snap matches Some(
                    v,
                ) ==> v@ == self@.peers[j].ice),
    {
        let mut i: usize = 0;
        while i < self.peers.len()
            invariant
                self@.wf(),
                i <= self.peers.len(),
                self.peers@.len() == self@.peers.len(),
                forall|j: int| 0 <= j < i ==> (#[trigger] self@.peers[j]).peer_id != peer_id@,
            decreases self.peers.len() - i,
        {
            let pid = self.peers[i].peer_id();
            if pid.eq(peer_id) {
                let snap = self.peers[i].ice_snapshot();
                proof {
                    assert(self@.peers[i as int].peer_id == peer_id@);
                    assert forall|j: int|
                        0 <= j < self@.peers.len() && (#[trigger] self@.peers[j]).peer_id
                            == peer_id@ implies j == i as int by {
                        if j != i as int {
                            assert(self@.peers[j].peer_id != self@.peers[i as int].peer_id);
                        }
                    }
                }
                return Ok(snap);
            }
            i += 1;
        }
        Err(Error::PeerConnectionNotFound { peerid: peer_id.clone() })
    }

    /// A remote trickle candidate arrived for one peer; the candidate
    /// itself goes to the transport stack, the session only vouches that
    /// the peer exists.
    pub fn add_ice(&self, peer_id: &String) -> (r: Result<(), Error>)
        ensures
            r is Ok <==> has_peer(self@.peers, peer_id@),
            r is Err ==> (r matches Err(Error::PeerConnectionNotFound { peerid }) && peerid@
                == peer_id@),
    {
        match self.find_peer_idx(peer_id) {
            Some(_) => Ok(()),
            None => Err(Error::PeerConnectionNotFound { peerid: peer_id.clone() }),
        }
    }

    /// A voluntary leave: the peer closes and goes inactive; its entry is
    /// retained.
    pub fn disconnect(&mut self, peer_id: &String) -> (r: Result<(), Error>)
        requires
            old(self)@.wf(),
        ensures
            final(self)@.wf(),
            final(self)@.session_id == old(self)@.session_id,
            final(self)@.owner == old(self)@.owner,
            final(self)@.start_time == old(self)@.start_time,
            final(self)@.queue == old(self)@.queue,
            r is Ok <==> has_peer(old(self)@.peers, peer_id@),
            r is Err ==> final(self)@ == old(self)@ && (r matches Err(
                Error::PeerConnectionNotFound { peerid },
            ) && peerid@ == peer_id@),
            r is Ok ==> forall|j: int|
                0 <= j < old(self)@.peers.len() && (#[trigger] old(self)@.peers[j]).peer_id
                    == peer_id@ ==> final(self)@.peers == old(self)@.peers.update(
                    j,
                    (PeerView { closed: true, active: false, ..old(self)@.peers[j] }),
                ),
    {
        match self.find_peer_idx(peer_id) {
            Some(i) => {
                let ghost oldpeers = self@.peers;
                self.peers[i].disconnect();
                proof {
                    assert(self@.peers =~= oldpeers.update(i as int, self@.peers[i as int]));
                    lemma_unique_update(oldpeers, i as int, self@.peers);
                }
                Ok(())
            },
            None => Err(Error::PeerConnectionNotFound { peerid: peer_id.clone() }),
        }
    }
}


impl<C> Session<C> {
    /// Adds `(key, title)` to the queue; when the queue was empty the new
    /// track starts playing at once.
    pub fn add_to_queue(&mut self, key: String, title: String) -> (effects: Vec<SessionEffect>)
        requires
            old(self)@.wf(),
        ensures
            final(self)@.wf(),
            final(self)@.session_id == old(self)@.session_id,
            final(self)@.owner == old(self)@.owner,
            final(self)@.start_time == old(self)@.start_time,
            final(self)@.peers == old(self)@.peers,
            final(self)@.queue == spec_add(old(self)@.queue, key@, title@).q,
            ({
                let act = spec_add(old(self)@.queue, key@, title@).act;
                let cur = dec_seq(final(self)@.queue.cursor as nat);
                &&& act matches ActionView::Next(k) ==> effects@.len() == 3 && effects@[0]
                    is SendStop && is_play(effects@[1], k) && is_publish(effects@[2], cur)
                &&& act is Pass ==> effects@.len() == 1 && is_publish(effects@[0], cur)
            }),
    {
        let act = self.queue.add(key, title);
        let mut effects: Vec<SessionEffect> = Vec::new();
        match act {
            QueueAction::Next(k) => {
                effects.push(SessionEffect::SendStop);
                effects.push(SessionEffect::SendPlay { key: k });
                effects.push(SessionEffect::Publish { msg: self.queue.get_id() });
            },
            _ => {
                effects.push(SessionEffect::Publish { msg: self.queue.get_id() });
            },
        }
        effects
    }

    /// Removes the queue entry at `index`; removing the playing entry
    /// starts the one that takes its place, and emptying the queue stops
    /// playback and clears the staged file.
    pub fn remove_from_queue(&mut self, index: usize) -> (r: Result<Vec<SessionEffect>, Error>)
        requires
            old(self)@.wf(),
        ensures
            final(self)@.wf(),
            final(self)@.session_id == old(self)@.session_id,
            final(self)@.owner == old(self)@.owner,
            final(self)@.start_time == old(self)@.start_time,
            final(self)@.peers == old(self)@.peers,
            final(self)@.queue == spec_remove_by_id(old(self)@.queue, index as int).q,
            ({
                let act = spec_remove_by_id(old(self)@.queue, index as int).act;
                let cur = dec_seq(final(self)@.queue.cursor as nat);
                &&& act matches ActionView::Next(k) ==> (r matches Ok(e) && e@.len() == 3
                    && e@[0] is SendStop && is_play(e@[1], k) && is_publish(e@[2], cur))
                &&& act is Stop ==> (r matches Ok(e) && e@.len() == 3 && e@[0] is SendStop
                    && e@[1] is CleanScratch && is_publish(e@[2], cur))
                &&& act is Pass ==> (r matches Ok(e) && e@.len() == 1 && is_publish(e@[0], cur))
                &&& act is NotFound ==> (r matches Err(Error::QueueError { .. }))
            }),
    {
        let act = self.queue.remove_by_id(index);
        let mut effects: Vec<SessionEffect> = Vec::new();
        match act {
            QueueAction::Next(k) => {
                effects.push(SessionEffect::SendStop);
                effects.push(SessionEffect::SendPlay { key: k });
                effects.push(SessionEffect::Publish { msg: self.queue.get_id() });
                Ok(effects)
            },
            QueueAction::Stop => {
                effects.push(SessionEffect::SendStop);
                effects.push(SessionEffect::CleanScratch);
                effects.push(SessionEffect::Publish { msg: self.queue.get_id() });
                Ok(effects)
            },
            QueueAction::Pass => {
                effects.push(SessionEffect::Publish { msg: self.queue.get_id() });
                Ok(effects)
            },
            QueueAction::NotFound => Err(
                Error::QueueError { msg: String::from_str("index not found") },
            ),
        }
    }

    /// Removes every queue entry whose key is `key`.
    pub fn remove_key_from_queue(&mut self, key: String) -> (r: Result<Vec<SessionEffect>, Error>)
        requires
            old(self)@.wf(),
        ensures
            final(self)@.wf(),
            final(self)@.session_id == old(self)@.session_id,
            final(self)@.owner == old(self)@.owner,
            final(self)@.start_time == old(self)@.start_time,
            final(self)@.peers == old(self)@.peers,
            final(self)@.queue == spec_remove_by_key(old(self)@.queue, key@).q,
            ({
                let act = spec_remove_by_key(old(self)@.queue, key@).act;
                let cur = dec_seq(final(self)@.queue.cursor as nat);
                &&& act matches ActionView::Next(k) ==> (r matches Ok(e) && e@.len() == 3
                    && e@[0] is SendStop && is_play(e@[1], k) && is_publish(e@[2], cur))
                &&& act is Stop ==> (r matches Ok(e) && e@.len() == 3 && e@[0] is SendStop
                    && e@[1] is CleanScratch && is_publish(e@[2], cur))
                &&& act is Pass ==> (r matches Ok(e) && e@.len() == 1 && is_publish(e@[0], cur))
            }),
    {
        let act = self.queue.remove_by_key(key);
        let mut effects: Vec<SessionEffect> = Vec::new();
        match act {
            QueueAction::Next(k) => {
                effects.push(SessionEffect::SendStop);
                effects.push(SessionEffect::SendPlay { key: k });
                effects.push(SessionEffect::Publish { msg: self.queue.get_id() });
                Ok(effects)
            },
            QueueAction::Stop => {
                effects.push(SessionEffect::SendStop);
                effects.push(SessionEffect::CleanScratch);
                effects.push(SessionEffect::Publish { msg: self.queue.get_id() });
                Ok(effects)
            },
            QueueAction::Pass => {
                effects.push(SessionEffect::Publish { msg: self.queue.get_id() });
                Ok(effects)
            },
            QueueAction::NotFound => Err(
                Error::QueueError { msg: String::from_str("key not found") },
            ),
        }
    }

    /// Moves the entry at `old_index` to `new_index`; the cursor keeps
    /// pointing at the same track.
    pub fn reorder_queue(&mut self, old_index: usize, new_index: usize) -> (r: Result<
        Vec<SessionEffect>,
        Error,
    >)
        requires
            old(self)@.wf(),
        ensures
            final(self)@.wf(),
            final(self)@.session_id == old(self)@.session_id,
            final(self)@.owner == old(self)@.owner,
            final(self)@.start_time == old(self)@.start_time,
            final(self)@.peers == old(self)@.peers,
            final(self)@.queue == spec_reorder(
                old(self)@.queue,
                old_index as int,
                new_index as int,
            ).q,
            ({
                let act = spec_reorder(old(self)@.queue, old_index as int, new_index as int).act;
                let cur = dec_seq(final(self)@.queue.cursor as nat);
                &&& act is Pass ==> (r matches Ok(e) && e@.len() == 1 && is_publish(e@[0], cur))
                &&& act is NotFound ==> (r matches Err(Error::QueueError { .. }))
            }),
    {
        let act = self.queue.reorder(old_index, new_index);
        let mut effects: Vec<SessionEffect> = Vec::new();
        match act {
            QueueAction::NotFound => Err(
                Error::QueueError { msg: String::from_str("index out of range") },
            ),
            _ => {
                effects.push(SessionEffect::Publish { msg: self.queue.get_id() });
                Ok(effects)
            },
        }
    }

    /// Advances the cursor (wrapping); an empty queue stops playback and
    /// clears the staged file instead.
    pub fn next_in_queue(&mut self) -> (effects: Vec<SessionEffect>)
        requires
            old(self)@.wf(),
        ensures
            final(self)@.wf(),
            final(self)@.session_id == old(self)@.session_id,
            final(self)@.owner == old(self)@.owner,
            final(self)@.start_time == old(self)@.start_time,
            final(self)@.peers == old(self)@.peers,
            final(self)@.queue == spec_next(old(self)@.queue),
            ({
                let q2 = spec_next(old(self)@.queue);
                let cur = dec_seq(q2.cursor as nat);
                &&& (q2.items.len() == 0 || q2.items[q2.cursor].0 == Seq::<char>::empty())
                    ==> effects@.len() == 3 && effects@[0] is SendStop && effects@[1]
                    is CleanScratch && is_publish(effects@[2], cur)
                &&& !(q2.items.len() == 0 || q2.items[q2.cursor].0 == Seq::<char>::empty())
                    ==> effects@.len() == 3 && effects@[0] is SendStop && is_play(
                    effects@[1],
                    q2.items[q2.cursor].0,
                ) && is_publish(effects@[2], cur)
            }),
    {
        let k = self.queue.next();
        let mut effects: Vec<SessionEffect> = Vec::new();
        effects.push(SessionEffect::SendStop);
        if k.as_str().is_empty() {
            proof {
                assert(k@ =~= Seq::<char>::empty());
            }
            effects.push(SessionEffect::CleanScratch);
        } else {
            effects.push(SessionEffect::SendPlay { key: k });
        }
        effects.push(SessionEffect::Publish { msg: self.queue.get_id() });
        effects
    }

    /// Retreats the cursor (wrapping); an empty queue stops playback and
    /// clears the staged file instead.
    pub fn prev_in_queue(&mut self) -> (effects: Vec<SessionEffect>)
        requires
            old(self)@.wf(),
        ensures
            final(self)@.wf(),
            final(self)@.session_id == old(self)@.session_id,
            final(self)@.owner == old(self)@.owner,
            final(self)@.start_time == old(self)@.start_time,
            final(self)@.peers == old(self)@.peers,
            final(self)@.queue == spec_prev(old(self)@.queue),
            ({
                let q2 = spec_prev(old(self)@.queue);
                let cur = dec_seq(q2.cursor as nat);
                &&& (q2.items.len() == 0 || q2.items[q2.cursor].0 == Seq::<char>::empty())
                    ==> effects@.len() == 3 && effects@[0] is SendStop && effects@[1]
                    is CleanScratch && is_publish(effects@[2], cur)
                &&& !(q2.items.len() == 0 || q2.items[q2.cursor].0 == Seq::<char>::empty())
                    ==> effects@.len() == 3 && effects@[0] is SendStop && is_play(
                    effects@[1],
                    q2.items[q2.cursor].0,
                ) && is_publish(effects@[2], cur)
            }),
    {
        let k = self.queue.prev();
        let mut effects: Vec<SessionEffect> = Vec::new();
        effects.push(SessionEffect::SendStop);
        if k.as_str().is_empty() {
            proof {
                assert(k@ =~= Seq::<char>::empty());
            }
            effects.push(SessionEffect::CleanScratch);
        } else {
            effects.push(SessionEffect::SendPlay { key: k });
        }
        effects.push(SessionEffect::Publish { msg: self.queue.get_id() });
        effects
    }

    /// Fire-and-forget playback of `key`: stop the running pacing task,
    /// then start the new one.
    pub fn play(&self, key: String) -> (effects: Vec<SessionEffect>)
        ensures
            effects@.len() == 2,
            effects@[0] is SendStop,
            is_play(effects@[1], key@),
    {
        let mut effects: Vec<SessionEffect> = Vec::new();
        effects.push(SessionEffect::SendStop);
        effects.push(SessionEffect::SendPlay { key });
        effects
    }

    /// Stops playback and empties the session's scratch directory.
    pub fn clean_active_file(&self) -> (effects: Vec<SessionEffect>)
        ensures
            effects@.len() == 2,
            effects@[0] is SendStop,
            effects@[1] is CleanScratch,
    {
        let mut effects: Vec<SessionEffect> = Vec::new();
        effects.push(SessionEffect::SendStop);
        effects.push(SessionEffect::CleanScratch);
        effects
    }

    /// Publishes `msg` on the session event bus.
    pub fn ping(&self, msg: String) -> (effects: Vec<SessionEffect>)
        ensures
            effects@.len() == 1,
            is_publish(effects@[0], msg@),
    {
        let mut effects: Vec<SessionEffect> = Vec::new();
        effects.push(SessionEffect::Publish { msg });
        effects
    }

    /// The autoplay step: on `End` the queue advances, the new cursor is
    /// published, and the next track (if any) starts playing.
    pub fn on_broadcaster_event(&mut self, event: BroadcasterEvent) -> (effects: Vec<
        SessionEffect,
    >)
        requires
            old(self)@.wf(),
        ensures
            final(self)@.wf(),
            final(self)@.session_id == old(self)@.session_id,
            final(self)@.owner == old(self)@.owner,
            final(self)@.start_time == old(self)@.start_time,
            final(self)@.peers == old(self)@.peers,
            event is TrackAdded ==> final(self)@ == old(self)@ && effects@.len() == 0,
            event is End ==> final(self)@.queue == spec_next(old(self)@.queue) && ({
                let q2 = spec_next(old(self)@.queue);
                let cur = dec_seq(q2.cursor as nat);
                &&& (q2.items.len() == 0 || q2.items[q2.cursor].0 == Seq::<char>::empty())
                    ==> effects@.len() == 1 && is_publish(effects@[0], cur)
                &&& !(q2.items.len() == 0 || q2.items[q2.cursor].0 == Seq::<char>::empty())
                    ==> effects@.len() == 2 && is_publish(effects@[0], cur) && is_play(
                    effects@[1],
                    q2.items[q2.cursor].0,
                )
            }),
    {
        let mut effects: Vec<SessionEffect> = Vec::new();
        match event {
            BroadcasterEvent::End => {
                let k = self.queue.next();
                effects.push(SessionEffect::Publish { msg: self.queue.get_id() });
                if !k.as_str().is_empty() {
                    effects.push(SessionEffect::SendPlay { key: k });
                } else {
                    proof {
                        assert(k@ =~= Seq::<char>::empty());
                    }
                }
                effects
            },
            BroadcasterEvent::TrackAdded => effects,
        }
    }
}

/// Updating one peer entry without changing its id keeps the ids unique.
proof fn lemma_unique_update<C>(s: Seq<PeerView<C>>, i: int, t: Seq<PeerView<C>>)
    requires
        0 <= i < s.len(),
        forall|a: int, b: int|
            0 <= a < b < s.len() ==> #[trigger] s[a].peer_id != #[trigger] s[b].peer_id,
        t.len() == s.len(),
        t[i].peer_id == s[i].peer_id,
        forall|j: int| 0 <= j < s.len() && j != i ==> t[j] == s[j],
    ensures
        forall|a: int, b: int|
            0 <= a < b < t.len() ==> #[trigger] t[a].peer_id != #[trigger] t[b].peer_id,
{
    assert forall|a: int, b: int|
        0 <= a < b < t.len() implies #[trigger] t[a].peer_id != #[trigger] t[b].peer_id by {
        assert(t[a].peer_id == s[a].peer_id);
        assert(t[b].peer_id == s[b].peer_id);
    }
}

} // verus!
