//! The state of one listener's peer connection, as the session tracks it:
//! the listener's profile, the activity flag flipped by connection-state
//! callbacks, the gathered ICE candidates, and the ordering of the
//! signaling steps (attach a track, create the offer, receive the answer).
//!
//! The transport stack itself lives outside; callbacks hand their payloads
//! to these methods as plain values.  The candidate payload type `C` is
//! whatever the embedding stack gathers.

use vstd::prelude::*;
use crate::errors::Error;

verus! {

/// A listener's public profile.
#[derive(Clone, Debug)]
pub struct Listener {
    pub name: String,
    pub picture: String,
    pub id: String,
}

/// Abstract value of a [`Listener`].
#[verifier::ext_equal]
pub struct ListenerView {
    pub name: Seq<char>,
    pub picture: Seq<char>,
    pub id: Seq<char>,
}

impl View for Listener {
    type V = ListenerView;

    open spec fn view(&self) -> ListenerView {
        ListenerView { name: self.name@, picture: self.picture@, id: self.id@ }
    }
}

/// Where a peer stands in the signaling dance: a track must be attached
/// before the offer, and the answer must follow the offer.
pub enum PeerPhase {
    Created,
    TrackAttached,
    Offered,
    Answered,
}

/// Abstract value of a [`PeerState`].
#[verifier::ext_equal]
pub struct PeerView<C> {
    pub peer_id: Seq<char>,
    pub listener: ListenerView,
    pub active: bool,
    pub gathering_complete: bool,
    pub ice: Seq<C>,
    pub phase: PeerPhase,
    pub closed: bool,
}

pub struct PeerState<C> {
    peer_id: String,
    listener: Listener,
    active: bool,
    gathering_complete: bool,
    ice_candidates: Vec<C>,
    phase: PeerPhase,
    closed: bool,
}

impl<C> View for PeerState<C> {
    type V = PeerView<C>;

    closed spec fn view(&self) -> PeerView<C> {
        PeerView {
            peer_id: self.peer_id@,
            listener: self.listener@,
            active: self.active,
            gathering_complete: self.gathering_complete,
            ice: self.ice_candidates@,
            phase: self.phase,
            closed: self.closed,
        }
    }
}

impl<C> PeerState<C> {
    pub fn new(peer_id: String, listener: Listener) -> (p: Self)
        ensures
            p@.peer_id == peer_id@,
            p@.listener == listener@,
            p@.active == false,
            p@.gathering_complete == false,
            p@.ice == Seq::<C>::empty(),
            p@.phase is Created,
            p@.closed == false,
    {
        let p = Self {
            peer_id,
            listener,
            active: false,
            gathering_complete: false,
            ice_candidates: Vec::new(),
            phase: PeerPhase::Created,
            closed: false,
        };
        proof {
            assert(p@.ice =~= Seq::<C>::empty());
        }
        p
    }

    /// Attaching the shared audio track: allowed once, on a fresh open
    /// peer, and required before the offer is created.
    pub fn add_track(&mut self) -> (r: Result<(), Error>)
        ensures
            final(self)@.peer_id == old(self)@.peer_id,
            final(self)@.listener == old(self)@.listener,
            final(self)@.active == old(self)@.active,
            final(self)@.gathering_complete == old(self)@.gathering_complete,
            final(self)@.ice == old(self)@.ice,
            final(self)@.closed == old(self)@.closed,
            r is Ok <==> (old(self)@.phase is Created && !old(self)@.closed),
            r is Ok ==> final(self)@.phase is TrackAttached,
            r is Err ==> final(self)@.phase == old(self)@.phase && (r matches Err(
                Error::WebRTCErr { .. },
            )),
    {
        if self.closed {
            return Err(Error::WebRTCErr { source: String::from_str("peer is closed") });
        }
        match self.phase {
            PeerPhase::Created => {
                self.phase = PeerPhase::TrackAttached;
                Ok(())
            },
            _ => Err(Error::WebRTCErr { source: String::from_str("track already attached") }),
        }
    }

    /// The offer step: the stack has created an offer and set it as the
    /// local description; `local_sdp` is what it reports back.  Fails with
    /// `LocalDescriptionMissing` when the stack produced none, and fails
    /// fast when a track was never attached.
    pub fn offer_ready(&mut self, local_sdp: Option<String>) -> (r: Result<String, Error>)
        ensures
            final(self)@.peer_id == old(self)@.peer_id,
            final(self)@.listener == old(self)@.listener,
            final(self)@.active == old(self)@.active,
            final(self)@.gathering_complete == old(self)@.gathering_complete,
            final(self)@.ice == old(self)@.ice,
            final(self)@.closed == old(self)@.closed,
            r is Ok <==> (old(self)@.phase is TrackAttached && local_sdp is Some),
            r matches Ok(sdp) ==> ((local_sdp matches Some(s) && sdp@ == s@) && final(self)@.phase
                is Offered),
            !(old(self)@.phase is TrackAttached) ==> (r matches Err(Error::WebRTCErr { .. }))
                && final(self)@.phase == old(self)@.phase,
            old(self)@.phase is TrackAttached && local_sdp is None ==> (r matches Err(
                Error::LocalDescriptionMissing,
            )) && final(self)@.phase == old(self)@.phase,
    {
        match self.phase {
            PeerPhase::TrackAttached => {
                match local_sdp {
                    Some(sdp) => {
                        self.phase = PeerPhase::Offered;
                        Ok(sdp)
                    },
                    None => Err(Error::LocalDescriptionMissing),
                }
            },
            _ => Err(Error::WebRTCErr { source: String::from_str("no track attached yet") }),
        }
    }

    /// The answer step: the remote description arrived; it must follow
    /// the offer.
    pub fn answer_received(&mut self) -> (r: Result<(), Error>)
        ensures
            final(self)@.peer_id == old(self)@.peer_id,
            final(self)@.listener == old(self)@.listener,
            final(self)@.active == old(self)@.active,
            final(self)@.gathering_complete == old(self)@.gathering_complete,
            final(self)@.ice == old(self)@.ice,
            final(self)@.closed == old(self)@.closed,
            r is Ok <==> old(self)@.phase is Offered,
            r is Ok ==> final(self)@.phase is Answered,
            r is Err ==> final(self)@.phase == old(self)@.phase && (r matches Err(
                Error::WebRTCErr { .. },
            )),
    {
        match self.phase {
            PeerPhase::Offered => {
                self.phase = PeerPhase::Answered;
                Ok(())
            },
            _ => Err(Error::WebRTCErr { source: String::from_str("no offer outstanding") }),
        }
    }

    /// A connection-state callback: `connected` flips the activity flag,
    /// and a `"connection"` event is published either way.
    pub fn on_connection_state(&mut self, connected: bool) -> (publish: bool)
        ensures
            final(self)@ == (PeerView { active: connected, ..old(self)@ }),
            publish == true,
    {
        self.active = connected;
        true
    }

    /// An ICE callback: a candidate is appended (the list only grows);
    /// the null candidate latches `gathering_complete`, which is one-shot
    /// and never cleared.
    pub fn on_ice(&mut self, candidate: Option<C>)
        ensures
            candidate matches Some(c) ==> final(self)@ == (PeerView {
                ice: old(self)@.ice.push(c),
                ..old(self)@
            }),
            candidate is None ==> final(self)@ == (PeerView {
                gathering_complete: true,
                ..old(self)@
            }),
            old(self)@.gathering_complete ==> final(self)@.gathering_complete,
            forall|i: int|
                0 <= i < old(self)@.ice.len() ==> final(self)@.ice[i] == old(self)@.ice[i],
    {
        match candidate {
            Some(c) => {
                self.ice_candidates.push(c);
            },
            None => {
                self.gathering_complete = true;
            },
        }
    }

    /// The gathered candidates, once gathering has completed; `None` asks
    /// the caller to wait for the completion latch.
    pub fn ice_snapshot(&self) -> (r: Option<&Vec<C>>)
        ensures
            r is Some <==> self@.gathering_complete,
            r matches Some(v) ==> v@ == self@.ice,
    {
        if self.gathering_complete {
            Some(&self.ice_candidates)
        } else {
            None
        }
    }

    /// A voluntary leave: the peer closes and goes inactive, but its
    /// entry is retained by the session for auditability.
    pub fn disconnect(&mut self)
        ensures
            final(self)@ == (PeerView { closed: true, active: false, ..old(self)@ }),
    {
        self.closed = true;
        self.active = false;
    }

    pub fn get_profile(&self) -> (r: Listener)
        ensures
            r@ == self@.listener,
    {
        Listener {
            name: self.listener.name.clone(),
            picture: self.listener.picture.clone(),
            id: self.listener.id.clone(),
        }
    }

    pub fn get_listener_id(&self) -> (r: String)
        ensures
            r@ == self@.listener.id,
    {
        self.listener.id.clone()
    }

    pub fn peer_id(&self) -> (r: String)
        ensures
            r@ == self@.peer_id,
    {
        self.peer_id.clone()
    }

    pub fn is_active(&self) -> (r: bool)
        ensures
            r == self@.active,
    {
        self.active
    }
}

} // verus!
