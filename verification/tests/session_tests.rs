use audiocast::broadcaster::{BroadcasterCommand, BroadcasterEvent};
use audiocast::errors::Error;
use audiocast::peer::Listener;
use audiocast::session::{Session, SessionEffect, User};

fn owner() -> User {
    User { id: "7".to_string(), name: "Owner".to_string(), picture: "p.png".to_string() }
}

fn listener(id: &str) -> Listener {
    Listener { name: format!("listener {id}"), picture: String::new(), id: id.to_string() }
}

fn new_session() -> Session<String> {
    Session::new("sess-1".to_string(), owner(), 1_700_000_000_000)
}

#[test]
fn solo_add_emits_stop_play_and_one_cursor_event() {
    let mut s = new_session();
    let effects = s.add_to_queue("A".to_string(), "Alpha".to_string());
    assert_eq!(effects.len(), 3);
    assert!(matches!(effects[0], SessionEffect::SendStop));
    assert!(matches!(effects[1], SessionEffect::SendPlay { ref key } if key == "A"));
    assert!(matches!(effects[2], SessionEffect::Publish { ref msg } if msg == "0"));
    assert_eq!(s.get_queue_position(), "0");
    let q = s.get_queue();
    assert_eq!(q, vec![vec!["A".to_string(), "Alpha".to_string()]]);
}

#[test]
fn auto_advance_on_end_publishes_then_plays() {
    let mut s = new_session();
    s.add_to_queue("A".to_string(), "Alpha".to_string());
    s.add_to_queue("B".to_string(), "Beta".to_string());
    assert_eq!(s.get_queue_position(), "0");
    let effects = s.on_broadcaster_event(BroadcasterEvent::End);
    assert_eq!(s.get_queue_position(), "1");
    assert_eq!(effects.len(), 2);
    assert!(matches!(effects[0], SessionEffect::Publish { ref msg } if msg == "1"));
    assert!(matches!(effects[1], SessionEffect::SendPlay { ref key } if key == "B"));
}

#[test]
fn track_added_event_is_inert() {
    let mut s = new_session();
    s.add_to_queue("A".to_string(), "Alpha".to_string());
    let effects = s.on_broadcaster_event(BroadcasterEvent::TrackAdded);
    assert!(effects.is_empty());
    assert_eq!(s.get_queue_position(), "0");
}

#[test]
fn removing_the_emptied_queue_cleans_the_scratch_file() {
    let mut s = new_session();
    s.add_to_queue("A".to_string(), "Alpha".to_string());
    let effects = s.remove_from_queue(0).unwrap();
    assert_eq!(effects.len(), 3);
    assert!(matches!(effects[0], SessionEffect::SendStop));
    assert!(matches!(effects[1], SessionEffect::CleanScratch));
    assert!(matches!(effects[2], SessionEffect::Publish { ref msg } if msg == "0"));
}

#[test]
fn removing_a_bad_index_is_a_queue_error() {
    let mut s = new_session();
    s.add_to_queue("A".to_string(), "Alpha".to_string());
    let r = s.remove_from_queue(5);
    assert!(matches!(r, Err(Error::QueueError { .. })));
}

#[test]
fn next_on_an_empty_queue_stops_and_cleans() {
    let mut s = new_session();
    let effects = s.next_in_queue();
    assert_eq!(effects.len(), 3);
    assert!(matches!(effects[0], SessionEffect::SendStop));
    assert!(matches!(effects[1], SessionEffect::CleanScratch));
    assert!(matches!(effects[2], SessionEffect::Publish { ref msg } if msg == "0"));
}

#[test]
fn next_and_prev_wrap_and_play() {
    let mut s = new_session();
    s.add_to_queue("A".to_string(), "Alpha".to_string());
    s.add_to_queue("B".to_string(), "Beta".to_string());
    let effects = s.next_in_queue();
    assert!(matches!(effects[1], SessionEffect::SendPlay { ref key } if key == "B"));
    assert!(matches!(effects[2], SessionEffect::Publish { ref msg } if msg == "1"));
    let effects = s.prev_in_queue();
    assert!(matches!(effects[1], SessionEffect::SendPlay { ref key } if key == "A"));
    assert!(matches!(effects[2], SessionEffect::Publish { ref msg } if msg == "0"));
}

#[test]
fn play_and_ping_and_clean() {
    let s = new_session();
    let effects = s.play("K".to_string());
    assert_eq!(effects.len(), 2);
    assert!(matches!(effects[0], SessionEffect::SendStop));
    assert!(matches!(effects[1], SessionEffect::SendPlay { ref key } if key == "K"));
    let effects = s.clean_active_file();
    assert!(matches!(effects[1], SessionEffect::CleanScratch));
    let effects = s.ping("hello".to_string());
    assert!(matches!(effects[0], SessionEffect::Publish { ref msg } if msg == "hello"));
}

#[test]
fn reorder_publishes_the_cursor() {
    let mut s = new_session();
    for (k, t) in [("A", "Alpha"), ("B", "Beta"), ("C", "Gamma"), ("D", "Delta")] {
        s.add_to_queue(k.to_string(), t.to_string());
    }
    s.next_in_queue();
    s.next_in_queue();
    assert_eq!(s.get_queue_position(), "2");
    let effects = s.reorder_queue(0, 3).unwrap();
    assert!(matches!(effects[0], SessionEffect::Publish { ref msg } if msg == "1"));
    let keys: Vec<String> = s.get_queue().into_iter().map(|p| p[0].clone()).collect();
    assert_eq!(keys, vec!["B", "C", "D", "A"]);
    assert!(matches!(s.reorder_queue(9, 0), Err(Error::QueueError { .. })));
}

#[test]
fn peers_join_signal_and_leave() {
    let mut s = new_session();
    let (pid, cmd) = s.create_peer(listener("42")).unwrap();
    assert!(matches!(cmd, BroadcasterCommand::Attach { ref peer_id } if *peer_id == pid));
    assert_eq!(s.get_number_of_listeners(), 0);

    // track, offer, answer, in order
    assert!(s.peer_add_track(&pid).is_ok());
    let sdp = s.get_offer(&pid, Some("v=0 offer".to_string())).unwrap();
    assert_eq!(sdp, "v=0 offer");
    assert!(s.set_answer(&pid).is_ok());

    // the connection-state callback flips activity and asks to publish
    let publish = s.on_peer_connection_state(&pid, true).unwrap();
    assert!(publish);
    assert_eq!(s.get_number_of_listeners(), 1);
    let listeners = s.get_listeners();
    assert_eq!(listeners.len(), 1);
    assert_eq!(listeners[0].id, "42");

    // ICE gathering: candidates accumulate, the null candidate latches
    assert!(s.get_ice(&pid).unwrap().is_none());
    s.on_peer_ice(&pid, Some("candidate:1".to_string())).unwrap();
    s.on_peer_ice(&pid, Some("candidate:2".to_string())).unwrap();
    s.on_peer_ice(&pid, None).unwrap();
    let snap = s.get_ice(&pid).unwrap().unwrap();
    assert_eq!(snap, &vec!["candidate:1".to_string(), "candidate:2".to_string()]);
    assert!(s.add_ice(&pid).is_ok());

    // a voluntary leave closes the peer but keeps the entry
    s.disconnect(&pid).unwrap();
    assert_eq!(s.get_number_of_listeners(), 0);
    assert_eq!(s.get_peers().len(), 1);
}

#[test]
fn signaling_out_of_order_fails_fast() {
    let mut s = new_session();
    let (pid, _) = s.create_peer(listener("42")).unwrap();
    assert!(matches!(s.get_offer(&pid, Some("sdp".to_string())), Err(Error::WebRTCErr { .. })));
    assert!(matches!(s.set_answer(&pid), Err(Error::WebRTCErr { .. })));
    s.peer_add_track(&pid).unwrap();
    assert!(matches!(
        s.get_offer(&pid, None),
        Err(Error::LocalDescriptionMissing)
    ));
    let unknown = "nope".to_string();
    assert!(matches!(
        s.get_offer(&unknown, Some("sdp".to_string())),
        Err(Error::PeerConnectionNotFound { .. })
    ));
}

#[test]
fn listener_cap_and_owner_duplicate_rules() {
    let mut s = new_session();
    // five active non-owner listeners fill the session
    for n in 0..5 {
        let (pid, _) = s.create_peer(listener(&format!("u{n}"))).unwrap();
        s.on_peer_connection_state(&pid, true).unwrap();
    }
    assert_eq!(s.get_number_of_listeners(), 5);
    assert!(matches!(
        s.admit_listener(&"another".to_string()),
        Err(Error::SessionFull)
    ));
    // the owner is exempt from the cap while not yet connected
    assert!(s.admit_listener(&"7".to_string()).is_ok());
    let (opid, _) = s.create_peer(listener("7")).unwrap();
    s.on_peer_connection_state(&opid, true).unwrap();
    // a second active owner connection is rejected
    assert!(matches!(
        s.admit_listener(&"7".to_string()),
        Err(Error::SessionError { .. })
    ));
}

#[test]
fn stats_accessors() {
    let mut s = new_session();
    assert_eq!(s.session_id(), "sess-1");
    assert_eq!(s.get_session_owner().id, "7");
    assert_eq!(s.get_session_start_time(), 1_700_000_000_000);
    s.add_to_queue("A".to_string(), "Alpha".to_string());
    s.add_to_queue("B".to_string(), "Beta".to_string());
    assert!(s.has_file_in_queue("A".to_string()));
    assert!(!s.has_file_in_queue("Z".to_string()));
    assert_eq!(s.get_queue_id(), "0");
    assert_eq!(s.get_top_queue(), vec!["Alpha", "Beta", ""]);
    let (pid, _) = s.create_peer(listener("9")).unwrap();
    let lines = s.get_peers();
    assert_eq!(lines.len(), 1);
    assert_eq!(lines[0], format!("uuid: {pid} -- active: false"));
}

#[test]
fn register_peer_rejects_a_taken_id() {
    let mut s = new_session();
    assert!(s.register_peer("p-1".to_string(), listener("a")).is_ok());
    assert!(matches!(
        s.register_peer("p-1".to_string(), listener("b")),
        Err(Error::SessionError { .. })
    ));
    assert!(s.register_peer("p-2".to_string(), listener("b")).is_ok());
    assert_eq!(s.get_peers().len(), 2);
}

#[test]
fn attach_succeeds_exactly_once_per_fresh_peer() {
    let mut s = new_session();
    s.register_peer("p-1".to_string(), listener("a")).unwrap();
    let pid = "p-1".to_string();
    assert!(s.peer_add_track(&pid).is_ok());
    // a second attach on the same peer fails fast
    assert!(matches!(s.peer_add_track(&pid), Err(Error::WebRTCErr { .. })));
    // a closed peer cannot get a track either
    s.register_peer("p-2".to_string(), listener("b")).unwrap();
    let p2 = "p-2".to_string();
    s.disconnect(&p2).unwrap();
    assert!(matches!(s.peer_add_track(&p2), Err(Error::WebRTCErr { .. })));
}
