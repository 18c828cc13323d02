use audiocast::controller::Controller;
use audiocast::errors::Error;
use audiocast::session::{SessionEffect, User};

fn user(id: &str) -> User {
    User { id: id.to_string(), name: format!("user {id}"), picture: String::new() }
}

#[test]
fn one_session_per_user() {
    let mut c: Controller<String> = Controller::new();
    let sid = c.create_session("7".to_string(), user("7"), 1).unwrap();
    assert_eq!(sid.len(), 36);
    assert!(c.check_user_has_session(&"7".to_string()));
    assert!(c.check_user_own_session(&"7".to_string(), &sid));
    assert!(!c.check_user_own_session(&"8".to_string(), &sid));
    assert_eq!(c.get_user_session(&"7".to_string()), sid);
    assert_eq!(c.get_user_session(&"8".to_string()), "");

    let again = c.create_session("7".to_string(), user("7"), 2);
    assert!(matches!(again, Err(Error::SessionExists)));
    assert_eq!(c.get_sessions().len(), 1);
}

#[test]
fn lookups_find_registered_sessions() {
    let mut c: Controller<String> = Controller::new();
    let sid = c.create_session("1".to_string(), user("1"), 10).unwrap();
    let s = c.get_session(&sid).unwrap();
    assert_eq!(s.session_id(), sid);
    assert_eq!(s.get_session_owner().id, "1");
    assert!(matches!(
        c.get_session(&"missing".to_string()),
        Err(Error::SessionNotFound { .. })
    ));
}

#[test]
fn mutating_a_session_through_the_registry() {
    let mut c: Controller<String> = Controller::new();
    let sid = c.create_session("1".to_string(), user("1"), 10).unwrap();
    {
        let s = c.session_mut(&sid).unwrap();
        s.add_to_queue("A".to_string(), "Alpha".to_string());
    }
    assert_eq!(c.get_session(&sid).unwrap().get_queue().len(), 1);
    assert!(matches!(
        c.session_mut(&"missing".to_string()),
        Err(Error::SessionNotFound { .. })
    ));
}

#[test]
fn delete_session_stops_cleans_and_says_goodbye() {
    let mut c: Controller<String> = Controller::new();
    let sid_a = c.create_session("1".to_string(), user("1"), 10).unwrap();
    let sid_b = c.create_session("2".to_string(), user("2"), 11).unwrap();

    let effects = c.delete_session(&sid_a).unwrap();
    assert_eq!(effects.len(), 4);
    assert!(matches!(effects[0], SessionEffect::SendStop));
    assert!(matches!(effects[1], SessionEffect::CleanScratch));
    assert!(matches!(effects[2], SessionEffect::RemoveScratchDir));
    assert!(matches!(effects[3], SessionEffect::Publish { ref msg } if msg == "end"));

    // the user and the session are gone, the other session stays
    assert!(!c.check_user_has_session(&"1".to_string()));
    assert!(matches!(c.get_session(&sid_a), Err(Error::SessionNotFound { .. })));
    assert!(c.check_user_own_session(&"2".to_string(), &sid_b));
    assert_eq!(c.get_sessions().len(), 1);

    // the freed user may open a new session
    let sid_c = c.create_session("1".to_string(), user("1"), 12).unwrap();
    assert!(c.check_user_own_session(&"1".to_string(), &sid_c));

    assert!(matches!(c.delete_session(&sid_a), Err(Error::SessionNotFound { .. })));
}

#[test]
fn register_session_enforces_both_uniqueness_rules() {
    let mut c: Controller<String> = Controller::new();
    assert!(c.register_session("sid-1".to_string(), "1".to_string(), user("1"), 5).is_ok());
    // the same user may not register a second session
    assert!(matches!(
        c.register_session("sid-2".to_string(), "1".to_string(), user("1"), 6),
        Err(Error::SessionExists)
    ));
    // a taken session id is a registry fault, not SessionExists
    assert!(matches!(
        c.register_session("sid-1".to_string(), "2".to_string(), user("2"), 7),
        Err(Error::SessionError { .. })
    ));
    assert_eq!(c.get_sessions().len(), 1);
    assert!(c.check_user_own_session(&"1".to_string(), &"sid-1".to_string()));
}
