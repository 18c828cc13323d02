use audiocast::auth::{anonymous_ctx, ctx_after_insert, ctx_from_rows, validate_userinfo_id, UserRow};
use audiocast::errors::Error;

fn row(id: i32, name: &str) -> UserRow {
    UserRow { user_id: id, name: name.to_string(), picture: format!("{name}.png") }
}

#[test]
fn an_empty_subject_id_is_an_invalid_token() {
    assert!(matches!(
        validate_userinfo_id(&String::new()),
        Err(Error::AuthFailInvalidToken)
    ));
    assert!(validate_userinfo_id(&"108".to_string()).is_ok());
}

#[test]
fn one_row_resolves_the_context() {
    let rows = vec![row(31, "Ada")];
    let c = ctx_from_rows(&rows).unwrap().unwrap();
    assert_eq!(c.id(), "31");
    assert_eq!(c.name(), "Ada");
    assert_eq!(c.picture(), "Ada.png");
}

#[test]
fn no_row_asks_for_an_insert_and_many_rows_are_a_fault() {
    assert!(ctx_from_rows(&Vec::new()).unwrap().is_none());
    let rows = vec![row(1, "a"), row(2, "b")];
    assert!(matches!(ctx_from_rows(&rows), Err(Error::DBError { .. })));
}

#[test]
fn the_second_lookup_uses_the_first_row() {
    let rows = vec![row(5, "Eve"), row(6, "Mallory")];
    let c = ctx_after_insert(&rows).unwrap();
    assert_eq!(c.id(), "5");
    assert!(matches!(ctx_after_insert(&Vec::new()), Err(Error::DBError { .. })));
}

#[test]
fn the_anonymous_context_may_listen_but_not_own() {
    let c = anonymous_ctx();
    assert_eq!(c.id(), "-1");
    assert_eq!(c.name(), "anonymous");
    assert_eq!(c.picture(), "");
}
