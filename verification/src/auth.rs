//! The authentication resolver's decisions: turning the identity
//! provider's answer and the users-table rows into a request context.
//!
//! The network and database calls themselves happen outside; these
//! functions say what is made of their results.

use vstd::prelude::*;
use crate::ctx::Ctx;
use crate::dec::{dec_int_seq, i32_to_dec};
use crate::errors::Error;

verus! {

/// One row of the users table, as the lookup returns it.
pub struct UserRow {
    pub user_id: i32,
    pub name: String,
    pub picture: String,
}

/// The identity provider must report a non-empty subject id; anything
/// else means the token was invalid.
pub fn validate_userinfo_id(id: &String) -> (r: Result<(), Error>)
    ensures
        r is Ok <==> id@.len() > 0,
        r is Err ==> (r matches Err(Error::AuthFailInvalidToken)),
{
    if id.as_str().is_empty() {
        Err(Error::AuthFailInvalidToken)
    } else {
        Ok(())
    }
}

/// What the first users-table lookup decides: exactly one row resolves
/// the context, no row asks for an insert, several rows are a database
/// fault.
pub fn ctx_from_rows(rows: &Vec<UserRow>) -> (r: Result<Option<Ctx>, Error>)
    ensures
        rows@.len() == 1 ==> (r matches Ok(Some(c)) && c@.id == dec_int_seq(
            rows@[0].user_id as int,
        ) && c@.name == rows@[0].name@ && c@.picture == rows@[0].picture@),
        rows@.len() == 0 ==> (r matches Ok(None::<Ctx>)),
        rows@.len() > 1 ==> (r matches Err(Error::DBError { .. })),
{
    if rows.len() == 1 {
        let row = &rows[0];
        Ok(Some(Ctx::new(i32_to_dec(row.user_id), row.name.clone(), row.picture.clone())))
    } else if rows.len() == 0 {
        Ok(None)
    } else {
        Err(Error::DBError { source: String::from_str("multiple users found") })
    }
}

/// What the lookup after an insert decides: the first row resolves the
/// context; an empty answer means the insert was lost.
pub fn ctx_after_insert(rows: &Vec<UserRow>) -> (r: Result<Ctx, Error>)
    ensures
        rows@.len() > 0 ==> (r matches Ok(c) && c@.id == dec_int_seq(rows@[0].user_id as int)
            && c@.name == rows@[0].name@ && c@.picture == rows@[0].picture@),
        rows@.len() == 0 ==> (r matches Err(Error::DBError { .. })),
{
    if rows.len() > 0 {
        let row = &rows[0];
        Ok(Ctx::new(i32_to_dec(row.user_id), row.name.clone(), row.picture.clone()))
    } else {
        Err(Error::DBError { source: String::from_str("failed to retrieve newly inserted user") })
    }
}

/// The context of an unauthenticated request: the anonymous user, who
/// may listen but cannot own.
pub fn anonymous_ctx() -> (c: Ctx)
    ensures
        c@.id == "-1"@,
        c@.name == "anonymous"@,
        c@.picture == Seq::<char>::empty(),
{
    Ctx::new(String::from_str("-1"), String::from_str("anonymous"), String::new())
}

} // verus!
