//! The per-request user context, as handed in by the authentication
//! resolver: an id, a display name and an avatar URL.  The id `"-1"`
//! denotes an anonymous user.

use vstd::prelude::*;

verus! {

/// Abstract value of a [`Ctx`].
pub struct CtxView {
    pub id: Seq<char>,
    pub name: Seq<char>,
    pub picture: Seq<char>,
}

#[derive(Clone, Debug)]
pub struct Ctx {
    id: String,
    name: String,
    picture: String,
}

impl View for Ctx {
    type V = CtxView;

    closed spec fn view(&self) -> CtxView {
        CtxView { id: self.id@, name: self.name@, picture: self.picture@ }
    }
}

impl Ctx {
    pub fn new(id: String, name: String, picture: String) -> (c: Self)
        ensures
            c@.id == id@,
            c@.name == name@,
            c@.picture == picture@,
    {
        Self { id, name, picture }
    }

    pub fn id(&self) -> (r: String)
        ensures
            r@ == self@.id,
    {
        self.id.clone()
    }

    pub fn name(&self) -> (r: String)
        ensures
            r@ == self@.name,
    {
        self.name.clone()
    }

    pub fn picture(&self) -> (r: String)
        ensures
            r@ == self@.picture,
    {
        self.picture.clone()
    }
}

} // verus!
