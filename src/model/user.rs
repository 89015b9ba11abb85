//! A joined user.
use vstd::prelude::*;

verus! {

/// What a user is to the contracts: an identifier and a name.
pub struct UserView {
    pub id: u128,
    pub name: Seq<char>,
}

/// A user of the chat: the identifier of its connection and the name it joined with.
#[derive(Clone, Debug)]
pub struct User {
    pub id: u128,
    pub name: String,
}

impl View for User {
    type V = UserView;

    open spec fn view(&self) -> UserView {
        UserView { id: self.id, name: self.name@ }
    }
}

impl User {
    pub fn new(id: u128, name: &str) -> (r: User)
        ensures
            r@ == (UserView { id, name: name@ }),
    {
        User { id, name: name.to_owned() }
    }

    /// A copy of this user.
    pub fn duplicate(&self) -> (r: User)
        ensures
            r@ == self@,
    {
        User { id: self.id, name: self.name.clone() }
    }
}

} // verus!
