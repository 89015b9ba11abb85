//! A posted message.
use crate::clock::Timestamp;
use crate::model::user::{User, UserView};
use vstd::prelude::*;

verus! {

/// What a message is to the contracts.
pub struct MessageView {
    pub id: u128,
    pub user: UserView,
    pub body: Seq<char>,
    pub created_at: Timestamp,
}

/// A message of the feed, with a copy of its author as it was when it was posted.
#[derive(Clone, Debug)]
pub struct Message {
    pub id: u128,
    pub user: User,
    pub body: String,
    pub created_at: Timestamp,
}

impl View for Message {
    type V = MessageView;

    open spec fn view(&self) -> MessageView {
        MessageView { id: self.id, user: self.user@, body: self.body@, created_at: self.created_at }
    }
}

impl Message {
    pub fn new(id: u128, user: User, body: &str, created_at: Timestamp) -> (r: Message)
        ensures
            r@ == (MessageView { id, user: user@, body: body@, created_at }),
    {
        Message { id, user, body: body.to_owned(), created_at }
    }

    /// A copy of this message.
    pub fn duplicate(&self) -> (r: Message)
        ensures
            r@ == self@,
    {
        Message {
            id: self.id,
            user: self.user.duplicate(),
            body: self.body.clone(),
            created_at: self.created_at,
        }
    }
}

} // verus!
