//! The events that clients send to the hub and that the hub sends back, and how each
//! output is addressed.
use crate::clock::Timestamp;
use crate::model::message::{Message, MessageView};
use crate::model::user::{User, UserView};
use vstd::prelude::*;

verus! {

/// What a client asks of the hub.
#[derive(Clone, Debug)]
pub enum Input {
    Join(JoinInput),
    Post(PostInput),
}

/// Join the chat under a name.
#[derive(Clone, Debug)]
pub struct JoinInput {
    pub name: String,
}

/// Post a message to the feed.
#[derive(Clone, Debug)]
pub struct PostInput {
    pub body: String,
}

/// An input together with the connection it came from.
#[derive(Clone, Debug)]
pub struct InputParcel {
    pub client_id: u128,
    pub input: Input,
}

impl InputParcel {
    pub fn new(client_id: u128, input: Input) -> (r: InputParcel)
        ensures
            r == (InputParcel { client_id, input }),
    {
        InputParcel { client_id, input }
    }
}

/// Why the hub turned an input down.
#[derive(Clone, Copy, Debug, PartialEq, Eq, Structural)]
pub enum OutputError {
    NameTaken,
    InvalidName,
    NotJoined,
    InvalidMessageBody,
}

/// A user as the hub reports it.
#[derive(Clone, Debug)]
pub struct UserOutput {
    pub id: u128,
    pub name: String,
}

/// A message as the hub reports it.
#[derive(Clone, Debug)]
pub struct MessageOutput {
    pub id: u128,
    pub user: UserOutput,
    pub body: String,
    pub created_at: Timestamp,
}

/// Sent to a user that has joined: itself, the other users and the whole feed.
#[derive(Clone, Debug)]
pub struct JoinedOutput {
    pub user: UserOutput,
    pub others: Vec<UserOutput>,
    pub messages: Vec<MessageOutput>,
}

/// Sent to the others when a user has joined.
#[derive(Clone, Debug)]
pub struct UserJoinedOutput {
    pub user: UserOutput,
}

/// Sent to the others when a user has left.
#[derive(Clone, Copy, Debug, PartialEq, Eq, Structural)]
pub struct UserLeftOutput {
    pub user_id: u128,
}

/// Sent to the author of an accepted message.
#[derive(Clone, Debug)]
pub struct PostedOutput {
    pub message: MessageOutput,
}

/// Sent to the others when a message was accepted.
#[derive(Clone, Debug)]
pub struct UserPostedOutput {
    pub message: MessageOutput,
}

/// What the hub sends.
#[derive(Clone, Debug)]
pub enum Output {
    Error(OutputError),
    Alive,
    Joined(JoinedOutput),
    UserJoined(UserJoinedOutput),
    UserLeft(UserLeftOutput),
    Posted(PostedOutput),
    UserPosted(UserPostedOutput),
}

/// Which subscribers receive an output.
#[derive(Clone, Copy, Debug, PartialEq, Eq, Structural)]
pub enum Addressing {
    /// Every subscriber.
    Broadcast,
    /// Only the given client.
    Target(u128),
    /// Every subscriber but the given client.
    ExcludeOne(u128),
}

/// Whether an output with addressing `a` goes to `subscriber`.
pub open spec fn is_delivered(a: Addressing, subscriber: u128) -> bool {
    match a {
        Addressing::Broadcast => true,
        Addressing::Target(t) => subscriber == t,
        Addressing::ExcludeOne(e) => subscriber != e,
    }
}

impl Addressing {
    /// Whether an output with this addressing goes to `subscriber`.
    pub fn delivers_to(&self, subscriber: u128) -> (r: bool)
        ensures
            r == is_delivered(*self, subscriber),
    {
        match self {
            Addressing::Broadcast => true,
            Addressing::Target(t) => subscriber == *t,
            Addressing::ExcludeOne(e) => subscriber != *e,
        }
    }
}

/// An output together with the subscribers it is meant for.
#[derive(Clone, Debug)]
pub struct OutputParcel {
    pub addressing: Addressing,
    pub output: Output,
}

/// What an output is to the contracts.
pub enum OutputView {
    Error(OutputError),
    Alive,
    Joined { user: UserView, others: Seq<UserView>, messages: Seq<MessageView> },
    UserJoined(UserView),
    UserLeft(u128),
    Posted(MessageView),
    UserPosted(MessageView),
}

/// What an output parcel is to the contracts.
pub struct ParcelView {
    pub addressing: Addressing,
    pub output: OutputView,
}

pub open spec fn users_view(users: Seq<UserOutput>) -> Seq<UserView> {
    users.map_values(|u: UserOutput| u@)
}

pub open spec fn messages_view(messages: Seq<MessageOutput>) -> Seq<MessageView> {
    messages.map_values(|m: MessageOutput| m@)
}

pub open spec fn parcels_view(parcels: Seq<OutputParcel>) -> Seq<ParcelView> {
    parcels.map_values(|p: OutputParcel| p@)
}

impl View for UserOutput {
    type V = UserView;

    open spec fn view(&self) -> UserView {
        UserView { id: self.id, name: self.name@ }
    }
}

impl View for MessageOutput {
    type V = MessageView;

    open spec fn view(&self) -> MessageView {
        MessageView { id: self.id, user: self.user@, body: self.body@, created_at: self.created_at }
    }
}

impl View for Output {
    type V = OutputView;

    open spec fn view(&self) -> OutputView {
        match self {
            Output::Error(e) => OutputView::Error(*e),
            Output::Alive => OutputView::Alive,
            Output::Joined(j) => OutputView::Joined {
                user: j.user@,
                others: users_view(j.others@),
                messages: messages_view(j.messages@),
            },
            Output::UserJoined(u) => OutputView::UserJoined(u.user@),
            Output::UserLeft(u) => OutputView::UserLeft(u.user_id),
            Output::Posted(p) => OutputView::Posted(p.message@),
            Output::UserPosted(p) => OutputView::UserPosted(p.message@),
        }
    }
}

impl View for OutputParcel {
    type V = ParcelView;

    open spec fn view(&self) -> ParcelView {
        ParcelView { addressing: self.addressing, output: self.output@ }
    }
}

impl OutputParcel {
    pub fn new(addressing: Addressing, output: Output) -> (r: OutputParcel)
        ensures
            r.addressing == addressing,
            r.output == output,
    {
        OutputParcel { addressing, output }
    }

    /// An output for `client_id` alone.
    pub fn targeted(client_id: u128, output: Output) -> (r: OutputParcel)
        ensures
            r.addressing == Addressing::Target(client_id),
            r.output == output,
    {
        OutputParcel { addressing: Addressing::Target(client_id), output }
    }

    /// An output for everyone but `ignored_client_id`.
    pub fn ignored(ignored_client_id: u128, output: Output) -> (r: OutputParcel)
        ensures
            r.addressing == Addressing::ExcludeOne(ignored_client_id),
            r.output == output,
    {
        OutputParcel { addressing: Addressing::ExcludeOne(ignored_client_id), output }
    }

    /// An error for `client_id` alone.
    pub fn error(client_id: u128, error: OutputError) -> (r: OutputParcel)
        ensures
            r@ == (ParcelView {
                addressing: Addressing::Target(client_id),
                output: OutputView::Error(error),
            }),
    {
        OutputParcel { addressing: Addressing::Target(client_id), output: Output::Error(error) }
    }

    /// Whether this parcel goes to `subscriber`.
    pub fn is_for(&self, subscriber: u128) -> (r: bool)
        ensures
            r == is_delivered(self.addressing, subscriber),
    {
        self.addressing.delivers_to(subscriber)
    }
}

impl UserOutput {
    pub fn new(id: u128, name: &str) -> (r: UserOutput)
        ensures
            r@ == (UserView { id, name: name@ }),
    {
        UserOutput { id, name: name.to_owned() }
    }

    /// The output form of a user.
    pub fn from_user(user: &User) -> (r: UserOutput)
        ensures
            r@ == user@,
    {
        UserOutput { id: user.id, name: user.name.clone() }
    }
}

impl MessageOutput {
    pub fn new(id: u128, user: UserOutput, body: &str, created_at: Timestamp) -> (r: MessageOutput)
        ensures
            r@ == (MessageView { id, user: user@, body: body@, created_at }),
    {
        MessageOutput { id, user, body: body.to_owned(), created_at }
    }

    /// The output form of a message.
    pub fn from_message(message: &Message) -> (r: MessageOutput)
        ensures
            r@ == message@,
    {
        MessageOutput {
            id: message.id,
            user: UserOutput::from_user(&message.user),
            body: message.body.clone(),
            created_at: message.created_at,
        }
    }

    /// A copy of this message.
    pub fn duplicate(&self) -> (r: MessageOutput)
        ensures
            r@ == self@,
    {
        MessageOutput {
            id: self.id,
            user: UserOutput { id: self.user.id, name: self.user.name.clone() },
            body: self.body.clone(),
            created_at: self.created_at,
        }
    }
}

impl JoinedOutput {
    pub fn new(user: UserOutput, others: Vec<UserOutput>, messages: Vec<MessageOutput>) -> (r: JoinedOutput)
        ensures
            r.user == user,
            r.others == others,
            r.messages == messages,
    {
        JoinedOutput { user, others, messages }
    }
}

impl UserJoinedOutput {
    pub fn new(user: UserOutput) -> (r: UserJoinedOutput)
        ensures
            r.user == user,
    {
        UserJoinedOutput { user }
    }
}

impl UserLeftOutput {
    pub fn new(user_id: u128) -> (r: UserLeftOutput)
        ensures
            r.user_id == user_id,
    {
        UserLeftOutput { user_id }
    }
}

impl PostedOutput {
    pub fn new(message: MessageOutput) -> (r: PostedOutput)
        ensures
            r.message == message,
    {
        PostedOutput { message }
    }
}

impl UserPostedOutput {
    pub fn new(message: MessageOutput) -> (r: UserPostedOutput)
        ensures
            r.message == message,
    {
        UserPostedOutput { message }
    }
}

} // verus!
