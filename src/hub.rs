//! The hub: the one owner of the user registry and the feed. It handles one input at a
//! time and answers each with the output parcels to send, in the order to send them.
use crate::clock::{now, Timestamp};
use crate::ids::fresh_id;
use crate::model::feed::{insert_by_time, lemma_insert_by_time_sorted, sorted_by_time, Feed};
use crate::model::message::{Message, MessageView};
use crate::model::user::{User, UserView};
use crate::proto::{
    messages_view, parcels_view, users_view, Addressing, Input, InputParcel, JoinInput,
    JoinedOutput, MessageOutput, Output, OutputError, OutputParcel, OutputView, ParcelView,
    PostInput, PostedOutput, UserJoinedOutput, UserLeftOutput, UserOutput, UserPostedOutput,
};
use crate::text::{is_valid_body, trim, trimmed, valid_body, valid_name, NameRule, NAME_PATTERN};
use core::time::Duration;
use vstd::prelude::*;

verus! {

/// What the hub holds, to the contracts: the registered users in the order they joined,
/// and the feed.
pub struct HubView {
    pub users: Seq<UserView>,
    pub feed: Seq<MessageView>,
}

/// Some registered user has the identifier `id`.
pub open spec fn is_registered(users: Seq<UserView>, id: u128) -> bool {
    exists|i: int| 0 <= i < users.len() && (#[trigger] users[i]).id == id
}

/// Some registered user has the name `name`.
pub open spec fn is_name_taken(users: Seq<UserView>, name: Seq<char>) -> bool {
    exists|i: int| 0 <= i < users.len() && (#[trigger] users[i]).name == name
}

/// The registered users but the one with identifier `id`, in the same order.
pub open spec fn without_user(users: Seq<UserView>, id: u128) -> Seq<UserView> {
    users.filter(|u: UserView| u.id != id)
}

/// The registered user with identifier `id`.
pub open spec fn user_with_id(users: Seq<UserView>, id: u128) -> UserView {
    choose|u: UserView| users.contains(u) && u.id == id
}

/// The registry's invariant: identifiers and names are unique, and every name is valid.
pub open spec fn registry_wf(users: Seq<UserView>) -> bool {
    &&& forall|i: int, j: int|
        0 <= i < j < users.len() ==> (#[trigger] users[i]).id != (#[trigger] users[j]).id
            && users[i].name != users[j].name
    &&& forall|i: int| 0 <= i < users.len() ==> valid_name((#[trigger] users[i]).name)
}

impl HubView {
    pub open spec fn wf(self) -> bool {
        registry_wf(self.users) && sorted_by_time(self.feed)
    }
}

/// An output for `id` alone.
pub open spec fn to_client(id: u128, output: OutputView) -> ParcelView {
    ParcelView { addressing: Addressing::Target(id), output }
}

/// An output for everyone but `id`.
pub open spec fn to_others(id: u128, output: OutputView) -> ParcelView {
    ParcelView { addressing: Addressing::ExcludeOne(id), output }
}

/// Joining under `name`: the name is trimmed; a name that a registered user has is taken,
/// else a name outside the pattern is invalid. On success the user is registered (in place
/// of an earlier entry for the same connection) and receives itself, the others and the
/// feed; then everyone else learns that it joined.
pub open spec fn join_step(h: HubView, id: u128, name: Seq<char>) -> (HubView, Seq<ParcelView>) {
    let name = trimmed(name);
    if is_name_taken(h.users, name) {
        (h, seq![to_client(id, OutputView::Error(OutputError::NameTaken))])
    } else if !valid_name(name) {
        (h, seq![to_client(id, OutputView::Error(OutputError::InvalidName))])
    } else {
        let user = UserView { id, name };
        let others = without_user(h.users, id);
        (
            HubView { users: others.push(user), feed: h.feed },
            seq![
                to_client(id, OutputView::Joined { user, others, messages: h.feed }),
                to_others(id, OutputView::UserJoined(user)),
            ],
        )
    }
}

/// Posting `body`, with the identifier and time that the new message would get: the
/// sender must have joined, and the trimmed body must be accepted. On success the message
/// goes into the feed by time, the sender receives it as posted, and everyone else as
/// posted by the sender.
pub open spec fn post_step(
    h: HubView,
    id: u128,
    body: Seq<char>,
    message_id: u128,
    created_at: Timestamp,
) -> (HubView, Seq<ParcelView>) {
    if !is_registered(h.users, id) {
        (h, seq![to_client(id, OutputView::Error(OutputError::NotJoined))])
    } else if !valid_body(trimmed(body)) {
        (h, seq![to_client(id, OutputView::Error(OutputError::InvalidMessageBody))])
    } else {
        let message = MessageView { id: message_id, user: user_with_id(h.users, id), body, created_at };
        (
            HubView { users: h.users, feed: insert_by_time(h.feed, message) },
            seq![to_client(id, OutputView::Posted(message)), to_others(id, OutputView::UserPosted(message))],
        )
    }
}

/// A connection ends: a registered user is removed and everyone else learns that it left;
/// otherwise nothing happens.
pub open spec fn disconnect_step(h: HubView, id: u128) -> (HubView, Seq<ParcelView>) {
    if is_registered(h.users, id) {
        (
            HubView { users: without_user(h.users, id), feed: h.feed },
            seq![to_others(id, OutputView::UserLeft(id))],
        )
    } else {
        (h, Seq::empty())
    }
}

/// The heartbeat: everyone is told that the hub is alive, when anyone has joined.
pub open spec fn alive_step(h: HubView) -> Seq<ParcelView> {
    if h.users.len() > 0 {
        seq![ParcelView { addressing: Addressing::Broadcast, output: OutputView::Alive }]
    } else {
        Seq::empty()
    }
}

/// Removing a user keeps the others in order, drops no one else, and keeps the
/// registry's invariant.
pub proof fn lemma_without_user(users: Seq<UserView>, id: u128)
    ensures
        forall|k: int|
            0 <= k < without_user(users, id).len() ==> users.contains(
                #[trigger] without_user(users, id)[k],
            ) && without_user(users, id)[k].id != id,
        forall|i: int|
            0 <= i < users.len() && (#[trigger] users[i]).id != id ==> without_user(
                users,
                id,
            ).contains(users[i]),
        registry_wf(users) ==> registry_wf(without_user(users, id)),
        !is_registered(without_user(users, id), id),
        !is_registered(users, id) ==> without_user(users, id) == users,
    decreases users.len(),
{
    reveal(Seq::filter);
    let w = without_user(users, id);
    if users.len() == 0 {
        assert(w =~= users);
    } else {
        let rest = users.drop_last();
        let last = users.last();
        lemma_without_user(rest, id);
        let wr = without_user(rest, id);
        assert(w == if last.id != id { wr.push(last) } else { wr });
        assert forall|k: int| 0 <= k < w.len() implies users.contains(#[trigger] w[k]) && w[k].id != id by {
            if k < wr.len() {
                assert(w[k] == wr[k]);
                let j = choose|j: int| 0 <= j < rest.len() && rest[j] == wr[k];
                assert(users[j] == rest[j]);
            } else {
                assert(w[k] == last);
                assert(users[users.len() - 1] == last);
            }
        }
        assert forall|i: int| 0 <= i < users.len() && (#[trigger] users[i]).id != id implies w.contains(users[i]) by {
            if i < rest.len() {
                assert(rest[i] == users[i]);
                let k = choose|k: int| 0 <= k < wr.len() && wr[k] == rest[i];
                assert(w[k] == wr[k]);
            } else {
                assert(w[w.len() - 1] == last);
            }
        }
        if registry_wf(users) {
            assert(registry_wf(rest)) by {
                assert forall|i: int, j: int| 0 <= i < j < rest.len() implies (#[trigger] rest[i]).id != (
                #[trigger] rest[j]).id && rest[i].name != rest[j].name by {
                    assert(rest[i] == users[i] && rest[j] == users[j]);
                }
                assert forall|i: int| 0 <= i < rest.len() implies valid_name((#[trigger] rest[i]).name) by {
                    assert(rest[i] == users[i]);
                }
            }
            if last.id != id {
                assert forall|i: int, j: int| 0 <= i < j < w.len() implies (#[trigger] w[i]).id != (
                #[trigger] w[j]).id && w[i].name != w[j].name by {
                    if j < wr.len() {
                        assert(w[i] == wr[i] && w[j] == wr[j]);
                    } else {
                        assert(w[i] == wr[i] && w[j] == last);
                        assert(rest.contains(wr[i]));
                        let a = choose|a: int| 0 <= a < rest.len() && rest[a] == wr[i];
                        assert(users[a] == rest[a]);
                        assert(users[users.len() - 1] == last);
                    }
                }
                assert forall|i: int| 0 <= i < w.len() implies valid_name((#[trigger] w[i]).name) by {
                    if i < wr.len() {
                        assert(w[i] == wr[i]);
                    } else {
                        assert(users[users.len() - 1] == last);
                    }
                }
            }
        }
        if !is_registered(users, id) {
            assert(!is_registered(rest, id)) by {
                if is_registered(rest, id) {
                    let j = choose|j: int| 0 <= j < rest.len() && (#[trigger] rest[j]).id == id;
                    assert(users[j] == rest[j]);
                }
            }
            assert(last.id != id) by {
                assert(users[users.len() - 1] == last);
            }
            assert(w =~= users);
        }
        if is_registered(w, id) {
            let k = choose|k: int| 0 <= k < w.len() && (#[trigger] w[k]).id == id;
            assert(false);
        }
    }
}

/// With unique identifiers, the user with identifier `id` is the one at any index that
/// holds it.
pub proof fn lemma_user_with_id(users: Seq<UserView>, id: u128, k: int)
    requires
        registry_wf(users),
        0 <= k < users.len(),
        users[k].id == id,
    ensures
        user_with_id(users, id) == users[k],
{
    assert(users.contains(users[k]));
    let u = user_with_id(users, id);
    let j = choose|j: int| 0 <= j < users.len() && users[j] == u;
    if j != k {
        if j < k {
            assert(users[j].id != users[k].id);
        } else {
            assert(users[k].id != users[j].id);
        }
    }
}

/// A join step keeps the hub's invariant.
pub proof fn lemma_join_step_wf(h: HubView, id: u128, name: Seq<char>)
    requires
        h.wf(),
    ensures
        join_step(h, id, name).0.wf(),
{
    let t = trimmed(name);
    if !is_name_taken(h.users, t) && valid_name(t) {
        lemma_without_user(h.users, id);
        let others = without_user(h.users, id);
        let user = UserView { id, name: t };
        let users = others.push(user);
        assert forall|i: int, j: int| 0 <= i < j < users.len() implies (#[trigger] users[i]).id != (
        #[trigger] users[j]).id && users[i].name != users[j].name by {
            assert(users[i] == others[i]);
            if j == users.len() - 1 {
                assert(users[j] == user);
                assert(h.users.contains(others[i]));
                let a = choose|a: int| 0 <= a < h.users.len() && h.users[a] == others[i];
            } else {
                assert(users[j] == others[j]);
            }
        }
        assert forall|i: int| 0 <= i < users.len() implies valid_name((#[trigger] users[i]).name) by {
            if i < others.len() {
                assert(users[i] == others[i]);
            }
        }
    }
}

/// A post step keeps the hub's invariant.
pub proof fn lemma_post_step_wf(
    h: HubView,
    id: u128,
    body: Seq<char>,
    message_id: u128,
    created_at: Timestamp,
)
    requires
        h.wf(),
    ensures
        post_step(h, id, body, message_id, created_at).0.wf(),
{
    if is_registered(h.users, id) && valid_body(trimmed(body)) {
        let message = MessageView { id: message_id, user: user_with_id(h.users, id), body, created_at };
        lemma_insert_by_time_sorted(h.feed, message);
    }
}

/// A disconnect step keeps the hub's invariant.
pub proof fn lemma_disconnect_step_wf(h: HubView, id: u128)
    requires
        h.wf(),
    ensures
        disconnect_step(h, id).0.wf(),
{
    lemma_without_user(h.users, id);
}

/// How the hub is set up.
#[derive(Clone, Copy, Default)]
pub struct HubOptions {
    /// How often the heartbeat runs; `None` turns it off.
    pub alive_interval: Option<Duration>,
}

/// The chat hub: the user registry, the feed and the rule for names.
pub struct Hub {
    alive_interval: Option<Duration>,
    name_rule: NameRule,
    users: Vec<User>,
    feed: Feed,
}

impl Default for Hub {
    fn default() -> (r: Hub)
        ensures
            r@.users == Seq::<UserView>::empty(),
            r@.feed == Seq::<MessageView>::empty(),
            r.spec_alive_interval() == None::<Duration>,
            r.wf(),
    {
        Hub::new(HubOptions { alive_interval: None })
    }
}

pub open spec fn users_of(users: Seq<User>) -> Seq<UserView> {
    users.map_values(|u: User| u@)
}

impl View for Hub {
    type V = HubView;

    closed spec fn view(&self) -> HubView {
        HubView { users: users_of(self.users@), feed: self.feed@ }
    }
}

/// The users of `users` but the one with identifier `id`, in the same order.
fn users_without(users: &Vec<User>, id: u128) -> (r: Vec<User>)
    ensures
        users_of(r@) == without_user(users_of(users@), id),
{
    let ghost all = users_of(users@);
    let mut r: Vec<User> = Vec::new();
    let mut i: usize = 0;
    assert(users_of(r@) =~= without_user(all.subrange(0, 0), id)) by {
        assert(all.subrange(0, 0) =~= Seq::<UserView>::empty());
    }
    while i < users.len()
        invariant
            i <= users.len(),
            all == users_of(users@),
            users_of(r@) == without_user(all.subrange(0, i as int), id),
        decreases users.len() - i,
    {
        let ghost next = all.subrange(0, i + 1);
        proof {
            reveal(Seq::filter);
            assert(next.drop_last() =~= all.subrange(0, i as int));
            assert(next.last() == users@[i as int]@);
        }
        if users[i].id != id {
            let ghost before = r@;
            r.push(users[i].duplicate());
            assert(users_of(r@) =~= users_of(before).push(users@[i as int]@));
        }
        i += 1;
    }
    assert(all.subrange(0, users.len() as int) =~= all);
    r
}

/// The output form of each user.
fn user_outputs(users: &Vec<User>) -> (r: Vec<UserOutput>)
    ensures
        users_view(r@) == users_of(users@),
{
    let mut r: Vec<UserOutput> = Vec::new();
    let mut i: usize = 0;
    while i < users.len()
        invariant
            i <= users.len(),
            users_view(r@) == users_of(users@).subrange(0, i as int),
        decreases users.len() - i,
    {
        let ghost before = r@;
        let u = UserOutput::from_user(&users[i]);
        r.push(u);
        assert(users_view(r@) =~= users_view(before).push(users@[i as int]@));
        assert(users_of(users@).subrange(0, i + 1) =~= users_of(users@).subrange(0, i as int).push(
            users@[i as int]@,
        ));
        i += 1;
    }
    assert(users_of(users@).subrange(0, users.len() as int) =~= users_of(users@));
    r
}

/// The output form of each message.
fn message_outputs(messages: &Vec<Message>) -> (r: Vec<MessageOutput>)
    ensures
        messages_view(r@) == messages@.map_values(|m: Message| m@),
{
    let ghost all = messages@.map_values(|m: Message| m@);
    let mut r: Vec<MessageOutput> = Vec::new();
    let mut i: usize = 0;
    while i < messages.len()
        invariant
            i <= messages.len(),
            all == messages@.map_values(|m: Message| m@),
            messages_view(r@) == all.subrange(0, i as int),
        decreases messages.len() - i,
    {
        let ghost before = r@;
        let m = MessageOutput::from_message(&messages[i]);
        r.push(m);
        assert(messages_view(r@) =~= messages_view(before).push(messages@[i as int]@));
        assert(all.subrange(0, i + 1) =~= all.subrange(0, i as int).push(messages@[i as int]@));
        i += 1;
    }
    assert(all.subrange(0, messages.len() as int) =~= all);
    r
}

/// One parcel, as a vector.
fn one_parcel(p: OutputParcel) -> (r: Vec<OutputParcel>)
    ensures
        parcels_view(r@) == seq![p@],
{
    let mut r: Vec<OutputParcel> = Vec::new();
    r.push(p);
    assert(parcels_view(r@) =~= seq![p@]);
    r
}

/// Two parcels, in order, as a vector.
fn two_parcels(p: OutputParcel, q: OutputParcel) -> (r: Vec<OutputParcel>)
    ensures
        parcels_view(r@) == seq![p@, q@],
{
    let mut r: Vec<OutputParcel> = Vec::new();
    r.push(p);
    r.push(q);
    assert(parcels_view(r@) =~= seq![p@, q@]);
    r
}

impl Hub {
    /// The hub's invariant.
    pub open spec fn wf(&self) -> bool {
        self@.wf()
    }

    /// The heartbeat interval the hub was made with.
    pub closed spec fn spec_alive_interval(&self) -> Option<Duration> {
        self.alive_interval
    }

    /// A hub with no users and an empty feed.
    pub fn new(options: HubOptions) -> (r: Hub)
        ensures
            r@.users == Seq::<UserView>::empty(),
            r@.feed == Seq::<MessageView>::empty(),
            r.spec_alive_interval() == options.alive_interval,
            r.wf(),
    {
        let r = Hub {
            alive_interval: options.alive_interval,
            name_rule: NameRule::new(NAME_PATTERN),
            users: Vec::new(),
            feed: Feed::new(),
        };
        assert(users_of(r.users@) =~= Seq::<UserView>::empty());
        r
    }

    /// The registered users, in the order they joined.
    pub fn users(&self) -> (r: &Vec<User>)
        ensures
            users_of(r@) == self@.users,
    {
        &self.users
    }

    /// The feed.
    pub fn feed(&self) -> (r: &Feed)
        ensures
            r@ == self@.feed,
    {
        &self.feed
    }

    /// How often the heartbeat runs; `None` when it is off.
    pub fn alive_interval(&self) -> (r: Option<Duration>)
        ensures
            r == self.spec_alive_interval(),
    {
        self.alive_interval
    }

    /// Where the user with identifier `id` stands in the registry, if it has joined.
    fn find_user(&self, id: u128) -> (r: Option<usize>)
        ensures
            r is None <==> !is_registered(self@.users, id),
            r matches Some(k) ==> k < self.users.len() && self@.users[k as int].id == id,
    {
        let mut i: usize = 0;
        while i < self.users.len()
            invariant
                i <= self.users.len(),
                forall|j: int| 0 <= j < i ==> (#[trigger] self@.users[j]).id != id,
            decreases self.users.len() - i,
        {
            if self.users[i].id == id {
                assert(self@.users[i as int].id == id);
                return Some(i);
            }
            i += 1;
        }
        None
    }

    /// Whether a registered user has the name `name`.
    fn name_taken(&self, name: &str) -> (r: bool)
        ensures
            r == is_name_taken(self@.users, name@),
    {
        let wanted = name.to_owned();
        let mut i: usize = 0;
        while i < self.users.len()
            invariant
                i <= self.users.len(),
                wanted@ == name@,
                forall|j: int| 0 <= j < i ==> (#[trigger] self@.users[j]).name != name@,
            decreases self.users.len() - i,
        {
            if self.users[i].name == wanted {
                assert(self.users@[i as int].name@ == name@);
                assert(self@.users[i as int].name == name@);
                return true;
            }
            i += 1;
        }
        false
    }

    /// Handles a join: see `join_step`.
    pub fn process_join(&mut self, client_id: u128, input: JoinInput) -> (r: Vec<OutputParcel>)
        requires
            old(self).wf(),
        ensures
            (final(self)@, parcels_view(r@)) == join_step(old(self)@, client_id, input.name@),
            final(self).wf(),
            final(self).spec_alive_interval() == old(self).spec_alive_interval(),
    {
        proof {
            lemma_join_step_wf(self@, client_id, input.name@);
        }
        let name = trim(input.name.as_str());
        if self.name_taken(name) {
            return one_parcel(OutputParcel::error(client_id, OutputError::NameTaken));
        }
        if !self.name_rule.is_match(name) {
            return one_parcel(OutputParcel::error(client_id, OutputError::InvalidName));
        }
        let ghost old_view = self@;
        let remaining = users_without(&self.users, client_id);
        let others = user_outputs(&remaining);
        let messages = message_outputs(self.feed.messages());
        let mut users = remaining;
        users.push(User::new(client_id, name));
        self.users = users;
        assert(self@.users =~= without_user(old_view.users, client_id).push(
            UserView { id: client_id, name: name@ },
        ));
        let joined = JoinedOutput::new(UserOutput::new(client_id, name), others, messages);
        let user_joined = UserJoinedOutput::new(UserOutput::new(client_id, name));
        two_parcels(
            OutputParcel::targeted(client_id, Output::Joined(joined)),
            OutputParcel::ignored(client_id, Output::UserJoined(user_joined)),
        )
    }

    /// Handles a post whose message would get the identifier `message_id` and the time
    /// `created_at`: see `post_step`.
    pub fn post_message(
        &mut self,
        client_id: u128,
        input: PostInput,
        message_id: u128,
        created_at: Timestamp,
    ) -> (r: Vec<OutputParcel>)
        requires
            old(self).wf(),
        ensures
            (final(self)@, parcels_view(r@)) == post_step(
                old(self)@,
                client_id,
                input.body@,
                message_id,
                created_at,
            ),
            final(self).wf(),
            final(self).spec_alive_interval() == old(self).spec_alive_interval(),
    {
        proof {
            lemma_post_step_wf(self@, client_id, input.body@, message_id, created_at);
        }
        let k = match self.find_user(client_id) {
            Some(k) => k,
            None => {
                return one_parcel(OutputParcel::error(client_id, OutputError::NotJoined));
            },
        };
        if !is_valid_body(trim(input.body.as_str())) {
            return one_parcel(OutputParcel::error(client_id, OutputError::InvalidMessageBody));
        }
        proof {
            lemma_user_with_id(self@.users, client_id, k as int);
        }
        let message = Message::new(message_id, self.users[k].duplicate(), input.body.as_str(), created_at);
        let posted = MessageOutput::from_message(&message);
        let user_posted = posted.duplicate();
        self.feed.add_message(message);
        two_parcels(
            OutputParcel::targeted(client_id, Output::Posted(PostedOutput::new(posted))),
            OutputParcel::ignored(client_id, Output::UserPosted(UserPostedOutput::new(user_posted))),
        )
    }

    /// Handles a post: the new message gets a fresh random identifier and the current
    /// time, and then `post_step` holds for them.
    pub fn process_post(&mut self, client_id: u128, input: PostInput) -> (r: Vec<OutputParcel>)
        requires
            old(self).wf(),
        ensures
            exists|message_id: u128, created_at: Timestamp|
                #[trigger] post_step(old(self)@, client_id, input.body@, message_id, created_at)
                    == (final(self)@, parcels_view(r@)),
            final(self).wf(),
            final(self).spec_alive_interval() == old(self).spec_alive_interval(),
    {
        let message_id = fresh_id();
        let created_at = now();
        let ghost before = self@;
        let ghost body = input.body@;
        let r = self.post_message(client_id, input, message_id, created_at);
        assert(post_step(before, client_id, body, message_id, created_at) == (self@, parcels_view(r@)));
        r
    }

    /// Handles one input of a client.
    pub fn process(&mut self, input_parcel: InputParcel) -> (r: Vec<OutputParcel>)
        requires
            old(self).wf(),
        ensures
            input_parcel.input matches Input::Join(j) ==> (final(self)@, parcels_view(r@)) == join_step(
                old(self)@,
                input_parcel.client_id,
                j.name@,
            ),
            input_parcel.input matches Input::Post(p) ==> exists|message_id: u128, created_at: Timestamp|
                #[trigger] post_step(old(self)@, input_parcel.client_id, p.body@, message_id, created_at)
                    == (final(self)@, parcels_view(r@)),
            final(self).wf(),
            final(self).spec_alive_interval() == old(self).spec_alive_interval(),
    {
        match input_parcel.input {
            Input::Join(input) => self.process_join(input_parcel.client_id, input),
            Input::Post(input) => self.process_post(input_parcel.client_id, input),
        }
    }

    /// Handles the end of a connection: see `disconnect_step`. Calling it again for the
    /// same connection does nothing.
    pub fn on_disconnect(&mut self, client_id: u128) -> (r: Vec<OutputParcel>)
        requires
            old(self).wf(),
        ensures
            (final(self)@, parcels_view(r@)) == disconnect_step(old(self)@, client_id),
            final(self).wf(),
            final(self).spec_alive_interval() == old(self).spec_alive_interval(),
    {
        proof {
            lemma_disconnect_step_wf(self@, client_id);
        }
        if self.find_user(client_id).is_none() {
            let r: Vec<OutputParcel> = Vec::new();
            assert(parcels_view(r@) =~= Seq::<ParcelView>::empty());
            return r;
        }
        self.users = users_without(&self.users, client_id);
        one_parcel(OutputParcel::ignored(client_id, Output::UserLeft(UserLeftOutput::new(client_id))))
    }

    /// The heartbeat: see `alive_step`.
    pub fn tick_alive(&self) -> (r: Vec<OutputParcel>)
        ensures
            parcels_view(r@) == alive_step(self@),
    {
        if self.users.len() > 0 {
            one_parcel(OutputParcel::new(Addressing::Broadcast, Output::Alive))
        } else {
            let r: Vec<OutputParcel> = Vec::new();
            assert(parcels_view(r@) =~= Seq::<ParcelView>::empty());
            r
        }
    }
}

} // verus!
