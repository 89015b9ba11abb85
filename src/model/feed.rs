//! The feed: every accepted message, in time order.
use crate::clock::Timestamp;
use crate::model::message::{Message, MessageView};
use vstd::prelude::*;
use vstd::std_specs::iter::IteratorSpec;

verus! {

/// No message of `feed` is later than one that follows it.
pub open spec fn sorted_by_time(feed: Seq<MessageView>) -> bool {
    forall|i: int, j: int|
        0 <= i < j < feed.len() ==> #[trigger] feed[i].created_at.spec_le(
            #[trigger] feed[j].created_at,
        )
}

/// Where a message created at `at` goes: after the last message that is not later
/// than `at`.
pub open spec fn insert_position(feed: Seq<MessageView>, at: Timestamp) -> int
    decreases feed.len(),
{
    if feed.len() == 0 {
        0
    } else if feed.last().created_at.spec_le(at) {
        feed.len() as int
    } else {
        insert_position(feed.drop_last(), at)
    }
}

/// `feed` with `m` put in its place by time; among messages of the same time, `m`
/// comes last.
pub open spec fn insert_by_time(feed: Seq<MessageView>, m: MessageView) -> Seq<MessageView> {
    feed.insert(insert_position(feed, m.created_at), m)
}

/// In a sorted feed, the messages before the insert position are not later than `at`
/// and those from it on are later.
pub proof fn lemma_insert_position(feed: Seq<MessageView>, at: Timestamp)
    requires
        sorted_by_time(feed),
    ensures
        0 <= insert_position(feed, at) <= feed.len(),
        forall|i: int| 0 <= i < insert_position(feed, at) ==> #[trigger] feed[i].created_at.spec_le(at),
        forall|i: int|
            insert_position(feed, at) <= i < feed.len() ==> !(#[trigger] feed[i].created_at.spec_le(at)),
    decreases feed.len(),
{
    if feed.len() > 0 {
        if feed.last().created_at.spec_le(at) {
            assert forall|i: int| 0 <= i < feed.len() implies #[trigger] feed[i].created_at.spec_le(at) by {
                if i < feed.len() - 1 {
                    assert(feed[i].created_at.spec_le(feed[feed.len() - 1].created_at));
                }
            }
        } else {
            let rest = feed.drop_last();
            assert(sorted_by_time(rest)) by {
                assert forall|i: int, j: int| 0 <= i < j < rest.len() implies #[trigger] rest[i].created_at.spec_le(
                    #[trigger] rest[j].created_at) by {
                    assert(rest[i] == feed[i] && rest[j] == feed[j]);
                }
            }
            lemma_insert_position(rest, at);
            assert forall|i: int|
                insert_position(feed, at) <= i < feed.len() implies !(#[trigger] feed[i].created_at.spec_le(at)) by {
                if i < feed.len() - 1 {
                    assert(feed[i] == rest[i]);
                }
            }
            assert forall|i: int| 0 <= i < insert_position(feed, at) implies #[trigger] feed[i].created_at.spec_le(at) by {
                assert(feed[i] == rest[i]);
            }
        }
    }
}

/// Putting a message in its place keeps a feed sorted.
pub proof fn lemma_insert_by_time_sorted(feed: Seq<MessageView>, m: MessageView)
    requires
        sorted_by_time(feed),
    ensures
        sorted_by_time(insert_by_time(feed, m)),
        insert_by_time(feed, m).len() == feed.len() + 1,
{
    lemma_insert_position(feed, m.created_at);
    let p = insert_position(feed, m.created_at);
    let r = insert_by_time(feed, m);
    feed.insert_ensures(p, m);
    assert forall|i: int, j: int| 0 <= i < j < r.len() implies #[trigger] r[i].created_at.spec_le(
        #[trigger] r[j].created_at) by {
        if j < p {
            assert(r[i] == feed[i] && r[j] == feed[j]);
            assert(feed[i].created_at.spec_le(feed[j].created_at));
        } else if j == p {
            assert(r[i] == feed[i]);
            assert(feed[i].created_at.spec_le(m.created_at));
        } else if i < p {
            assert(r[i] == feed[i] && r[j] == feed[j - 1]);
            assert(feed[i].created_at.spec_le(m.created_at));
            assert(!feed[j - 1].created_at.spec_le(m.created_at));
        } else if i == p {
            assert(r[j] == feed[j - 1]);
            assert(!feed[j - 1].created_at.spec_le(m.created_at));
        } else {
            assert(r[i] == feed[i - 1] && r[j] == feed[j - 1]);
            assert(feed[i - 1].created_at.spec_le(feed[j - 1].created_at));
        }
    }
}

/// The messages of the chat, kept sorted by the time they were created.
pub struct Feed {
    messages: Vec<Message>,
}

impl View for Feed {
    type V = Seq<MessageView>;

    closed spec fn view(&self) -> Seq<MessageView> {
        self.messages@.map_values(|m: Message| m@)
    }
}

impl Default for Feed {
    fn default() -> (r: Feed)
        ensures
            r@ == Seq::<MessageView>::empty(),
    {
        Feed::new()
    }
}

impl Feed {
    /// The feed's invariant: its messages are in time order.
    pub open spec fn wf(&self) -> bool {
        sorted_by_time(self@)
    }

    pub fn new() -> (r: Feed)
        ensures
            r@ == Seq::<MessageView>::empty(),
            r.wf(),
    {
        let r = Feed { messages: Vec::new() };
        assert(r@ =~= Seq::<MessageView>::empty());
        r
    }

    /// Adds a message after every message that is not later than it, so that the feed
    /// stays sorted.
    pub fn add_message(&mut self, message: Message)
        requires
            old(self).wf(),
        ensures
            final(self)@ == insert_by_time(old(self)@, message@),
            final(self).wf(),
    {
        let ghost feed = self@;
        let ghost at = message.created_at;
        let mut i: usize = self.messages.len();
        assert(feed.subrange(0, i as int) =~= feed);
        while i > 0 && !self.messages[i - 1].created_at.le(&message.created_at)
            invariant
                i <= self.messages.len(),
                feed == self@,
                insert_position(feed, at) == insert_position(feed.subrange(0, i as int), at),
                at == message.created_at,
            decreases i,
        {
            let ghost prefix = feed.subrange(0, i as int);
            assert(prefix.drop_last() =~= feed.subrange(0, i - 1));
            i = i - 1;
        }
        proof {
            let prefix = feed.subrange(0, i as int);
            if i > 0 {
                assert(prefix.last() == feed[i - 1]);
            }
        }
        self.messages.insert(i, message);
        proof {
            assert(self@ =~= insert_by_time(feed, message@));
            lemma_insert_by_time_sorted(feed, message@);
        }
    }

    /// The messages themselves, oldest first.
    pub closed spec fn message_seq(&self) -> Seq<Message> {
        self.messages@
    }

    /// The number of messages.
    pub fn len(&self) -> (r: usize)
        ensures
            r == self@.len(),
    {
        self.messages.len()
    }

    /// The messages, oldest first, one by one.
    pub fn messages_iter(&self) -> (r: std::slice::Iter<'_, Message>)
        ensures
            r.remaining() == self.message_seq().as_ref(),
            self.message_seq().map_values(|m: Message| m@) == self@,
    {
        self.messages.iter()
    }

    /// The messages, oldest first.
    pub fn messages(&self) -> (r: &Vec<Message>)
        ensures
            r@.map_values(|m: Message| m@) == self@,
    {
        &self.messages
    }
}

} // verus!
