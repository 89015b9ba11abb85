//! What holds of the hub over every input and every sequence of inputs.
use crate::clock::Timestamp;
use crate::hub::{
    disconnect_step, is_name_taken, is_registered, join_step, lemma_join_step_wf, lemma_post_step_wf,
    lemma_without_user, post_step, to_client, to_others, HubView,
};
use crate::model::feed::sorted_by_time;
use crate::proto::{is_delivered, Addressing, OutputError, OutputView, ParcelView};
use crate::text::{trimmed, valid_name};
use vstd::prelude::*;

verus! {

/// The number of `UserLeft` outputs among `outs`.
pub open spec fn count_user_left(outs: Seq<ParcelView>) -> nat {
    outs.filter(|p: ParcelView| p.output is UserLeft).len()
}

/// Disconnecting the same connection twice emits at most one `UserLeft`, and the second
/// call changes nothing.
pub proof fn lemma_disconnect_twice(h: HubView, id: u128)
    ensures
        ({
            let (h1, o1) = disconnect_step(h, id);
            let (h2, o2) = disconnect_step(h1, id);
            &&& h2 == h1
            &&& o2 == Seq::<ParcelView>::empty()
            &&& count_user_left(o1 + o2) <= 1
        }),
{
    lemma_without_user(h.users, id);
    let (h1, o1) = disconnect_step(h, id);
    assert(o1 + Seq::<ParcelView>::empty() =~= o1);
    o1.lemma_filter_len(|p: ParcelView| p.output is UserLeft);
}

/// The number of outputs among `outs` that say that `id` has left.
pub open spec fn count_left_of(outs: Seq<ParcelView>, id: u128) -> nat {
    outs.filter(|p: ParcelView| p.output == OutputView::UserLeft(id)).len()
}

/// Disconnects run one after the other from `h`: the hub after them, and all that they
/// emitted, in order.
pub open spec fn disconnect_all(h: HubView, ids: Seq<u128>) -> (HubView, Seq<ParcelView>)
    decreases ids.len(),
{
    if ids.len() == 0 {
        (h, Seq::empty())
    } else {
        let (h1, outs) = disconnect_all(h, ids.drop_last());
        let (h2, o) = disconnect_step(h1, ids.last());
        (h2, outs + o)
    }
}

/// Over any sequence of disconnects, each connection is reported as left at most once.
pub proof fn lemma_disconnects_leave_once(h: HubView, ids: Seq<u128>, id: u128)
    ensures
        count_left_of(disconnect_all(h, ids).1, id) <= 1,
{
    lemma_disconnect_all(h, ids, id);
}

proof fn lemma_disconnect_all(h: HubView, ids: Seq<u128>, id: u128)
    ensures
        count_left_of(disconnect_all(h, ids).1, id) <= 1,
        count_left_of(disconnect_all(h, ids).1, id) == 1 ==> !is_registered(disconnect_all(h, ids).0.users, id),
        is_registered(disconnect_all(h, ids).0.users, id) ==> is_registered(h.users, id),
    decreases ids.len(),
{
    let pred = |p: ParcelView| p.output == OutputView::UserLeft(id);
    if ids.len() == 0 {
        assert(Seq::<ParcelView>::empty().filter(pred) =~= Seq::<ParcelView>::empty()) by {
            reveal(Seq::filter);
        }
    } else {
        lemma_disconnect_all(h, ids.drop_last(), id);
        let (h1, outs) = disconnect_all(h, ids.drop_last());
        let y = ids.last();
        let (h2, o) = disconnect_step(h1, y);
        assert(disconnect_all(h, ids) == (h2, outs + o));
        lemma_without_user(h1.users, y);
        Seq::filter_distributes_over_add(outs, o, pred);
        if is_registered(h1.users, y) {
            let p = to_others(y, OutputView::UserLeft(y));
            assert(o == seq![p]);
            assert(o.filter(pred) == if pred(p) { seq![p] } else { Seq::<ParcelView>::empty() }) by {
                reveal(Seq::filter);
                assert(o.drop_last() =~= Seq::<ParcelView>::empty());
                assert(Seq::<ParcelView>::empty().filter(pred) =~= Seq::<ParcelView>::empty());
            }
            if y != id {
                if is_registered(h2.users, id) {
                    let k = choose|k: int| 0 <= k < h2.users.len() && (#[trigger] h2.users[k]).id == id;
                    assert(h1.users.contains(h2.users[k]));
                    let j = choose|j: int| 0 <= j < h1.users.len() && h1.users[j] == h2.users[k];
                    assert(h1.users[j].id == id);
                }
            }
        } else {
            assert(o.filter(pred) =~= Seq::<ParcelView>::empty()) by {
                reveal(Seq::filter);
            }
        }
    }
}

/// The outputs of a join attempt report success.
pub open spec fn join_succeeded(outs: Seq<ParcelView>) -> bool {
    outs.len() > 0 && outs[0].output is Joined
}

/// Join attempts run one after the other from `h`: the hub after them, and the outputs
/// of each attempt.
pub open spec fn join_all(h: HubView, attempts: Seq<(u128, Seq<char>)>) -> (HubView, Seq<Seq<ParcelView>>)
    decreases attempts.len(),
{
    if attempts.len() == 0 {
        (h, Seq::empty())
    } else {
        let (h1, outs) = join_all(h, attempts.drop_last());
        let (h2, o) = join_step(h1, attempts.last().0, attempts.last().1);
        (h2, outs.push(o))
    }
}

/// Among join attempts whose names trim to the same name, at most one succeeds; when the
/// name is a valid one, every other attempt is told that the name is taken.
pub proof fn lemma_join_same_name(h: HubView, attempts: Seq<(u128, Seq<char>)>, name: Seq<char>)
    requires
        h.wf(),
        forall|k: int| 0 <= k < attempts.len() ==> trimmed((#[trigger] attempts[k]).1) == name,
    ensures
        ({
            let (last, outs) = join_all(h, attempts);
            &&& outs.len() == attempts.len()
            &&& forall|i: int, j: int|
                0 <= i < outs.len() && 0 <= j < outs.len() && i != j ==> !(join_succeeded(
                    #[trigger] outs[i],
                ) && join_succeeded(#[trigger] outs[j]))
            &&& valid_name(name) ==> forall|i: int|
                0 <= i < outs.len() && !join_succeeded(#[trigger] outs[i]) ==> outs[i] == seq![
                    to_client(attempts[i].0, OutputView::Error(OutputError::NameTaken)),
                ]
        }),
{
    lemma_join_all(h, attempts, name);
}

proof fn lemma_join_all(h: HubView, attempts: Seq<(u128, Seq<char>)>, name: Seq<char>)
    requires
        h.wf(),
        forall|k: int| 0 <= k < attempts.len() ==> trimmed((#[trigger] attempts[k]).1) == name,
    ensures
        ({
            let (last, outs) = join_all(h, attempts);
            &&& last.wf()
            &&& outs.len() == attempts.len()
            &&& forall|i: int, j: int|
                0 <= i < outs.len() && 0 <= j < outs.len() && i != j ==> !(join_succeeded(
                    #[trigger] outs[i],
                ) && join_succeeded(#[trigger] outs[j]))
            &&& forall|i: int| 0 <= i < outs.len() && join_succeeded(#[trigger] outs[i]) ==> is_name_taken(last.users, name)
            &&& valid_name(name) && attempts.len() > 0 ==> is_name_taken(last.users, name)
            &&& valid_name(name) ==> forall|i: int|
                0 <= i < outs.len() && !join_succeeded(#[trigger] outs[i]) ==> outs[i] == seq![
                    to_client(attempts[i].0, OutputView::Error(OutputError::NameTaken)),
                ]
        }),
    decreases attempts.len(),
{
    if attempts.len() > 0 {
        let rest = attempts.drop_last();
        assert forall|k: int| 0 <= k < rest.len() implies trimmed((#[trigger] rest[k]).1) == name by {
            assert(rest[k] == attempts[k]);
        }
        lemma_join_all(h, rest, name);
        let (h1, outs1) = join_all(h, rest);
        let (id, raw) = attempts.last();
        assert(attempts[attempts.len() - 1] == attempts.last());
        lemma_join_step_wf(h1, id, raw);
        let (h2, o) = join_step(h1, id, raw);
        let outs = outs1.push(o);
        if join_succeeded(o) {
            let users = h2.users;
            assert(users[users.len() - 1].name == name);
            assert(!is_name_taken(h1.users, name));
        } else {
            assert(h2 == h1);
        }
        assert forall|i: int| 0 <= i < outs.len() && join_succeeded(#[trigger] outs[i]) implies is_name_taken(h2.users, name) by {
            if i < outs1.len() {
                assert(outs[i] == outs1[i]);
            }
        }
        assert forall|i: int, j: int|
            0 <= i < outs.len() && 0 <= j < outs.len() && i != j implies !(join_succeeded(
                #[trigger] outs[i],
            ) && join_succeeded(#[trigger] outs[j])) by {
            if i < outs1.len() && j < outs1.len() {
                assert(outs[i] == outs1[i] && outs[j] == outs1[j]);
            } else if i < outs1.len() {
                assert(outs[i] == outs1[i]);
            } else {
                assert(outs[j] == outs1[j]);
            }
        }
        if valid_name(name) {
            assert forall|i: int| 0 <= i < outs.len() && !join_succeeded(#[trigger] outs[i]) implies outs[i] == seq![
                to_client(attempts[i].0, OutputView::Error(OutputError::NameTaken)),
            ] by {
                if i < outs1.len() {
                    assert(outs[i] == outs1[i]);
                    assert(rest[i] == attempts[i]);
                }
            }
        }
    }
}

/// A name that does not trim to 4 to 24 letters and white space is turned down as
/// invalid, whoever else has joined, and nothing changes.
pub proof fn lemma_invalid_name_rejected(h: HubView, id: u128, name: Seq<char>)
    requires
        h.wf(),
        !valid_name(trimmed(name)),
    ensures
        join_step(h, id, name) == (h, seq![to_client(id, OutputView::Error(OutputError::InvalidName))]),
{
    if is_name_taken(h.users, trimmed(name)) {
        let i = choose|i: int| 0 <= i < h.users.len() && (#[trigger] h.users[i]).name == trimmed(name);
        assert(valid_name(h.users[i].name));
    }
}

/// Posts run one after the other from `h`, each with the identifier and time of its
/// message: the hub after them.
pub open spec fn post_all(h: HubView, posts: Seq<(u128, Seq<char>, u128, Timestamp)>) -> HubView
    decreases posts.len(),
{
    if posts.len() == 0 {
        h
    } else {
        let p = posts.last();
        post_step(post_all(h, posts.drop_last()), p.0, p.1, p.2, p.3).0
    }
}

/// The feed stays sorted by creation time over every sequence of posts.
pub proof fn lemma_posts_keep_feed_sorted(h: HubView, posts: Seq<(u128, Seq<char>, u128, Timestamp)>)
    requires
        h.wf(),
    ensures
        sorted_by_time(post_all(h, posts).feed),
        post_all(h, posts).wf(),
    decreases posts.len(),
{
    if posts.len() > 0 {
        lemma_posts_keep_feed_sorted(h, posts.drop_last());
        let p = posts.last();
        lemma_post_step_wf(post_all(h, posts.drop_last()), p.0, p.1, p.2, p.3);
    }
}

/// A targeted output goes to its target alone; an output that excludes one client goes
/// to everyone else; a broadcast goes to everyone.
pub proof fn lemma_addressing(target: u128, excluded: u128, subscriber: u128)
    ensures
        is_delivered(Addressing::Target(target), target),
        subscriber != target ==> !is_delivered(Addressing::Target(target), subscriber),
        !is_delivered(Addressing::ExcludeOne(excluded), excluded),
        subscriber != excluded ==> is_delivered(Addressing::ExcludeOne(excluded), subscriber),
        is_delivered(Addressing::Broadcast, subscriber),
{
}

} // verus!
