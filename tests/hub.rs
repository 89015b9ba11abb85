use rusty_chat::client::Client;
use rusty_chat::clock::Timestamp;
use rusty_chat::hub::{Hub, HubOptions};
use rusty_chat::proto::{Addressing, Input, InputParcel, JoinInput, Output, OutputError, OutputParcel, PostInput};

fn join(hub: &mut Hub, id: u128, name: &str) -> Vec<OutputParcel> {
    hub.process(InputParcel::new(id, Input::Join(JoinInput { name: String::from(name) })))
}

fn post(hub: &mut Hub, id: u128, body: &str) -> Vec<OutputParcel> {
    hub.process(InputParcel::new(id, Input::Post(PostInput { body: String::from(body) })))
}

fn error_of(parcels: &[OutputParcel]) -> Option<OutputError> {
    match &parcels[0].output {
        Output::Error(e) => Some(*e),
        _ => None,
    }
}

#[test]
fn join_and_post() {
    let mut hub = Hub::new(HubOptions::default());
    let client_id = Client::new().id;

    let outputs = join(&mut hub, client_id, "John");
    let user;
    if let Output::Joined(joined) = &outputs[0].output {
        assert_eq!(joined.user.name.as_str(), "John");
        user = joined.user.clone();
    } else {
        panic!("Expected Output::Joined got {:?}", outputs[0].output);
    }

    let outputs = post(&mut hub, client_id, "Hello");
    if let Output::Posted(posted) = &outputs[0].output {
        assert_eq!(posted.message.body, "Hello");
        assert_eq!(posted.message.user.id, user.id);
        assert_eq!(posted.message.user.name, user.name);
    } else {
        panic!("Expected Output::Posted got {:?}", outputs[0].output);
    }
}

#[test]
fn alone_join_gets_empty_lists() {
    let mut hub = Hub::default();
    let outs = join(&mut hub, 1, "Alice");
    assert_eq!(outs.len(), 2);
    assert_eq!(outs[0].addressing, Addressing::Target(1));
    match &outs[0].output {
        Output::Joined(j) => {
            assert_eq!(j.user.id, 1);
            assert_eq!(j.user.name, "Alice");
            assert!(j.others.is_empty());
            assert!(j.messages.is_empty());
        }
        other => panic!("unexpected {:?}", other),
    }
    assert_eq!(outs[1].addressing, Addressing::ExcludeOne(1));
    assert!(matches!(&outs[1].output, Output::UserJoined(u) if u.user.name == "Alice" && u.user.id == 1));
}

#[test]
fn second_join_sees_first_and_first_is_told() {
    let mut hub = Hub::default();
    join(&mut hub, 1, "Alice");
    let outs = join(&mut hub, 2, "Bobby");
    assert_eq!(outs[0].addressing, Addressing::Target(2));
    match &outs[0].output {
        Output::Joined(j) => {
            assert_eq!(j.user.name, "Bobby");
            assert_eq!(j.others.len(), 1);
            assert_eq!(j.others[0].id, 1);
            assert_eq!(j.others[0].name, "Alice");
            assert!(j.messages.is_empty());
        }
        other => panic!("unexpected {:?}", other),
    }
    // Alice (id 1) receives the UserJoined parcel, Bob does not.
    assert!(Client::with_id(1).accepts(&outs[1]));
    assert!(!Client::with_id(2).accepts(&outs[1]));
    assert!(matches!(&outs[1].output, Output::UserJoined(u) if u.user.name == "Bobby" && u.user.id == 2));
}

#[test]
fn three_letter_name_is_too_short() {
    let mut hub = Hub::default();
    join(&mut hub, 1, "Alice");
    let outs = join(&mut hub, 2, "Bob");
    assert_eq!(outs.len(), 1);
    assert_eq!(outs[0].addressing, Addressing::Target(2));
    assert_eq!(error_of(&outs), Some(OutputError::InvalidName));
}

#[test]
fn post_reaches_author_and_others_with_same_message() {
    let mut hub = Hub::default();
    join(&mut hub, 1, "Alice");
    join(&mut hub, 2, "Bobby");
    let outs = post(&mut hub, 1, "Hello");
    assert_eq!(outs.len(), 2);
    assert_eq!(outs[0].addressing, Addressing::Target(1));
    assert_eq!(outs[1].addressing, Addressing::ExcludeOne(1));
    let (a, b) = match (&outs[0].output, &outs[1].output) {
        (Output::Posted(a), Output::UserPosted(b)) => (a.message.clone(), b.message.clone()),
        other => panic!("unexpected {:?}", other),
    };
    assert_eq!(a.body, "Hello");
    assert_eq!(a.user.id, 1);
    assert_eq!(a.user.name, "Alice");
    assert_eq!(a.id, b.id);
    assert_eq!(a.body, b.body);
    assert_eq!(a.user.id, b.user.id);
    assert_eq!(a.user.name, b.user.name);
    assert_eq!(a.created_at, b.created_at);
    assert!(Client::with_id(2).accepts(&outs[1]));
    assert_eq!(hub.feed().len(), 1);
    // the time comes from the system clock
    assert!(a.created_at.secs > 1_500_000_000);
}

#[test]
fn post_before_join_is_not_joined() {
    let mut hub = Hub::default();
    join(&mut hub, 1, "Alice");
    post(&mut hub, 1, "Hello");
    let outs = post(&mut hub, 3, "Hi");
    assert_eq!(outs.len(), 1);
    assert_eq!(outs[0].addressing, Addressing::Target(3));
    assert_eq!(error_of(&outs), Some(OutputError::NotJoined));
    assert_eq!(hub.feed().len(), 1);
}

#[test]
fn too_long_body_is_rejected() {
    let mut hub = Hub::default();
    join(&mut hub, 1, "Alice");
    let body = "a".repeat(257);
    let outs = post(&mut hub, 1, &body);
    assert_eq!(outs.len(), 1);
    assert_eq!(error_of(&outs), Some(OutputError::InvalidMessageBody));
    assert_eq!(hub.feed().len(), 0);
}

#[test]
fn body_of_256_bytes_is_accepted() {
    let mut hub = Hub::default();
    join(&mut hub, 1, "Alice");
    let outs = post(&mut hub, 1, &"a".repeat(256));
    assert!(matches!(outs[0].output, Output::Posted(_)));
    // 128 two-byte characters are 256 bytes, 129 are too many
    let outs = post(&mut hub, 1, &"é".repeat(128));
    assert!(matches!(outs[0].output, Output::Posted(_)));
    let outs = post(&mut hub, 1, &"é".repeat(129));
    assert_eq!(error_of(&outs), Some(OutputError::InvalidMessageBody));
    assert_eq!(hub.feed().len(), 2);
}

#[test]
fn blank_body_is_rejected_after_trimming() {
    let mut hub = Hub::default();
    join(&mut hub, 1, "Alice");
    assert_eq!(error_of(&post(&mut hub, 1, "")), Some(OutputError::InvalidMessageBody));
    assert_eq!(error_of(&post(&mut hub, 1, "  \t\n ")), Some(OutputError::InvalidMessageBody));
    // trailing spaces do not count towards the limit
    let padded = format!("{}{}", "b".repeat(256), "    ");
    assert!(matches!(post(&mut hub, 1, &padded)[0].output, Output::Posted(_)));
    assert_eq!(hub.feed().len(), 1);
}

#[test]
fn not_joined_is_checked_before_body() {
    let mut hub = Hub::default();
    assert_eq!(error_of(&post(&mut hub, 9, "")), Some(OutputError::NotJoined));
}

#[test]
fn taken_name_is_rejected() {
    let mut hub = Hub::default();
    join(&mut hub, 1, "Alice");
    let outs = join(&mut hub, 2, "Alice");
    assert_eq!(outs.len(), 1);
    assert_eq!(outs[0].addressing, Addressing::Target(2));
    assert_eq!(error_of(&outs), Some(OutputError::NameTaken));
    assert_eq!(hub.users().len(), 1);
}

#[test]
fn name_is_compared_after_trimming() {
    let mut hub = Hub::default();
    let outs = join(&mut hub, 1, "  Alice \t");
    match &outs[0].output {
        Output::Joined(j) => assert_eq!(j.user.name, "Alice"),
        other => panic!("unexpected {:?}", other),
    }
    assert_eq!(error_of(&join(&mut hub, 2, " Alice")), Some(OutputError::NameTaken));
    // names are compared with case
    assert!(matches!(join(&mut hub, 3, "alice")[0].output, Output::Joined(_)));
}

#[test]
fn same_name_joins_succeed_at_most_once() {
    let mut hub = Hub::default();
    let mut successes = 0;
    for id in 10..15u128 {
        let outs = join(&mut hub, id, " Carol ");
        match &outs[0].output {
            Output::Joined(_) => successes += 1,
            Output::Error(e) => assert_eq!(*e, OutputError::NameTaken),
            other => panic!("unexpected {:?}", other),
        }
    }
    assert_eq!(successes, 1);
}

#[test]
fn invalid_names_are_rejected() {
    let mut hub = Hub::default();
    for name in ["Bob", "", "    ", "Alice1", "Zoë Smith", "abcdefghijklmnopqrstuvwxy", "a_b_c"] {
        let outs = join(&mut hub, 1, name);
        assert_eq!(error_of(&outs), Some(OutputError::InvalidName), "name {:?}", name);
    }
    assert_eq!(hub.users().len(), 0);
    // 4 and 24 letters, and inner white space, are fine
    assert!(matches!(join(&mut hub, 2, "Dave")[0].output, Output::Joined(_)));
    assert!(matches!(join(&mut hub, 3, "abcdefghijklmnopqrstuvwx")[0].output, Output::Joined(_)));
    assert!(matches!(join(&mut hub, 4, "Ann\tLee")[0].output, Output::Joined(_)));
    // letters and white space anywhere in the name, not only in some part of it
    assert!(matches!(join(&mut hub, 5, "x Alice y")[0].output, Output::Joined(_)));
    assert!(matches!(join(&mut hub, 6, "Mary\u{3000}Jane")[0].output, Output::Joined(_)));
    assert_eq!(error_of(&join(&mut hub, 7, "Alice!")), Some(OutputError::InvalidName));
    assert_eq!(error_of(&join(&mut hub, 8, "1Alice")), Some(OutputError::InvalidName));
}

#[test]
fn invalid_name_wins_over_nothing_taken() {
    let mut hub = Hub::default();
    join(&mut hub, 1, "Alice");
    // an invalid name can never be taken, so it is reported as invalid
    assert_eq!(error_of(&join(&mut hub, 2, "Al")), Some(OutputError::InvalidName));
}

#[test]
fn disconnect_twice_emits_one_user_left() {
    let mut hub = Hub::default();
    join(&mut hub, 1, "Alice");
    join(&mut hub, 2, "Bobby");
    let first = hub.on_disconnect(1);
    assert_eq!(first.len(), 1);
    assert_eq!(first[0].addressing, Addressing::ExcludeOne(1));
    assert!(matches!(first[0].output, Output::UserLeft(l) if l.user_id == 1));
    let second = hub.on_disconnect(1);
    assert!(second.is_empty());
    assert_eq!(hub.users().len(), 1);
    assert!(hub.on_disconnect(42).is_empty());
}

#[test]
fn name_is_free_again_after_disconnect() {
    let mut hub = Hub::default();
    join(&mut hub, 1, "Alice");
    hub.on_disconnect(1);
    assert!(matches!(join(&mut hub, 2, "Alice")[0].output, Output::Joined(_)));
}

#[test]
fn rejoin_replaces_own_entry() {
    let mut hub = Hub::default();
    join(&mut hub, 1, "Alice");
    join(&mut hub, 2, "Bobby");
    let outs = join(&mut hub, 1, "Alicia");
    match &outs[0].output {
        Output::Joined(j) => {
            assert_eq!(j.others.len(), 1);
            assert_eq!(j.others[0].name, "Bobby");
        }
        other => panic!("unexpected {:?}", other),
    }
    assert_eq!(hub.users().len(), 2);
    assert_eq!(hub.users()[1].name, "Alicia");
}

#[test]
fn joined_carries_feed() {
    let mut hub = Hub::default();
    join(&mut hub, 1, "Alice");
    post(&mut hub, 1, "one");
    post(&mut hub, 1, "two");
    hub.on_disconnect(1);
    let outs = join(&mut hub, 2, "Bobby");
    match &outs[0].output {
        Output::Joined(j) => {
            assert!(j.others.is_empty());
            assert_eq!(j.messages.len(), 2);
            assert_eq!(j.messages[0].body, "one");
            assert_eq!(j.messages[1].body, "two");
            assert_eq!(j.messages[0].user.name, "Alice");
        }
        other => panic!("unexpected {:?}", other),
    }
}

#[test]
fn posts_are_kept_in_time_order() {
    let mut hub = Hub::default();
    join(&mut hub, 1, "Alice");
    let times = [(10, 0), (5, 0), (7, 3), (7, 1), (10, 0), (12, 0)];
    for (n, (secs, nanos)) in times.iter().enumerate() {
        let body = format!("m{}", n);
        hub.post_message(1, PostInput { body }, n as u128, Timestamp::new(*secs, *nanos));
    }
    let order: Vec<String> = hub.feed().messages_iter().map(|m| m.body.clone()).collect();
    assert_eq!(order, vec!["m1", "m3", "m2", "m0", "m4", "m5"]);
    let feed = hub.feed().messages();
    for w in feed.windows(2) {
        assert!(w[0].created_at.le(&w[1].created_at));
    }
}

#[test]
fn post_message_uses_given_id_and_time() {
    let mut hub = Hub::default();
    join(&mut hub, 1, "Alice");
    let outs = hub.post_message(1, PostInput { body: String::from("x") }, 77, Timestamp::new(3, 4));
    match &outs[0].output {
        Output::Posted(p) => {
            assert_eq!(p.message.id, 77);
            assert_eq!(p.message.created_at, Timestamp::new(3, 4));
        }
        other => panic!("unexpected {:?}", other),
    }
}

#[test]
fn heartbeat_only_with_users() {
    let mut hub = Hub::new(HubOptions { alive_interval: Some(std::time::Duration::from_secs(5)) });
    assert_eq!(hub.alive_interval(), Some(std::time::Duration::from_secs(5)));
    assert!(hub.tick_alive().is_empty());
    join(&mut hub, 1, "Alice");
    let outs = hub.tick_alive();
    assert_eq!(outs.len(), 1);
    assert_eq!(outs[0].addressing, Addressing::Broadcast);
    assert!(matches!(outs[0].output, Output::Alive));
}

#[test]
fn message_ids_are_fresh() {
    let mut hub = Hub::default();
    join(&mut hub, 1, "Alice");
    post(&mut hub, 1, "a");
    post(&mut hub, 1, "b");
    let m = hub.feed().messages();
    assert_ne!(m[0].id, m[1].id);
    assert_ne!(Client::new().id, Client::new().id);
}
