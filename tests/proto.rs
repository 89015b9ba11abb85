use rusty_chat::client::Client;
use rusty_chat::proto::{Addressing, Input, Output, OutputParcel, PostInput};

#[test]
fn addressing_target() {
    let a = Addressing::Target(7);
    assert!(a.delivers_to(7));
    assert!(!a.delivers_to(8));
    assert!(!a.delivers_to(0));
}

#[test]
fn addressing_exclude_one() {
    let a = Addressing::ExcludeOne(7);
    assert!(!a.delivers_to(7));
    assert!(a.delivers_to(8));
    assert!(a.delivers_to(u128::MAX));
}

#[test]
fn addressing_broadcast() {
    let a = Addressing::Broadcast;
    for id in [0u128, 7, u128::MAX] {
        assert!(a.delivers_to(id));
    }
}

#[test]
fn client_filters_parcels() {
    let c = Client::with_id(3);
    assert!(c.accepts(&OutputParcel::targeted(3, Output::Alive)));
    assert!(!c.accepts(&OutputParcel::targeted(4, Output::Alive)));
    assert!(!c.accepts(&OutputParcel::ignored(3, Output::Alive)));
    assert!(c.accepts(&OutputParcel::ignored(4, Output::Alive)));
    assert!(c.accepts(&OutputParcel::new(Addressing::Broadcast, Output::Alive)));
}

#[test]
fn client_wraps_its_inputs() {
    let c = Client::with_id(11);
    let p = c.input_parcel(Input::Post(PostInput { body: String::from("x") }));
    assert_eq!(p.client_id, 11);
    assert!(matches!(p.input, Input::Post(ref b) if b.body == "x"));
}
