//! One connected client, as the hub's outputs are filtered for it.
use crate::ids::fresh_id;
use crate::proto::{is_delivered, Input, InputParcel, OutputParcel};
use vstd::prelude::*;

verus! {

/// A connection to the hub. Its identifier is both the connection's and, once it has
/// joined, the user's.
#[derive(Clone, Copy, Debug, Default, PartialEq, Eq, Structural)]
pub struct Client {
    pub id: u128,
}

impl Client {
    /// A client with a fresh random identifier.
    pub fn new() -> (r: Client) {
        Client { id: fresh_id() }
    }

    /// A client with the given identifier.
    pub fn with_id(id: u128) -> (r: Client)
        ensures
            r.id == id,
    {
        Client { id }
    }

    /// An input of this client, ready for the hub.
    pub fn input_parcel(&self, input: Input) -> (r: InputParcel)
        ensures
            r.client_id == self.id,
            r.input == input,
    {
        InputParcel::new(self.id, input)
    }

    /// Whether this client receives the parcel.
    pub fn accepts(&self, parcel: &OutputParcel) -> (r: bool)
        ensures
            r == is_delivered(parcel.addressing, self.id),
    {
        parcel.is_for(self.id)
    }
}

} // verus!
