//! A bridge between SMS and Matrix: what it does about messages, rooms and phone numbers.
//!
//! The modem, the homeserver and the database are not reached from here. What they send is handed
//! to the bridge, to the factories that make users and rooms, and to the managers of recipients'
//! messages, and each of them says what is to be done.

use vstd::prelude::*;

pub mod text;
pub mod pdu;
pub mod util;
pub mod models;
pub mod store;
pub mod address_map;
pub mod events;
pub mod backoff;
pub mod bridge;
pub mod bridge_laws;
pub mod listing_laws;
pub mod poll_laws;
pub mod future;
pub mod pool;
pub mod recipient_factory;
pub mod recipient_factory_laws;
pub mod sending;
pub mod sms_processor;
pub mod users;
pub mod users_laws;

verus! {

/// What the front page says.
pub fn home() -> (r: &'static str)
    ensures
        r@ == "matrix-appservice-sms here, alive and well!"@,
{
    "matrix-appservice-sms here, alive and well!"
}

} // verus!
