//! Client side of the `orb-relay` protocol: the message model, the
//! decisions of the client's actor, and the authenticated app data hash.

use vstd::prelude::*;

pub mod actor;
pub mod amount;
pub mod app_data;
pub mod client;
pub mod messages;

pub use amount::Amount;
pub use app_data::AppAuthenticatedData;
pub use client::{ClientOpts, QoS, RecvdRelayPayload, SendMessage};
pub use messages::{Entity, EntityType};

verus! {

/// The id of a client on the relay.
pub type ClientId = String;

} // verus!
