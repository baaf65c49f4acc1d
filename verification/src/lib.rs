//! Session layer of a client for the OBS remote-control protocol, which speaks JSON
//! over one WebSocket connection.
//!
//! The crate holds the parts of the session that decide something: the credential of
//! the challenge-response handshake, the correlation ids of outbound requests, the
//! table of requests that still wait for their response, and the classification of
//! inbound frames into responses and events. Sockets, threads and channels are left
//! to the caller, who hands frames in and carries the returned actions out.

pub mod auth;
pub mod dispatch;
pub mod envelope;
pub mod events;
pub mod json;
pub mod listeners;
pub mod message_id;
pub mod requests;
pub mod session;

pub use auth::{accepted, authenticate, hash, AuthStep};
pub use dispatch::{poll_step, process_event, Dispatch, Received, Step};
pub use envelope::ObsResponse;
pub use events::SceneItem;
pub use json::ObsMessageArguments;
pub use listeners::{find_callback_listener, Listeners};
pub use message_id::MessageCounter;
pub use requests::{Request, RequestType};
pub use session::{prepare_request, withdraw_request, Outgoing};
