//! The caller's side of a request: its id, its envelope, and its place in the table of
//! requests that wait.

use crate::json::{object_text, ObsMessageArguments};
use crate::listeners::Listeners;
use crate::message_id::{decimal, following, max_id, MessageCounter};
use crate::requests::{argument_members, envelope_members, Request, RequestType};
use vstd::prelude::*;

verus! {

/// A request that is registered and ready to be sent.
#[derive(Debug)]
pub struct Outgoing {
    /// The correlation id under which the response will come.
    pub message_id: String,
    /// The frame to send: the JSON text of the request's envelope.
    pub payload: String,
}

/// Registers the request `message_id`, of which `payload` is the envelope as far as it
/// could be written. A request whose envelope could not be written is not registered:
/// nothing would ever answer it.
pub fn register_request<S>(
    listeners: &mut Listeners<S>,
    message_id: String,
    payload: Option<String>,
    sender: S,
) -> (outgoing: Option<Outgoing>)
    ensures
        match payload {
            Some(text) => {
                &&& outgoing matches Some(ready)
                &&& ready.message_id == message_id
                &&& ready.payload == text
                &&& final(listeners)@ == old(listeners)@.insert(message_id@, sender)
            },
            None => outgoing is None && final(listeners)@ == old(listeners)@,
        },
{
    match payload {
        Some(text) => {
            listeners.add_callback(message_id.clone(), sender);
            Some(Outgoing { message_id, payload: text })
        },
        None => None,
    }
}

/// Prepares a request for `request_type` with the arguments `args`: issues its id, writes
/// its envelope, and registers `sender` as the slot for its response. What comes back is
/// to be sent as it is. The id is used up even where the envelope cannot be written.
pub fn prepare_request<S>(
    counter: &mut MessageCounter,
    listeners: &mut Listeners<S>,
    request_type: RequestType,
    args: Option<ObsMessageArguments>,
    sender: S,
) -> (outgoing: Option<Outgoing>)
    ensures
        final(counter).last() == following(old(counter).last()),
        1 <= final(counter).last() <= max_id(),
        match object_text(
            envelope_members(
                request_type,
                decimal(final(counter).last()),
                argument_members(args),
            ),
        ) {
            Some(text) => {
                &&& outgoing matches Some(ready)
                &&& ready.message_id@ == decimal(final(counter).last())
                &&& ready.payload@ == text
                &&& final(listeners)@ == old(listeners)@.insert(
                    decimal(final(counter).last()),
                    sender,
                )
            },
            None => outgoing is None && final(listeners)@ == old(listeners)@,
        },
{
    let message_id = counter.message_id();
    let payload = Request::new(request_type, message_id.as_str(), args).into_text();
    register_request(listeners, message_id, payload, sender)
}

/// Withdraws the request `message_id` after its frame could not be sent, so that it does
/// not wait for a response that cannot come.
pub fn withdraw_request<S>(listeners: &mut Listeners<S>, message_id: &str)
    ensures
        final(listeners)@ == old(listeners)@.remove(message_id@),
{
    let _ = listeners.take(message_id);
}

} // verus!
