//! Outbound requests and their envelope.

use crate::json::{
    empty_object, json_string, no_members, object_members, object_text, set_member, string_value,
    write_object, ObsMessageArguments,
};
use serde_json::Value;
use vstd::prelude::*;

verus! {

/// The operations that a request can ask for.
#[derive(Debug, Clone, Copy, PartialEq, Eq, Structural)]
pub enum RequestType {
    GetAuthRequired,
    Authenticate,
    GetSceneList,
    SetCurrentScene,
}

impl RequestType {
    /// The name under which the server knows the operation.
    pub open spec fn name(self) -> Seq<char> {
        match self {
            RequestType::GetAuthRequired => "GetAuthRequired"@,
            RequestType::Authenticate => "Authenticate"@,
            RequestType::GetSceneList => "GetSceneList"@,
            RequestType::SetCurrentScene => "SetCurrentScene"@,
        }
    }

    /// The name under which the server knows the operation.
    pub fn as_str(&self) -> (name: &'static str)
        ensures
            name@ == self.name(),
    {
        match self {
            RequestType::GetAuthRequired => "GetAuthRequired",
            RequestType::Authenticate => "Authenticate",
            RequestType::GetSceneList => "GetSceneList",
            RequestType::SetCurrentScene => "SetCurrentScene",
        }
    }
}

/// The key of the member that names the operation of a request.
pub open spec fn request_type_key() -> Seq<char> {
    "request-type"@
}

/// The key of the member that holds the correlation id.
pub open spec fn message_id_key() -> Seq<char> {
    "message-id"@
}

/// The members that the caller's arguments stand for, where there are any.
pub open spec fn argument_members(args: Option<ObsMessageArguments>) -> Map<Seq<char>, Value> {
    match args {
        Some(object) => object_members(object),
        None => no_members(),
    }
}

/// The members of the envelope of a request: the caller's arguments, and over them the
/// name of the operation and the correlation id, each as a JSON string. An argument under
/// one of the envelope's own two keys gives way to the envelope's member.
pub open spec fn envelope_members(
    request_type: RequestType,
    message_id: Seq<char>,
    arguments: Map<Seq<char>, Value>,
) -> Map<Seq<char>, Value> {
    arguments.insert(request_type_key(), json_string(request_type.name())).insert(
        message_id_key(),
        json_string(message_id),
    )
}

/// A request: the operation, the correlation id, and the caller's arguments.
pub struct Request<'a> {
    request_type: RequestType,
    message_id: &'a str,
    args: Option<ObsMessageArguments>,
}

impl<'a> Request<'a> {
    /// The operation that the request asks for.
    pub closed spec fn request_type(&self) -> RequestType {
        self.request_type
    }

    /// The correlation id of the request.
    pub closed spec fn message_id(&self) -> Seq<char> {
        self.message_id@
    }

    /// The caller's arguments.
    pub closed spec fn args(&self) -> Option<ObsMessageArguments> {
        self.args
    }

    /// The members of the request's envelope.
    pub open spec fn members(&self) -> Map<Seq<char>, Value> {
        envelope_members(self.request_type(), self.message_id(), argument_members(self.args()))
    }

    /// The request for `request_type` under the id `message_id`, with the arguments `args`.
    pub fn new(request_type: RequestType, message_id: &'a str, args: Option<ObsMessageArguments>) -> (request:
        Self)
        ensures
            request.request_type() == request_type,
            request.message_id() == message_id@,
            request.args() == args,
    {
        Request { request_type, message_id, args }
    }

    /// The envelope of the request as a JSON object.
    pub fn into_object(self) -> (object: ObsMessageArguments)
        ensures
            object_members(object) == self.members(),
    {
        let mut object = match self.args {
            Some(object) => object,
            None => empty_object(),
        };
        set_member(
            &mut object,
            "request-type".to_owned(),
            string_value(self.request_type.as_str().to_owned()),
        );
        set_member(&mut object, "message-id".to_owned(), string_value(self.message_id.to_owned()));
        object
    }

    /// The JSON text of the request's envelope, where the envelope can be written.
    pub fn into_text(self) -> (text: Option<String>)
        ensures
            match text {
                Some(written) => object_text(self.members()) == Some(written@),
                None => object_text(self.members()) is None,
            },
    {
        let object = self.into_object();
        match write_object(&object) {
            Ok(written) => Some(written),
            Err(_) => None,
        }
    }
}

} // verus!
