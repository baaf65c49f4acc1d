//! The credential of the challenge-response handshake.

use crate::envelope::{field_of, read_field, Field, FieldView};
use crate::json::{
    empty_object, flag_of, json_document, json_flag, json_member, json_string, member,
    no_members, object_members, parse_document, set_member, string_value, ObsMessageArguments,
};
use serde_json::Value;
use sha2::{Digest, Sha256};
use vstd::prelude::*;
use vstd::string::StrSliceExecFns;
use vstd::utf8::encode_utf8;

verus! {

/// The SHA-256 digest of `data`.
pub uninterp spec fn sha256(data: Seq<u8>) -> Seq<u8>;

/// The base64 text of `data`, in the standard alphabet and with padding.
pub uninterp spec fn base64_text(data: Seq<u8>) -> Seq<char>;

/// The number of characters that base64 with padding needs for `len` bytes.
pub open spec fn base64_len(len: nat) -> nat {
    4 * ((len + 2) / 3)
}

/// What one stage of the handshake digests: the bytes of `first`, then those of `second`.
pub open spec fn stage_input(first: Seq<char>, second: Seq<char>) -> Seq<u8> {
    encode_utf8(first) + encode_utf8(second)
}

/// One stage of the handshake: the base64 text of the digest of `first` followed by
/// `second`.
pub open spec fn stage(first: Seq<char>, second: Seq<char>) -> Seq<char> {
    base64_text(sha256(stage_input(first, second)))
}

/// The credential that answers `challenge`: the password and the salt give the secret,
/// and the text of the secret and the challenge give the credential.
pub open spec fn credential(password: Seq<char>, salt: Seq<char>, challenge: Seq<char>) -> Seq<
    char,
> {
    stage(stage(password, salt), challenge)
}

/// The two stages of the credential, written out: the bytes of the password and then
/// those of the salt feed the first digest, and the bytes of the base64 text of that
/// digest and then those of the challenge feed the second, whose base64 text is the
/// credential.
pub proof fn lemma_credential_has_two_stages(
    password: Seq<char>,
    salt: Seq<char>,
    challenge: Seq<char>,
)
    ensures
        credential(password, salt, challenge) == base64_text(
            sha256(
                encode_utf8(base64_text(sha256(encode_utf8(password) + encode_utf8(salt))))
                    + encode_utf8(challenge),
            ),
        ),
{
}

/// Trusted: calls `sha2::Sha256::digest`. The contract claims that the bytes returned
/// are the SHA-256 digest of `data`, and that there are 32 of them.
#[verifier::external_body]
fn sha256_digest(data: &[u8]) -> (digest: Vec<u8>)
    ensures
        digest@ == sha256(data@),
        digest@.len() == 32,
{
    Sha256::digest(data).to_vec()
}

/// Trusted: calls `base64::encode`. The contract claims that the string returned is the
/// padded base64 text of `data`. The call panics where the length of that text does not
/// fit in a `usize`, so such an input is left out.
#[verifier::external_body]
fn base64_encode(data: &[u8]) -> (text: String)
    requires
        base64_len(data@.len()) <= usize::MAX,
    ensures
        text@ == base64_text(data@),
{
    base64::encode(data)
}

/// The bytes of `first` followed by the bytes of `second`.
pub fn joined_bytes(first: &str, second: &str) -> (bytes: Vec<u8>)
    ensures
        bytes@ == stage_input(first@, second@),
{
    let mut bytes = first.as_bytes_vec();
    let mut rest = second.as_bytes_vec();
    bytes.append(&mut rest);
    bytes
}

/// One stage of the handshake on `first` and `second`.
pub fn digest_text(first: &str, second: &str) -> (text: String)
    ensures
        text@ == stage(first@, second@),
{
    let input = joined_bytes(first, second);
    let digest = sha256_digest(input.as_slice());
    base64_encode(digest.as_slice())
}

/// The credential for `password` under the server's `salt` and `challenge`.
pub fn hash(salt: String, challenge: String, password: String) -> (auth: String)
    ensures
        auth@ == credential(password@, salt@, challenge@),
{
    let secret = digest_text(password.as_str(), salt.as_str());
    digest_text(secret.as_str(), challenge.as_str())
}

/// The key of the member that says whether the server asks for a credential.
pub open spec fn auth_required_key() -> Seq<char> {
    "authRequired"@
}

/// The key of the member that holds the salt.
pub open spec fn salt_key() -> Seq<char> {
    "salt"@
}

/// The key of the member that holds the challenge.
pub open spec fn challenge_key() -> Seq<char> {
    "challenge"@
}

/// The key of the argument that carries the credential.
pub open spec fn auth_key() -> Seq<char> {
    "auth"@
}

/// What the server asks for before it takes requests.
#[derive(Debug)]
pub enum AuthRequirement {
    /// Nothing: the session is ready.
    NotRequired,
    /// The credential for this salt and this challenge.
    Required { salt: String, challenge: String },
}

/// What an `AuthRequirement` stands for.
pub enum AuthRequirementView {
    NotRequired,
    Required { salt: Seq<char>, challenge: Seq<char> },
}

impl View for AuthRequirement {
    type V = AuthRequirementView;

    open spec fn view(&self) -> AuthRequirementView {
        match self {
            AuthRequirement::NotRequired => AuthRequirementView::NotRequired,
            AuthRequirement::Required { salt, challenge } => AuthRequirementView::Required {
                salt: salt@,
                challenge: challenge@,
            },
        }
    }
}

/// What a response asks for whose flag, salt and challenge are as given. Without a flag
/// the response says nothing; with the flag unset nothing is asked for, whatever else the
/// response holds; with the flag set the salt and the challenge must both be strings.
pub open spec fn requirement_of_fields(
    auth_required: Option<bool>,
    salt: FieldView,
    challenge: FieldView,
) -> Option<AuthRequirementView> {
    match auth_required {
        None => None,
        Some(false) => Some(AuthRequirementView::NotRequired),
        Some(true) => match (salt, challenge) {
            (FieldView::Text(salt), FieldView::Text(challenge)) => Some(
                AuthRequirementView::Required { salt, challenge },
            ),
            _ => None,
        },
    }
}

/// The flag of `document` that says whether a credential is asked for, where it is there
/// and is a boolean.
pub open spec fn auth_required_of(document: Value) -> Option<bool> {
    match json_member(document, auth_required_key()) {
        None => None,
        Some(flag) => json_flag(flag),
    }
}

/// What the response `response` to the first request of the handshake asks for, where it
/// can be read.
pub open spec fn requirement_of(response: Seq<char>) -> Option<AuthRequirementView> {
    match json_document(response) {
        None => None,
        Some(document) => requirement_of_fields(
            auth_required_of(document),
            field_of(document, salt_key()),
            field_of(document, challenge_key()),
        ),
    }
}

/// Tells what a response asks for from its flag, its salt and its challenge.
pub fn requirement_from_fields(auth_required: Option<bool>, salt: Field, challenge: Field) -> (requirement:
    Option<AuthRequirement>)
    ensures
        match requirement {
            Some(asked) => requirement_of_fields(auth_required, salt@, challenge@) == Some(asked@),
            None => requirement_of_fields(auth_required, salt@, challenge@) is None,
        },
{
    match auth_required {
        None => None,
        Some(false) => Some(AuthRequirement::NotRequired),
        Some(true) => match salt {
            Field::Text(salt) => match challenge {
                Field::Text(challenge) => Some(AuthRequirement::Required { salt, challenge }),
                _ => None,
            },
            _ => None,
        },
    }
}

/// Reads what the response `response` to the first request of the handshake asks for.
pub fn read_requirement(response: &str) -> (requirement: Option<AuthRequirement>)
    ensures
        match requirement {
            Some(asked) => requirement_of(response@) == Some(asked@),
            None => requirement_of(response@) is None,
        },
{
    match parse_document(response) {
        Err(_) => None,
        Ok(document) => {
            let auth_required = match member(&document, "authRequired") {
                None => None,
                Some(flag) => flag_of(flag),
            };
            let salt = read_field(&document, "salt");
            let challenge = read_field(&document, "challenge");
            requirement_from_fields(auth_required, salt, challenge)
        },
    }
}

/// The arguments of the second request of the handshake: the credential, under its key.
pub open spec fn auth_members(password: Seq<char>, salt: Seq<char>, challenge: Seq<char>) -> Map<
    Seq<char>,
    Value,
> {
    no_members().insert(auth_key(), json_string(credential(password, salt, challenge)))
}

/// What is to be done once the response to the first request of the handshake is there.
#[derive(Debug)]
pub enum AuthStep {
    /// The server asks for nothing: the session is ready.
    Done,
    /// Send the second request of the handshake with these arguments.
    Authenticate { arguments: ObsMessageArguments },
    /// The response could not be read: the session cannot be set up.
    Failed,
}

/// Decides how the handshake goes on for `password` after the response `response` to its
/// first request.
pub fn authenticate(response: &str, password: String) -> (step: AuthStep)
    ensures
        match requirement_of(response@) {
            None => step is Failed,
            Some(AuthRequirementView::NotRequired) => step is Done,
            Some(AuthRequirementView::Required { salt, challenge }) => step matches AuthStep::Authenticate {
                arguments,
            } && object_members(arguments) == auth_members(password@, salt, challenge),
        },
{
    match read_requirement(response) {
        None => AuthStep::Failed,
        Some(AuthRequirement::NotRequired) => AuthStep::Done,
        Some(AuthRequirement::Required { salt, challenge }) => {
            let hashed_secret = hash(salt, challenge, password);
            let mut arguments = empty_object();
            set_member(&mut arguments, "auth".to_owned(), string_value(hashed_secret));
            AuthStep::Authenticate { arguments }
        },
    }
}

/// The key of the member that says how a request went.
pub open spec fn status_key() -> Seq<char> {
    "status"@
}

/// The status with which the server turns a request down.
pub open spec fn error_status() -> Seq<char> {
    "error"@
}

/// Whether a response with the status `status` turns the request down.
pub open spec fn is_error_status(status: FieldView) -> bool {
    status == FieldView::Text(error_status())
}

/// Whether `response` turns the request down: whether it is a JSON object whose status
/// is the string that says so.
pub open spec fn is_error_response(response: Seq<char>) -> bool {
    match json_document(response) {
        None => false,
        Some(document) => is_error_status(field_of(document, status_key())),
    }
}

/// Tells from the status of a response whether it turns the request down.
pub fn status_is_error(status: &Field) -> (rejected: bool)
    ensures
        rejected == is_error_status(status@),
{
    match status {
        Field::Text(text) => {
            let error = "error".to_owned();
            *text == error
        },
        _ => false,
    }
}

/// Whether the response `response` to the second request of the handshake completes the
/// handshake: any response does that does not turn the request down.
pub fn accepted(response: &str) -> (ready: bool)
    ensures
        ready == !is_error_response(response@),
{
    match parse_document(response) {
        Err(_) => true,
        Ok(document) => {
            let status = read_field(&document, "status");
            !status_is_error(&status)
        },
    }
}

} // verus!
