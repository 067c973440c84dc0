//! What is asked of the messaging gateway, and what its answers mean.
//!
//! The digest is sent as a text message to a group, the message is pinned
//! for a week, and the account is set offline. Each step is one request with
//! a JSON object as its payload. This module makes the requests and reads the
//! answers; sending is left to the caller.

use vstd::prelude::*;

verus! {

/// One member of a request's JSON payload.
#[derive(Debug)]
pub struct Field {
    pub name: String,
    pub value: String,
}

/// A request to the gateway: where it goes, the `Authorization` header
/// that it carries, and the members of its JSON payload.
#[derive(Debug)]
pub struct GatewayRequest {
    pub url: String,
    pub authorization: String,
    pub payload: Vec<Field>,
}

/// What a `GatewayRequest` holds, as sequences.
pub ghost struct GatewayRequestView {
    pub url: Seq<char>,
    pub authorization: Seq<char>,
    pub payload: Seq<(Seq<char>, Seq<char>)>,
}

impl View for Field {
    type V = (Seq<char>, Seq<char>);

    open spec fn view(&self) -> (Seq<char>, Seq<char>) {
        (self.name@, self.value@)
    }
}

impl View for GatewayRequest {
    type V = GatewayRequestView;

    open spec fn view(&self) -> GatewayRequestView {
        GatewayRequestView {
            url: self.url@,
            authorization: self.authorization@,
            payload: self.payload@.map_values(|f: Field| f@),
        }
    }
}

/// The gateway's answer to a request: whether the status says success, the
/// status as text, and the body where it could be read.
#[derive(Debug)]
pub struct GatewayResponse {
    pub success: bool,
    pub status: String,
    pub body: Option<String>,
}

/// Why a step of the delivery failed.
#[derive(Debug)]
pub enum DeliveryError {
    /// The gateway answered with a status that is no success. Holds the
    /// report of the failure.
    Rejected(String),
    /// The body of a successful answer could not be read.
    NoBody,
    /// The body of a successful answer is no JSON. Holds what the JSON reader
    /// said of it.
    NotJson(String),
    /// The body of a successful answer names no message.
    NoMessageId,
}

/// The steps of a delivery.
#[derive(Clone, Copy, Debug, PartialEq, Eq, Structural)]
pub enum Step {
    /// The digest is sent.
    Send,
    /// The message is pinned.
    Pin,
    /// The account is set offline.
    Presence,
}

/// What is to be done with the body of an answer.
#[derive(Clone, Copy, Debug, PartialEq, Eq, Structural)]
pub enum BodyUse {
    /// The body is not read.
    Unread,
    /// The body gives the details of a failure; it may be missing.
    Details,
    /// The body is needed; the step fails without it.
    Required,
}

#[verifier::external_type_specification]
#[verifier::external_body]
pub struct ExJsonError(serde_json::Error);

/// The string that a JSON text holds under the member `inner` of its member
/// `outer`, as `serde_json` reads it: `None` where `serde_json::from_str`
/// rejects the text, `Some(None)` where the text holds no such string.
pub uninterp spec fn json_text_at(text: Seq<char>, outer: Seq<char>, inner: Seq<char>) -> Option<
    Option<Seq<char>>,
>;

/// Reads the text with `serde_json::from_str` as a `serde_json::Value`, goes
/// with `Value::get` to the member `outer` and from there to the member
/// `inner`, and takes `Value::as_str` of what is there. The contract claims
/// only that the outcome is fixed by the three texts.
#[verifier::external_body]
pub(crate) fn text_at(text: &str, outer: &str, inner: &str) -> (r: Result<
    Option<String>,
    serde_json::Error,
>)
    ensures
        match r {
            Ok(Some(found)) => json_text_at(text@, outer@, inner@) == Some(Some(found@)),
            Ok(None) => json_text_at(text@, outer@, inner@) == Some(None::<Seq<char>>),
            Err(_) => json_text_at(text@, outer@, inner@).is_none(),
        },
{
    match serde_json::from_str::<serde_json::Value>(text) {
        Ok(value) => Ok(
            value.get(outer).and_then(|m| m.get(inner)).and_then(|id| id.as_str()).map(
                str::to_owned,
            ),
        ),
        Err(e) => Err(e),
    }
}

/// Takes the text of a `serde_json::Error` with `to_string`. Nothing is
/// claimed of the text.
#[verifier::external_body]
pub(crate) fn json_error_text(error: &serde_json::Error) -> (text: String) {
    error.to_string()
}

/// What is to be done with the body of the answer to a step: the answer to
/// the sent digest names the message, so its body is needed; after any step
/// the body of a failure gives the details; no other body is read.
pub open spec fn body_use_for(step: Step, success: bool) -> BodyUse {
    if !success {
        BodyUse::Details
    } else if step == Step::Send {
        BodyUse::Required
    } else {
        BodyUse::Unread
    }
}

/// The `Authorization` header for a token.
pub open spec fn bearer(token: Seq<char>) -> Seq<char> {
    "Bearer "@ + token
}

/// The request that sends `message` to the group `group_id`.
pub open spec fn text_request_for(
    message: Seq<char>,
    token: Seq<char>,
    group_id: Seq<char>,
) -> GatewayRequestView {
    GatewayRequestView {
        url: "https://gate.whapi.cloud/messages/text"@,
        authorization: bearer(token),
        payload: seq![("to"@, group_id), ("body"@, message)],
    }
}

/// The request that pins the message `message_id` for a week.
pub open spec fn pin_request_for(message_id: Seq<char>, token: Seq<char>) -> GatewayRequestView {
    GatewayRequestView {
        url: "https://gate.whapi.cloud/messages/"@ + message_id + "/pin"@,
        authorization: bearer(token),
        payload: seq![("time"@, "week"@)],
    }
}

/// The request that sets the account offline.
pub open spec fn presence_request_for(token: Seq<char>) -> GatewayRequestView {
    GatewayRequestView {
        url: "https://gate.whapi.cloud/users/presence"@,
        authorization: bearer(token),
        payload: seq![("presence"@, "offline"@)],
    }
}

/// The report of a request that the gateway rejected.
pub open spec fn failure_report(what: Seq<char>, status: Seq<char>, details: Seq<char>) -> Seq<
    char,
> {
    what + " Status: "@ + status + ". Details: "@ + details
}

/// The characters of a body, or `default` where there is no body.
pub open spec fn body_or(body: Option<String>, default: Seq<char>) -> Seq<char> {
    match body {
        Some(text) => text@,
        None => default,
    }
}

fn authorization(token: &str) -> (r: String)
    ensures
        r@ == bearer(token@),
{
    let mut r = "Bearer ".to_owned();
    r.append(token);
    r
}

fn one_field(name: &str, value: &str) -> (r: Field)
    ensures
        r@ == (name@, value@),
{
    Field { name: name.to_owned(), value: value.to_owned() }
}

/// Makes the request that sends `message` to the group `group_id`.
pub fn text_request(message: &str, token: &str, group_id: &str) -> (r: GatewayRequest)
    ensures
        r@ == text_request_for(message@, token@, group_id@),
{
    let mut payload: Vec<Field> = Vec::new();
    payload.push(one_field("to", group_id));
    payload.push(one_field("body", message));
    let r = GatewayRequest {
        url: "https://gate.whapi.cloud/messages/text".to_owned(),
        authorization: authorization(token),
        payload,
    };
    assert(r@.payload =~= text_request_for(message@, token@, group_id@).payload);
    r
}

/// Makes the request that pins the message `message_id` for a week.
pub fn pin_request(message_id: &str, token: &str) -> (r: GatewayRequest)
    ensures
        r@ == pin_request_for(message_id@, token@),
{
    let mut url = "https://gate.whapi.cloud/messages/".to_owned();
    url.append(message_id);
    url.append("/pin");
    let mut payload: Vec<Field> = Vec::new();
    payload.push(one_field("time", "week"));
    let r = GatewayRequest { url, authorization: authorization(token), payload };
    assert(r@.payload =~= pin_request_for(message_id@, token@).payload);
    r
}

/// Makes the request that sets the account offline.
pub fn presence_request(token: &str) -> (r: GatewayRequest)
    ensures
        r@ == presence_request_for(token@),
{
    let mut payload: Vec<Field> = Vec::new();
    payload.push(one_field("presence", "offline"));
    let r = GatewayRequest {
        url: "https://gate.whapi.cloud/users/presence".to_owned(),
        authorization: authorization(token),
        payload,
    };
    assert(r@.payload =~= presence_request_for(token@).payload);
    r
}

/// Makes the report of a request that the gateway rejected.
fn report(what: &str, status: &str, details: &str) -> (r: String)
    ensures
        r@ == failure_report(what@, status@, details@),
{
    let mut r = what.to_owned();
    r.append(" Status: ");
    r.append(status);
    r.append(". Details: ");
    r.append(details);
    r
}

/// Reads the answer to a request that wants nothing back: a status of
/// success is all it takes, and any other status is reported with the body
/// as its details, `missing` standing in for a body that could not be read.
fn accepted(response: &GatewayResponse, what: &str, missing: &str) -> (r: Result<
    (),
    DeliveryError,
>)
    ensures
        match r {
            Ok(_) => response.success,
            Err(DeliveryError::Rejected(text)) => !response.success && text@ == failure_report(
                what@,
                response.status@,
                body_or(response.body, missing@),
            ),
            Err(_) => false,
        },
{
    if response.success {
        Ok(())
    } else {
        let details = match &response.body {
            Some(text) => text.as_str(),
            None => missing,
        };
        Err(DeliveryError::Rejected(report(what, response.status.as_str(), details)))
    }
}

/// Says what is to be done with the body of the answer to a step.
pub fn body_use(step: Step, success: bool) -> (r: BodyUse)
    ensures
        r == body_use_for(step, success),
{
    if !success {
        BodyUse::Details
    } else {
        match step {
            Step::Send => BodyUse::Required,
            Step::Pin => BodyUse::Unread,
            Step::Presence => BodyUse::Unread,
        }
    }
}

/// The id of a sent message from what was found in the gateway's answer:
/// `Err` holds what the JSON reader said of an answer that is no JSON, and
/// `Ok(None)` stands for an answer that names no message.
pub fn message_id_found(found: Result<Option<String>, String>) -> (r: Result<
    String,
    DeliveryError,
>)
    ensures
        match r {
            Ok(id) => found == Ok::<Option<String>, String>(Some(id)),
            Err(DeliveryError::NotJson(text)) => found == Err::<Option<String>, String>(text),
            Err(DeliveryError::NoMessageId) => found == Ok::<Option<String>, String>(None),
            Err(_) => false,
        },
{
    match found {
        Ok(Some(id)) => Ok(id),
        Ok(None) => Err(DeliveryError::NoMessageId),
        Err(text) => Err(DeliveryError::NotJson(text)),
    }
}

/// Reads the answer to the request that sent the digest. Returns the id of
/// the message: the string under `id` in the member `message` of the body.
pub fn sent_message_id(response: &GatewayResponse) -> (r: Result<String, DeliveryError>)
    ensures
        match r {
            Ok(id) => response.success && response.body.is_some() && json_text_at(
                response.body.unwrap()@,
                "message"@,
                "id"@,
            ) == Some(Some(id@)),
            Err(DeliveryError::Rejected(text)) => !response.success && text@ == failure_report(
                "Send message failed!"@,
                response.status@,
                body_or(response.body, "No error details provided"@),
            ),
            Err(DeliveryError::NoBody) => response.success && response.body.is_none(),
            Err(DeliveryError::NotJson(_)) => response.success && response.body.is_some()
                && json_text_at(response.body.unwrap()@, "message"@, "id"@).is_none(),
            Err(DeliveryError::NoMessageId) => response.success && response.body.is_some()
                && json_text_at(response.body.unwrap()@, "message"@, "id"@) == Some(
                None::<Seq<char>>,
            ),
        },
{
    match accepted(response, "Send message failed!", "No error details provided") {
        Err(e) => return Err(e),
        Ok(_) => {},
    }
    match &response.body {
        None => Err(DeliveryError::NoBody),
        Some(body) => {
            let found = match text_at(body.as_str(), "message", "id") {
                Ok(found) => Ok(found),
                Err(e) => Err(json_error_text(&e)),
            };
            message_id_found(found)
        },
    }
}

/// Reads the answer to the request that pinned the message.
pub fn pin_outcome(response: &GatewayResponse) -> (r: Result<(), DeliveryError>)
    ensures
        match r {
            Ok(_) => response.success,
            Err(DeliveryError::Rejected(text)) => !response.success && text@ == failure_report(
                "Pin Failed!"@,
                response.status@,
                body_or(response.body, ""@),
            ),
            Err(_) => false,
        },
{
    accepted(response, "Pin Failed!", "")
}

/// Reads the answer to the request that set the account offline.
pub fn presence_outcome(response: &GatewayResponse) -> (r: Result<(), DeliveryError>)
    ensures
        match r {
            Ok(_) => response.success,
            Err(DeliveryError::Rejected(text)) => !response.success && text@ == failure_report(
                "Set to offline failed!"@,
                response.status@,
                body_or(response.body, ""@),
            ),
            Err(_) => false,
        },
{
    accepted(response, "Set to offline failed!", "")
}

impl DeliveryError {
    /// The error in words.
    pub fn describe(&self) -> (r: String)
        ensures
            r@ == match *self {
                DeliveryError::Rejected(text) => text@,
                DeliveryError::NoBody => "The gateway's answer could not be read"@,
                DeliveryError::NotJson(text) => text@,
                DeliveryError::NoMessageId => "Could not parse Message ID from API response"@,
            },
    {
        match self {
            DeliveryError::Rejected(text) => text.clone(),
            DeliveryError::NoBody => "The gateway's answer could not be read".to_owned(),
            DeliveryError::NotJson(text) => text.clone(),
            DeliveryError::NoMessageId => "Could not parse Message ID from API response".to_owned(),
        }
    }
}

} // verus!
