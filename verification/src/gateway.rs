//! The outbound call gateway's vocabulary: the one shape of request that goes
//! to the controller, and what comes back from a single exchange.
//!
//! The exchange itself is made by the host on behalf of the canister; nothing
//! here performs it. A request is built here, handed out, and the reply or the
//! transport failure is handed back in.

use crate::json::{json_quote, json_string};
use crate::text::decimal;
use num_traits::cast::ToPrimitive;
use vstd::prelude::*;
use vstd::string::*;
use vstd::utf8::*;

verus! {

/// Base address of the controller that creates and destroys containers.
pub const CONTROLLER_BASE_URL: &'static str = "https://e2bd84efdf04.ngrok-free.app";

/// Ceiling on the size of a reply, in bytes.
pub const MAX_RESPONSE_BYTES: u64 = 2000;

/// The status that means the controller did what was asked.
pub const STATUS_OK: u64 = 200;

/// HTTP method of an outbound request.
#[derive(Clone, Copy, Debug, PartialEq, Eq, Structural)]
pub enum HttpMethod {
    Get,
    Post,
    Head,
}

/// One header of an outbound request.
#[derive(Clone, Debug, PartialEq, Eq)]
pub struct HttpHeader {
    pub name: String,
    pub value: String,
}

/// A single HTTP exchange to be made against the controller.
#[derive(Clone, Debug, PartialEq, Eq)]
pub struct OutboundRequest {
    pub url: String,
    pub method: HttpMethod,
    pub headers: Vec<HttpHeader>,
    pub body: Vec<u8>,
    pub max_response_bytes: u64,
}

/// A header as a pair of texts.
pub struct HeaderModel {
    pub name: Seq<char>,
    pub value: Seq<char>,
}

impl View for HttpHeader {
    type V = HeaderModel;

    open spec fn view(&self) -> HeaderModel {
        HeaderModel { name: self.name@, value: self.value@ }
    }
}

/// A request as plain mathematical values.
pub struct RequestModel {
    pub url: Seq<char>,
    pub method: HttpMethod,
    pub headers: Seq<HeaderModel>,
    pub body: Seq<u8>,
    pub max_response_bytes: u64,
}

impl View for OutboundRequest {
    type V = RequestModel;

    open spec fn view(&self) -> RequestModel {
        RequestModel {
            url: self.url@,
            method: self.method,
            headers: Seq::new(self.headers@.len(), |i: int| self.headers@[i]@),
            body: self.body@,
            max_response_bytes: self.max_response_bytes,
        }
    }
}

#[verifier::external_type_specification]
#[verifier::external_body]
pub struct ExNat(candid::Nat);

/// The natural number that a `candid::Nat` holds.
pub uninterp spec fn nat_value(n: candid::Nat) -> nat;

/// What the controller answered: the numeric status and the raw body.
#[derive(Debug, PartialEq, Eq)]
pub struct GatewayReply {
    pub status: candid::Nat,
    pub body: Vec<u8>,
}

/// A failure below HTTP: the host could not deliver the request or the reply.
#[derive(Clone, Debug, PartialEq, Eq)]
pub struct TransportError {
    pub diagnostic: String,
}

/// `ToPrimitive::to_u64` of num-traits on the big integer inside a
/// `candid::Nat`: the number itself where it fits in 64 bits, nothing where
/// it does not.
#[verifier::external_body]
fn nat_to_u64(n: &candid::Nat) -> (small: Option<u64>)
    ensures
        small == (if nat_value(*n) <= u64::MAX {
            Some(nat_value(*n) as u64)
        } else {
            None
        }),
{
    n.0.to_u64()
}

/// Digits in groups of three, counted from the right, with an underscore
/// between two groups.
pub open spec fn grouped(digits: Seq<char>) -> Seq<char>
    decreases digits.len(),
{
    if digits.len() <= 3 {
        digits
    } else {
        grouped(digits.take(digits.len() - 3)) + seq!['_'] + digits.skip(digits.len() - 3)
    }
}

/// The text that `candid::Nat` prints for a number: its decimal digits in
/// groups of three.
pub open spec fn nat_display(value: nat) -> Seq<char> {
    grouped(decimal(value))
}

/// `Display` of `candid::Nat`, through `to_string`: the number in decimal,
/// its digits in groups of three with underscores between them.
#[verifier::external_body]
pub(crate) fn nat_text(n: &candid::Nat) -> (text: String)
    ensures
        text@ == nat_display(nat_value(*n)),
{
    n.to_string()
}

/// The status as the lifecycle rules read it: the number itself, or 0 where
/// it is too large for 64 bits.
pub open spec fn status_code_of(value: nat) -> u64 {
    if value <= u64::MAX {
        value as u64
    } else {
        0
    }
}

/// Reads the numeric status of a reply.
pub fn status_code(status: &candid::Nat) -> (code: u64)
    ensures
        code == status_code_of(nat_value(*status)),
{
    match nat_to_u64(status) {
        Some(code) => code,
        None => 0,
    }
}

/// Body of the request that asks for a container for `user_id`: the JSON
/// object with the fixed project and the user id, each as a JSON string.
pub open spec fn start_payload_text(user_id: Seq<char>) -> Seq<char> {
    "{\"project_id\":\"test_project\",\"user_id\":"@ + json_string(user_id) + "}"@
}

/// Body of the request that asks for `container_id` to be destroyed: the
/// JSON object with the container id as a JSON string.
pub open spec fn stop_payload_text(container_id: Seq<char>) -> Seq<char> {
    "{\"container_id\":"@ + json_string(container_id) + "}"@
}

/// The one shape of request this system sends: a POST of a JSON text, with a
/// single content-type header and the fixed ceiling on the reply.
pub open spec fn json_post(url: Seq<char>, payload: Seq<char>) -> RequestModel {
    RequestModel {
        url,
        method: HttpMethod::Post,
        headers: seq![HeaderModel { name: "Content-Type"@, value: "application/json"@ }],
        body: encode_utf8(payload),
        max_response_bytes: MAX_RESPONSE_BYTES,
    }
}

/// The request that starts a session for `user_id`.
pub open spec fn start_request_model(user_id: Seq<char>) -> RequestModel {
    json_post(CONTROLLER_BASE_URL@ + "/start"@, start_payload_text(user_id))
}

/// The request that stops the container `container_id`.
pub open spec fn stop_request_model(container_id: Seq<char>) -> RequestModel {
    json_post(CONTROLLER_BASE_URL@ + "/stop"@, stop_payload_text(container_id))
}

/// Writes the body of a start request. The user id may be any text: it is
/// written as a JSON string.
pub fn start_payload(user_id: &str) -> (payload: String)
    ensures
        payload@ == start_payload_text(user_id@),
{
    let mut payload = String::from_str("{\"project_id\":\"test_project\",\"user_id\":");
    let quoted = json_quote(user_id);
    payload.append(quoted.as_str());
    payload.append("}");
    payload
}

/// Writes the body of a stop request. The container id may be any text: it
/// is written as a JSON string.
pub fn stop_payload(container_id: &str) -> (payload: String)
    ensures
        payload@ == stop_payload_text(container_id@),
{
    let mut payload = String::from_str("{\"container_id\":");
    let quoted = json_quote(container_id);
    payload.append(quoted.as_str());
    payload.append("}");
    payload
}

/// Wraps a JSON text into the request that carries it to `url`.
pub fn post_json(url: String, payload: &str) -> (request: OutboundRequest)
    ensures
        request@ == json_post(url@, payload@),
{
    let header = HttpHeader {
        name: String::from_str("Content-Type"),
        value: String::from_str("application/json"),
    };
    let mut headers: Vec<HttpHeader> = Vec::new();
    headers.push(header);
    let request = OutboundRequest {
        url,
        method: HttpMethod::Post,
        headers,
        body: payload.as_bytes_vec(),
        max_response_bytes: MAX_RESPONSE_BYTES,
    };
    assert(request@.headers =~= json_post(url@, payload@).headers);
    request
}

/// Builds the request that asks the controller to start a session.
pub fn start_request(user_id: &str) -> (request: OutboundRequest)
    ensures
        request@ == start_request_model(user_id@),
{
    let mut url = String::from_str(CONTROLLER_BASE_URL);
    url.append("/start");
    let payload = start_payload(user_id);
    post_json(url, payload.as_str())
}

/// Builds the request that asks the controller to stop a container.
pub fn stop_request(container_id: &str) -> (request: OutboundRequest)
    ensures
        request@ == stop_request_model(container_id@),
{
    let mut url = String::from_str(CONTROLLER_BASE_URL);
    url.append("/stop");
    let payload = stop_payload(container_id);
    post_json(url, payload.as_str())
}

} // verus!
