//! The decisions of the WebSocket connection: its health from the ping and
//! pong times, the checks before authenticating, the reading of the
//! authentication reply, and when reconnecting stops.

use crate::clock::{elapsed_micros, instant_now};
use crate::error::ConnectionError;
use crate::parser::{as_text, field, json_of, parse_json_text, JsonValue};
use crate::auth::{base64_encoded, encode_base64};
use crate::json_text::{json_quoted, member_text, push_member, quote};
use crate::middleware::{is_hyphenated_uuid, new_request_id};
use crate::text::{decimal, lemma_prefix_of_concat, u64_to_decimal};
use vstd::string::StrSliceExecFns;
use vstd::utf8::encode_utf8;
use std::time::Instant;
use vstd::prelude::*;

verus! {

broadcast use vstd::string::group_string_axioms;

/// A minute in microseconds.
pub open spec fn minute_micros() -> u64 {
    60_000_000
}

/// Health from the last ping and pong (microseconds since the monitor
/// started) at `now`: no ping yet is healthy; a ping needs a pong at or
/// after it, and the ping must be less than a minute old.
pub open spec fn health_of(ping: Option<u64>, pong: Option<u64>, now: u64) -> bool {
    match (ping, pong) {
        (Some(p), Some(q)) => q >= p && now >= p && now - p < minute_micros(),
        (None, None) => true,
        _ => false,
    }
}

/// Whether the connection is healthy at a given time.
pub fn health_at(ping: Option<u64>, pong: Option<u64>, now: u64) -> (b: bool)
    ensures
        b == health_of(ping, pong, now),
{
    match (ping, pong) {
        (Some(p), Some(q)) => q >= p && now >= p && now - p < 60_000_000,
        (None, None) => true,
        _ => false,
    }
}

/// The times of the last ping sent and pong received.
#[derive(Debug)]
pub struct PingMonitor {
    start: Instant,
    last_ping: Option<u64>,
    last_pong: Option<u64>,
}

impl PingMonitor {
    /// The last ping, microseconds since the monitor started.
    pub closed spec fn ping(&self) -> Option<u64> {
        self.last_ping
    }

    /// The last pong, microseconds since the monitor started.
    pub closed spec fn pong(&self) -> Option<u64> {
        self.last_pong
    }

    /// No ping or pong yet.
    pub fn new() -> (m: Self)
        ensures
            m.ping() is None,
            m.pong() is None,
    {
        PingMonitor { start: instant_now(), last_ping: None, last_pong: None }
    }

    /// Notes a ping sent now.
    pub fn update_ping(&mut self)
        ensures
            final(self).ping() is Some,
            final(self).pong() == old(self).pong(),
    {
        self.last_ping = Some(elapsed_micros(&self.start));
    }

    /// Notes a pong received now.
    pub fn update_pong(&mut self)
        ensures
            final(self).pong() is Some,
            final(self).ping() == old(self).ping(),
    {
        self.last_pong = Some(elapsed_micros(&self.start));
    }

    /// Whether the connection is healthy now: healthy at some time.
    pub fn is_healthy(&self) -> (b: bool)
        ensures
            exists|now: u64| b == health_of(self.ping(), self.pong(), now),
    {
        let now = elapsed_micros(&self.start);
        health_at(self.last_ping, self.last_pong, now)
    }
}

/// Checks that credentials are given before authenticating.
pub fn check_credentials(api_key: &str, api_secret: &str) -> (r: Result<(), ConnectionError>)
    ensures
        (api_key@.len() == 0 || api_secret@.len() == 0) <==> (r matches Err(ConnectionError::AuthenticationFailed(m))
            && m@ == "API key and secret are required for authentication"@),
        (api_key@.len() > 0 && api_secret@.len() > 0) <==> r is Ok,
{
    if api_key.unicode_len() == 0 || api_secret.unicode_len() == 0 {
        return Err(ConnectionError::AuthenticationFailed("API key and secret are required for authentication".to_string()));
    }
    Ok(())
}

/// The JSON text of an authentication token's contents: the API key and
/// the nonce in decimal.
pub open spec fn token_json(api_key: Seq<char>, nonce: u64) -> Seq<char> {
    "{"@ + member_text("api_key"@, json_quoted(api_key)) + ","@ + member_text("nonce"@, json_quoted(decimal(nonce as nat)))
        + "}"@
}

/// The authentication token: the Base64 form of the token's JSON text.
pub open spec fn auth_token(api_key: Seq<char>, nonce: u64) -> Seq<char> {
    base64_encoded(encode_utf8(token_json(api_key, nonce)))
}

/// The JSON text of the message that subscribes to own trades with a token,
/// its members in key order.
pub open spec fn auth_message_text(api_key: Seq<char>, nonce: u64, reqid: Seq<char>) -> Seq<char> {
    "{"@ + member_text("event"@, json_quoted("subscribe"@)) + ","@ + member_text("reqid"@, json_quoted(reqid)) + ","@
        + member_text(
        "subscription"@,
        "{"@ + member_text("name"@, json_quoted("ownTrades"@)) + ","@ + member_text(
            "token"@,
            json_quoted(auth_token(api_key, nonce)),
        ) + "}"@,
    ) + "}"@
}

/// The message that subscribes to own trades with the token for a key and
/// nonce (milliseconds since the epoch), under a request id; the key and
/// secret must both be given.
pub fn auth_message(api_key: &str, api_secret: &str, nonce: u64, reqid: &str) -> (r: Result<String, ConnectionError>)
    ensures
        (api_key@.len() == 0 || api_secret@.len() == 0) ==> (r matches Err(ConnectionError::AuthenticationFailed(m))
            && m@ == "API key and secret are required for authentication"@),
        (api_key@.len() > 0 && api_secret@.len() > 0) ==> (r matches Ok(t) && t@ == auth_message_text(
            api_key@,
            nonce,
            reqid@,
        )),
{
    match check_credentials(api_key, api_secret) {
        Err(e) => return Err(e),
        Ok(()) => {},
    }
    let mut token_text = "{".to_string();
    let key = quote(api_key);
    push_member(&mut token_text, "api_key", key.as_str());
    token_text.append(",");
    let nonce_text = quote(u64_to_decimal(nonce).as_str());
    push_member(&mut token_text, "nonce", nonce_text.as_str());
    token_text.append("}");
    proof {
        reveal_strlit("{");
        reveal_strlit(",");
        reveal_strlit("}");
        reveal_strlit("api_key");
        reveal_strlit("nonce");
    }
    assert(token_text@ =~= token_json(api_key@, nonce));
    let bytes = token_text.as_str().as_bytes_vec();
    let token = encode_base64(bytes.as_slice());
    let mut sub = "{".to_string();
    push_member(&mut sub, "name", quote("ownTrades").as_str());
    sub.append(",");
    push_member(&mut sub, "token", quote(token.as_str()).as_str());
    sub.append("}");
    let mut out = "{".to_string();
    push_member(&mut out, "event", quote("subscribe").as_str());
    out.append(",");
    push_member(&mut out, "reqid", quote(reqid).as_str());
    out.append(",");
    push_member(&mut out, "subscription", sub.as_str());
    out.append("}");
    proof {
        reveal_strlit("name");
        reveal_strlit("ownTrades");
        reveal_strlit("token");
        reveal_strlit("event");
        reveal_strlit("subscribe");
        reveal_strlit("reqid");
        reveal_strlit("subscription");
    }
    assert(out@ =~= auth_message_text(api_key@, nonce, reqid@));
    Ok(out)
}

/// The authentication message for a key and nonce, under a fresh request id.
pub fn authenticate(api_key: &str, api_secret: &str, nonce: u64) -> (r: Result<String, ConnectionError>)
    ensures
        (api_key@.len() == 0 || api_secret@.len() == 0) ==> (r matches Err(ConnectionError::AuthenticationFailed(m))
            && m@ == "API key and secret are required for authentication"@),
        (api_key@.len() > 0 && api_secret@.len() > 0) ==> (r matches Ok(t) && exists|id: Seq<char>|
            is_hyphenated_uuid(id) && t@ == #[trigger] auth_message_text(api_key@, nonce, id)),
{
    let reqid = new_request_id();
    auth_message(api_key, api_secret, nonce, reqid.as_str())
}

/// The text of the member `key` of a value, if it is a string.
pub open spec fn member_text_of(v: JsonValue, key: Seq<char>) -> Option<Seq<char>> {
    match field(v, key) {
        Some(x) => as_text(x),
        None => None,
    }
}

/// Whether `r` is what the JSON value of a reply to authentication gives:
/// `true` when subscribed, an error with the reply's message (or a default
/// one) when the status is an error, `false` otherwise.
pub open spec fn auth_reply(v: JsonValue, r: Result<bool, ConnectionError>) -> bool {
    if member_text_of(v, "event"@) == Some("subscriptionStatus"@) && member_text_of(v, "status"@) == Some(
        "subscribed"@,
    ) {
        r matches Ok(true)
    } else if member_text_of(v, "event"@) == Some("subscriptionStatus"@) && member_text_of(v, "status"@) == Some(
        "error"@,
    ) {
        r matches Err(ConnectionError::AuthenticationFailed(m)) && m@ == (match member_text_of(v, "errorMessage"@) {
            Some(t) => t,
            None => "Authentication failed"@,
        })
    } else {
        r matches Ok(false)
    }
}

/// Reads the reply to authentication (`Err` with the parser's reason when
/// it is not JSON): `true` when subscribed, an error when the status is an
/// error, `false` otherwise.
pub fn validate_auth_response(response: Result<&JsonValue, String>) -> (r: Result<bool, ConnectionError>)
    ensures
        match response {
            Err(reason) => r matches Err(ConnectionError::AuthenticationFailed(m)) && m@ == "Invalid auth response: "@
                + reason@,
            Ok(v) => auth_reply(*v, r),
        },
{
    let v = match response {
        Err(reason) => {
            let mut m = "Invalid auth response: ".to_string();
            m.append(reason.as_str());
            return Err(ConnectionError::AuthenticationFailed(m));
        },
        Ok(v) => v,
    };
    proof {
        reveal_strlit("subscribed");
        reveal_strlit("error");
        assert("subscribed"@.len() != "error"@.len());
    }
    let event = match v.get("event") {
        Some(e) => e.as_str(),
        None => None,
    };
    if let Some(e) = event {
        if e.to_string() == "subscriptionStatus".to_string() {
            let status = match v.get("status") {
                Some(s) => s.as_str(),
                None => None,
            };
            if let Some(s) = status {
                if s.to_string() == "subscribed".to_string() {
                    return Ok(true);
                }
                if s.to_string() == "error".to_string() {
                    let m = match v.get("errorMessage") {
                        Some(x) => match x.as_str() {
                            Some(t) => t.to_string(),
                            None => "Authentication failed".to_string(),
                        },
                        None => "Authentication failed".to_string(),
                    };
                    return Err(ConnectionError::AuthenticationFailed(m));
                }
            }
        }
    }
    Ok(false)
}

/// Reads the reply to authentication given as text.
pub fn validate_auth_response_text(response: &str) -> (r: Result<bool, ConnectionError>)
    ensures
        match json_of(response@) {
            Some(v) => auth_reply(v, r),
            None => r matches Err(ConnectionError::AuthenticationFailed(m)) && "Invalid auth response: "@.is_prefix_of(
                m@,
            ),
        },
{
    match parse_json_text(response) {
        Ok(v) => validate_auth_response(Ok(&v)),
        Err(reason) => {
            proof {
                lemma_prefix_of_concat("Invalid auth response: "@, reason@);
            }
            validate_auth_response(Err(reason))
        },
    }
}

/// Whether reconnecting goes on after an attempt that failed with an
/// error: it stops on an authentication failure.
pub fn retry_after(error: &ConnectionError) -> (b: bool)
    ensures
        b == !(error is AuthenticationFailed),
{
    match error {
        ConnectionError::AuthenticationFailed(_) => false,
        _ => true,
    }
}

/// The next step of reconnecting.
#[derive(Debug)]
pub enum ReconnectStep {
    /// Make the attempt with this number (counting from one), after the
    /// backoff delay when `wait` is set
    Attempt { attempt: u32, wait: bool },
    /// Stop with this error; the connection has failed
    GiveUp(ConnectionError),
}

/// Whether `r` is the error that ends reconnecting once the attempts are used up.
pub open spec fn attempts_exhausted(r: ReconnectStep) -> bool {
    r matches ReconnectStep::GiveUp(ConnectionError::EstablishmentFailed(m)) && m@ == "All reconnection attempts failed"@
}

/// The first step of reconnecting: the first attempt, without waiting,
/// when any attempt is allowed.
pub fn first_reconnect_step(max_attempts: u32) -> (r: ReconnectStep)
    ensures
        max_attempts >= 1 ==> r matches ReconnectStep::Attempt { attempt: 1, wait: false },
        max_attempts == 0 ==> attempts_exhausted(r),
{
    if max_attempts >= 1 {
        ReconnectStep::Attempt { attempt: 1, wait: false }
    } else {
        ReconnectStep::GiveUp(ConnectionError::EstablishmentFailed("All reconnection attempts failed".to_string()))
    }
}

/// Whether `r` is the step after attempt `attempt` failed with `error`.
pub open spec fn step_after_failure(attempt: u32, max_attempts: u32, error: ConnectionError, r: ReconnectStep) -> bool {
    &&& error is AuthenticationFailed ==> r == ReconnectStep::GiveUp(error)
    &&& !(error is AuthenticationFailed) && attempt < max_attempts ==> r == (ReconnectStep::Attempt {
        attempt: (attempt + 1) as u32,
        wait: true,
    })
    &&& !(error is AuthenticationFailed) && attempt >= max_attempts ==> attempts_exhausted(r)
}

/// Reconnecting counts its attempts one by one and never goes past
/// `max_attempts`: after a failed attempt within the limit, the next attempt
/// is the following number, still within the limit, made after waiting.
pub proof fn law_attempts_stay_within_limit(attempt: u32, max_attempts: u32, error: ConnectionError, r: ReconnectStep)
    requires
        1 <= attempt <= max_attempts,
        step_after_failure(attempt, max_attempts, error, r),
    ensures
        r matches ReconnectStep::Attempt { attempt: n, wait } ==> n == attempt + 1 && n <= max_attempts && wait,
{
}

/// The step after attempt `attempt` failed with `error`: an authentication
/// failure stops reconnecting with that error; otherwise the next attempt
/// follows after the backoff delay, until `max_attempts` have been made.
pub fn reconnect_step(attempt: u32, max_attempts: u32, error: ConnectionError) -> (r: ReconnectStep)
    ensures
        step_after_failure(attempt, max_attempts, error, r),
{
    if !retry_after(&error) {
        ReconnectStep::GiveUp(error)
    } else if attempt < max_attempts {
        ReconnectStep::Attempt { attempt: attempt + 1, wait: true }
    } else {
        ReconnectStep::GiveUp(ConnectionError::EstablishmentFailed("All reconnection attempts failed".to_string()))
    }
}

} // verus!
