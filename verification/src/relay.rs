//! The relay front's decisions: push-token validation and the rate-limit
//! gate, ahead of the forward to APNs.

use vstd::prelude::*;
use vstd::string::*;

use crate::ratelimit::{rl_allowed, rl_next, RateLimiter};
use crate::strutil::{is_valid_device_token, spec_valid_device_token};

verus! {

/// The body of a relay push request.
#[derive(Debug)]
pub struct PushRequest {
    pub device_token: String,
    pub title: String,
    pub body: String,
    pub sound: String,
}

/// The body of a relay VoIP push request.
#[derive(Debug)]
pub struct VoipRequest {
    pub voip_token: String,
    pub push_type: String,
    pub sound: Option<String>,
    pub message: Option<String>,
}

/// The relay's answer.
#[derive(Debug)]
pub struct RelayResponse {
    pub status: String,
    pub error: Option<String>,
}

/// The sound a push request falls back to when none is named.
pub fn default_sound() -> (r: String)
    ensures
        r@ == "default"@,
{
    String::from_str("default")
}

/// What the relay does with a request.
#[derive(Debug)]
pub enum RelayDecision {
    /// Token valid and within its hourly budget: forward to APNs.
    Forward,
    /// The token is not 64 lowercase hexadecimal characters.
    InvalidToken,
    /// The token used up its hourly budget.
    RateLimited,
}

impl RelayDecision {
    /// The HTTP status of a refusal, or 200 for a forward (the forward's
    /// own outcome then decides between 200 and 502).
    pub fn status_code(&self) -> (r: u16)
        ensures
            r == match self {
                RelayDecision::Forward => 200u16,
                RelayDecision::InvalidToken => 400u16,
                RelayDecision::RateLimited => 429u16,
            },
    {
        match self {
            RelayDecision::Forward => 200,
            RelayDecision::InvalidToken => 400,
            RelayDecision::RateLimited => 429,
        }
    }
}

/// Gates one relay request: the token must be exactly 64 lowercase
/// hexadecimal characters, and within its hourly budget. Only a request
/// with a valid token consumes budget.
pub fn gate_relay_request(rl: &mut RateLimiter, token: &String, now: u64) -> (r: RelayDecision)
    requires
        old(rl).wf(),
    ensures
        final(rl).wf(),
        final(rl).max_per_hour == old(rl).max_per_hour,
        !spec_valid_device_token(token@) ==> (r is InvalidToken) && final(rl)@ == old(rl)@,
        spec_valid_device_token(token@) && rl_allowed(old(rl)@, old(rl).max_per_hour, token@, now)
            ==> (r is Forward) && final(rl)@ == rl_next(
            old(rl)@,
            old(rl).max_per_hour,
            token@,
            now,
        ),
        spec_valid_device_token(token@) && !rl_allowed(old(rl)@, old(rl).max_per_hour, token@, now)
            ==> (r is RateLimited) && final(rl)@ == rl_next(
            old(rl)@,
            old(rl).max_per_hour,
            token@,
            now,
        ),
{
    if !is_valid_device_token(token.as_str()) {
        return RelayDecision::InvalidToken;
    }
    if rl.check(token, now) {
        RelayDecision::Forward
    } else {
        RelayDecision::RateLimited
    }
}

/// The relay's success answer.
pub fn relay_ok() -> (r: RelayResponse)
    ensures
        r.status@ == "ok"@,
        r@.error is None,
{
    RelayResponse { status: String::from_str("ok"), error: None }
}

/// The relay's error answer.
pub fn relay_error(message: String) -> (r: RelayResponse)
    ensures
        r.status@ == "error"@,
        r@.error matches Some(e) && e == message@,
{
    RelayResponse { status: String::from_str("error"), error: Some(message) }
}

/// Ghost mirror of `RelayResponse`.
pub struct RelayResponseModel {
    pub status: Seq<char>,
    pub error: Option<Seq<char>>,
}

impl View for RelayResponse {
    type V = RelayResponseModel;

    open spec fn view(&self) -> RelayResponseModel {
        RelayResponseModel {
            status: self.status@,
            error: match self.error {
                Some(ref e) => Some(e@),
                None => None,
            },
        }
    }
}

} // verus!
