//! The command endpoint's decisions: which device a command goes to, by
//! which path it travels (live socket or push fallback), and what the
//! caller is told for each way the wait can end.

use vstd::prelude::*;
use vstd::string::*;

use crate::model::settle_step;
use crate::protocol::CommandResponse;
use crate::state::{auth_count, AppState};
use crate::strutil::spec_bearer_ok;

verus! {

/// A request-level error, as it reaches the wire.
#[derive(Debug)]
pub enum ApiError {
    BadRequest { message: String },
    NotFound { message: String },
    Internal { message: String },
    BadGateway { message: String },
    GatewayTimeout { message: String },
}

impl ApiError {
    /// The HTTP status this error surfaces as.
    pub fn status_code(&self) -> (r: u16)
        ensures
            r == match self {
                ApiError::BadRequest { .. } => 400u16,
                ApiError::NotFound { .. } => 404u16,
                ApiError::Internal { .. } => 500u16,
                ApiError::BadGateway { .. } => 502u16,
                ApiError::GatewayTimeout { .. } => 504u16,
            },
    {
        match self {
            ApiError::BadRequest { .. } => 400,
            ApiError::NotFound { .. } => 404,
            ApiError::Internal { .. } => 500,
            ApiError::BadGateway { .. } => 502,
            ApiError::GatewayTimeout { .. } => 504,
        }
    }

    /// The human-readable message.
    pub fn message(&self) -> (r: &String)
        ensures
            r@ == match self {
                ApiError::BadRequest { message } => message@,
                ApiError::NotFound { message } => message@,
                ApiError::Internal { message } => message@,
                ApiError::BadGateway { message } => message@,
                ApiError::GatewayTimeout { message } => message@,
            },
    {
        match self {
            ApiError::BadRequest { message } => message,
            ApiError::NotFound { message } => message,
            ApiError::Internal { message } => message,
            ApiError::BadGateway { message } => message,
            ApiError::GatewayTimeout { message } => message,
        }
    }
}

/// Picks the target device for a command: an explicit `device_id` wins;
/// otherwise the unique authenticated connection; otherwise, with nothing
/// connected, the sole registry record (for push fallback). Anything else
/// is ambiguous or empty.
pub fn select_target(st: &AppState, requested: Option<String>) -> (r: Result<String, ApiError>)
    requires
        st.wf(),
    ensures
        requested matches Some(id) ==> (r matches Ok(t) && t@ == id@),
        requested is None && auth_count(st.connections@) == 1 ==> (r matches Ok(t)
            && st@.online(t@)),
        requested is None && auth_count(st.connections@) == 0 && st.devices@.len() == 1 ==> (
        r matches Ok(t) && t@ == st.devices@[0].id@),
        requested is None && auth_count(st.connections@) == 0 && st.devices@.len() != 1 ==> (
        r matches Err(e) && (e matches ApiError::NotFound { message } && message@
            == "No devices connected"@)),
        requested is None && auth_count(st.connections@) > 1 ==> (r matches Err(e) && (e matches
            ApiError::BadRequest { message } && message@
            == "Multiple devices connected, specify --device"@)),
{
    match requested {
        Some(id) => Ok(id),
        None => {
            let (count, found) = st.authenticated_summary();
            if count == 1 {
                match found {
                    Some(id) => Ok(id),
                    None => Err(
                        ApiError::Internal { message: String::from_str("No devices connected") },
                    ),
                }
            } else if count == 0 {
                if st.devices.len() == 1 {
                    Ok(st.devices[0].id.clone())
                } else {
                    Err(ApiError::NotFound { message: String::from_str("No devices connected") })
                }
            } else {
                Err(
                    ApiError::BadRequest {
                        message: String::from_str("Multiple devices connected, specify --device"),
                    },
                )
            }
        },
    }
}

/// How a command reaches its device.
#[derive(Debug)]
pub enum DispatchPlan {
    /// The device holds an authenticated live connection: allocate a
    /// command id, park a reply slot, enqueue, and await the reply.
    Live,
    /// The device is offline but reachable out-of-band: send this push
    /// token an alarm push and answer synthetically.
    Push { push_token: String },
    /// Neither path is open.
    Reject { error: ApiError },
}

/// Decides the path for a command addressed to `device_id`, as the state
/// stands: the live socket when the device is connected and authenticated,
/// else the push fallback when APNs is configured and the device record
/// carries a push token.
pub fn plan_dispatch(st: &AppState, device_id: &String) -> (r: DispatchPlan)
    requires
        st.wf(),
    ensures
        st@.online(device_id@) ==> (r is Live),
        !st@.online(device_id@) && !st@.apns_configured ==> (r matches DispatchPlan::Reject {
            error } && (error matches ApiError::NotFound { message } && message@ == "Device "@
            + device_id@ + " not connected and APNs not configured"@)),
        !st@.online(device_id@) && st@.apns_configured && !st@.registry.dom().contains(
            device_id@,
        ) ==> (r matches DispatchPlan::Reject { error } && (error matches ApiError::NotFound {
            message } && message@ == "Device "@ + device_id@ + " not found"@)),
        !st@.online(device_id@) && st@.apns_configured && st@.registry.dom().contains(device_id@)
            && st@.registry[device_id@].push_token is None ==> (r matches DispatchPlan::Reject {
            error } && (error matches ApiError::BadRequest { message } && message@ == "Device "@
            + device_id@ + " not connected and has no push token registered"@)),
        !st@.online(device_id@) && st@.apns_configured && st@.registry.dom().contains(device_id@)
            && st@.registry[device_id@].push_token is Some ==> (r matches DispatchPlan::Push {
            push_token } && Some(push_token@) == st@.registry[device_id@].push_token),
{
    if st.is_online(device_id) {
        return DispatchPlan::Live;
    }
    if !st.apns_configured {
        let mut m = String::from_str("Device ");
        m.append(device_id.as_str());
        m.append(" not connected and APNs not configured");
        return DispatchPlan::Reject { error: ApiError::NotFound { message: m } };
    }
    proof {
        crate::state::lemma_reg_map(st.devices@);
    }
    match st.find_device(device_id) {
        None => {
            let mut m = String::from_str("Device ");
            m.append(device_id.as_str());
            m.append(" not found");
            DispatchPlan::Reject { error: ApiError::NotFound { message: m } }
        },
        Some(i) => {
            match st.devices[i].push_token {
                Some(ref t) => DispatchPlan::Push { push_token: t.clone() },
                None => {
                    let mut m = String::from_str("Device ");
                    m.append(device_id.as_str());
                    m.append(" not connected and has no push token registered");
                    DispatchPlan::Reject { error: ApiError::BadRequest { message: m } }
                },
            }
        },
    }
}

/// How the wait on a live dispatch's reply slot ended.
#[derive(Debug)]
pub enum WaitOutcome {
    /// The device answered in time.
    Replied { response: CommandResponse },
    /// The reply slot was dropped without an answer.
    SlotClosed,
    /// Thirty seconds passed without an answer.
    TimedOut,
}

/// Settles the pending command and turns the wait's outcome into the
/// caller's answer: the device's response verbatim, or the timeout or
/// channel error.
pub fn finish_live_dispatch(st: &mut AppState, cmd_id: &String, outcome: WaitOutcome) -> (r:
    Result<CommandResponse, ApiError>)
    requires
        old(st).wf(),
    ensures
        final(st).wf(),
        final(st)@ == settle_step(old(st)@, cmd_id@),
        outcome matches WaitOutcome::Replied { response } ==> (r matches Ok(resp) && resp@
            == response@),
        (outcome is SlotClosed) ==> (r matches Err(e) && (e matches ApiError::Internal { message
            } && message@ == "Response channel closed"@)),
        (outcome is TimedOut) ==> (r matches Err(e) && (e matches ApiError::GatewayTimeout {
            message } && message@ == "Device did not respond in time"@)),
{
    st.settle_command(cmd_id);
    match outcome {
        WaitOutcome::Replied { response } => Ok(response),
        WaitOutcome::SlotClosed => Err(
            ApiError::Internal { message: String::from_str("Response channel closed") },
        ),
        WaitOutcome::TimedOut => Err(
            ApiError::GatewayTimeout { message: String::from_str("Device did not respond in time") },
        ),
    }
}

/// The synthetic answer of the push path: the command was accepted for
/// out-of-band delivery, and produced no device reply.
pub fn push_fallback_response(cmd_id: String) -> (r: CommandResponse)
    ensures
        r.id@ == cmd_id@,
        r.status@ == "ok"@,
        r@.data == Some("{\"delivered_via\":\"apns\"}"@),
        r@.error is None,
        r@.error_code is None,
{
    CommandResponse {
        id: cmd_id,
        status: String::from_str("ok"),
        data: Some(String::from_str("{\"delivered_via\":\"apns\"}")),
        error: None,
        error_code: None,
    }
}

/// A push transport failure, surfaced as a gateway error.
pub fn push_failure(message: String) -> (r: ApiError)
    ensures
        r matches ApiError::BadGateway { message: m } && m@ == message@,
{
    ApiError::BadGateway { message: message }
}

/// Whether an HTTP request's authorization header grants access.
pub fn request_authorized(st: &AppState, header: Option<&String>) -> (r: bool)
    ensures
        r == match header {
            Some(h) => spec_bearer_ok(h@, st.api_key@),
            None => false,
        },
{
    match header {
        Some(h) => crate::strutil::check_bearer(h.as_str(), &st.api_key),
        None => false,
    }
}

/// The query parameters of a client socket subscription.
#[derive(Debug)]
pub struct WsClientParams {
    pub token: String,
}

/// Whether a client socket's `token` query parameter grants the event
/// subscription.
pub fn client_socket_allowed(params: &WsClientParams, st: &AppState) -> (r: bool)
    ensures
        r == (params.token@ == st.api_key@),
{
    params.token == st.api_key
}

} // verus!
