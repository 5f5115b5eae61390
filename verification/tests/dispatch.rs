use omcli::dispatch::{
    client_socket_allowed, finish_live_dispatch, plan_dispatch, push_fallback_response,
    push_failure, request_authorized, select_target, ApiError, DispatchPlan, WaitOutcome,
    WsClientParams,
};
use omcli::protocol::{CommandResponse, Device, ServerMessage};
use omcli::state::{AppState, AuthOutcome};

fn hex_token() -> String {
    "aa".repeat(32)
}

fn known_device(push_token: Option<String>) -> Device {
    Device {
        id: String::from("d1"),
        name: String::from("Phone"),
        token: String::from("tok-1"),
        paired_at: 1000,
        push_token,
        voip_token: None,
    }
}

fn authenticate(st: &mut AppState, id: &str, token: &str, queue: u64) {
    let msg = st.on_hello(String::from(id), String::from(id), queue);
    assert!(matches!(msg, ServerMessage::AuthRequired));
    match st.on_auth(String::from(id), String::from(token)) {
        AuthOutcome::Accepted { .. } => {}
        _ => panic!("auth should be accepted"),
    }
}

#[test]
fn explicit_device_id_wins() {
    let st = AppState::new(String::from("key"), Vec::new(), false);
    let target = select_target(&st, Some(String::from("d9"))).unwrap();
    assert_eq!(target, "d9");
}

#[test]
fn single_authenticated_connection_is_selected() {
    let mut st = AppState::new(String::from("key"), vec![known_device(None)], false);
    authenticate(&mut st, "d1", "tok-1", 1);
    let target = select_target(&st, None).unwrap();
    assert_eq!(target, "d1");
}

#[test]
fn sole_registry_device_is_selected_for_fallback() {
    let st = AppState::new(String::from("key"), vec![known_device(None)], false);
    let target = select_target(&st, None).unwrap();
    assert_eq!(target, "d1");
}

#[test]
fn no_devices_is_not_found() {
    let st = AppState::new(String::from("key"), Vec::new(), false);
    let err = select_target(&st, None).unwrap_err();
    assert_eq!(err.status_code(), 404);
    assert_eq!(err.message(), "No devices connected");
}

#[test]
fn two_connected_devices_are_ambiguous() {
    let mut st = AppState::new(
        String::from("key"),
        vec![
            known_device(None),
            Device {
                id: String::from("d2"),
                name: String::from("Tablet"),
                token: String::from("tok-2"),
                paired_at: 1000,
                push_token: None,
                voip_token: None,
            },
        ],
        false,
    );
    authenticate(&mut st, "d1", "tok-1", 1);
    authenticate(&mut st, "d2", "tok-2", 2);
    let err = select_target(&st, None).unwrap_err();
    assert_eq!(err.status_code(), 400);
    assert_eq!(err.message(), "Multiple devices connected, specify --device");
}

#[test]
fn online_device_takes_the_live_path() {
    let mut st = AppState::new(String::from("key"), vec![known_device(None)], true);
    authenticate(&mut st, "d1", "tok-1", 1);
    assert!(matches!(plan_dispatch(&st, &String::from("d1")), DispatchPlan::Live));
}

#[test]
fn offline_with_push_token_and_apns_goes_by_push() {
    let st = AppState::new(String::from("key"), vec![known_device(Some(hex_token()))], true);
    match plan_dispatch(&st, &String::from("d1")) {
        DispatchPlan::Push { push_token } => assert_eq!(push_token, hex_token()),
        _ => panic!("expected the push path"),
    }
}

#[test]
fn offline_without_push_token_is_bad_request() {
    let st = AppState::new(String::from("key"), vec![known_device(None)], true);
    match plan_dispatch(&st, &String::from("d1")) {
        DispatchPlan::Reject { error } => {
            assert_eq!(error.status_code(), 400);
            assert_eq!(
                error.message(),
                "Device d1 not connected and has no push token registered"
            );
        }
        _ => panic!("expected a rejection"),
    }
}

#[test]
fn offline_without_apns_is_not_found() {
    let st = AppState::new(String::from("key"), vec![known_device(Some(hex_token()))], false);
    match plan_dispatch(&st, &String::from("d1")) {
        DispatchPlan::Reject { error } => {
            assert_eq!(error.status_code(), 404);
            assert_eq!(error.message(), "Device d1 not connected and APNs not configured");
        }
        _ => panic!("expected a rejection"),
    }
}

#[test]
fn unknown_offline_device_is_not_found() {
    let st = AppState::new(String::from("key"), Vec::new(), true);
    match plan_dispatch(&st, &String::from("ghost")) {
        DispatchPlan::Reject { error } => {
            assert_eq!(error.status_code(), 404);
            assert_eq!(error.message(), "Device ghost not found");
        }
        _ => panic!("expected a rejection"),
    }
}

#[test]
fn push_fallback_answer_is_synthetic_ok() {
    let r = push_fallback_response(String::from("cmd-1"));
    assert_eq!(r.id, "cmd-1");
    assert_eq!(r.status, "ok");
    assert_eq!(r.data.as_deref(), Some("{\"delivered_via\":\"apns\"}"));
    assert!(r.error.is_none());
    assert!(r.error_code.is_none());
}

#[test]
fn push_transport_failure_is_bad_gateway() {
    let e = push_failure(String::from("APNs push failed: connection reset"));
    assert_eq!(e.status_code(), 502);
    assert_eq!(e.message(), "APNs push failed: connection reset");
}

#[test]
fn timeout_settles_slot_and_returns_504() {
    let mut st = AppState::new(String::from("key"), Vec::new(), false);
    let cmd_id = st.open_command();
    let err = finish_live_dispatch(&mut st, &cmd_id, WaitOutcome::TimedOut).unwrap_err();
    assert_eq!(err.status_code(), 504);
    assert_eq!(err.message(), "Device did not respond in time");
    assert!(!st.settle_command(&cmd_id), "the slot is gone after the timeout");
}

#[test]
fn closed_slot_returns_500() {
    let mut st = AppState::new(String::from("key"), Vec::new(), false);
    let cmd_id = st.open_command();
    let err = finish_live_dispatch(&mut st, &cmd_id, WaitOutcome::SlotClosed).unwrap_err();
    assert_eq!(err.status_code(), 500);
    assert_eq!(err.message(), "Response channel closed");
}

#[test]
fn device_reply_is_forwarded_verbatim() {
    let mut st = AppState::new(String::from("key"), Vec::new(), false);
    let cmd_id = st.open_command();
    let reply = CommandResponse {
        id: cmd_id.clone(),
        status: String::from("ok"),
        data: Some(String::from("{\"lat\":1.5}")),
        error: None,
        error_code: None,
    };
    let out = finish_live_dispatch(&mut st, &cmd_id, WaitOutcome::Replied { response: reply })
        .unwrap();
    assert_eq!(out.id, cmd_id);
    assert_eq!(out.status, "ok");
    assert_eq!(out.data.as_deref(), Some("{\"lat\":1.5}"));
}

#[test]
fn bearer_authorization_is_exact() {
    let st = AppState::new(String::from("secret"), Vec::new(), false);
    assert!(request_authorized(&st, Some(&String::from("Bearer secret"))));
    assert!(!request_authorized(&st, Some(&String::from("Bearer wrong"))));
    assert!(!request_authorized(&st, Some(&String::from("bearer secret"))));
    assert!(!request_authorized(&st, Some(&String::from("Bearer secret "))));
    assert!(!request_authorized(&st, Some(&String::from("secret"))));
    assert!(!request_authorized(&st, None));
}

#[test]
fn client_socket_token_must_match_api_key() {
    let st = AppState::new(String::from("secret"), Vec::new(), false);
    assert!(client_socket_allowed(&WsClientParams { token: String::from("secret") }, &st));
    assert!(!client_socket_allowed(&WsClientParams { token: String::from("other") }, &st));
}

#[test]
fn api_error_status_codes() {
    assert_eq!(ApiError::BadRequest { message: String::new() }.status_code(), 400);
    assert_eq!(ApiError::NotFound { message: String::new() }.status_code(), 404);
    assert_eq!(ApiError::Internal { message: String::new() }.status_code(), 500);
    assert_eq!(ApiError::BadGateway { message: String::new() }.status_code(), 502);
    assert_eq!(ApiError::GatewayTimeout { message: String::new() }.status_code(), 504);
}
