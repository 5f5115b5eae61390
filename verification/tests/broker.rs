use omcli::protocol::Device;
use omcli::protocol::ServerMessage;
use omcli::state::{AppState, AuthOutcome};

fn fresh_state() -> AppState {
    AppState::new(String::from("secret-key"), Vec::new(), false)
}

fn device(id: &str, name: &str, token: &str) -> Device {
    Device {
        id: String::from(id),
        name: String::from(name),
        token: String::from(token),
        paired_at: 1000,
        push_token: None,
        voip_token: None,
    }
}

fn pairing_code(msg: &ServerMessage) -> String {
    match msg {
        ServerMessage::PairingCode { code } => code.clone(),
        _ => panic!("expected a pairing code"),
    }
}

#[test]
fn hello_unknown_device_offers_pairing_code() {
    let mut st = fresh_state();
    let msg = st.on_hello(String::from("d1"), String::from("Phone"), 1);
    let code = pairing_code(&msg);
    assert_eq!(code.len(), 6);
    assert!(code.chars().all(|c| c.is_ascii_digit()));
    let value: u32 = code.parse().unwrap();
    assert!((100000..=999999).contains(&value));
}

#[test]
fn hello_known_device_requires_auth() {
    let mut st = AppState::new(
        String::from("secret-key"),
        vec![device("d1", "Phone", "tok-1")],
        false,
    );
    let msg = st.on_hello(String::from("d1"), String::from("Phone"), 1);
    assert!(matches!(msg, ServerMessage::AuthRequired));
}

#[test]
fn happy_path_pair_and_command_round_trip() {
    let mut st = fresh_state();
    let msg = st.on_hello(String::from("d1"), String::from("Phone"), 1);
    let code = pairing_code(&msg);

    let outcome = st.pair(&code, 1234).expect("pairing should hit");
    assert_eq!(outcome.response.device_id, "d1");
    assert_eq!(outcome.response.name, "Phone");
    match &outcome.auth_msg {
        ServerMessage::AuthResult { success, token, error } => {
            assert!(*success);
            assert_eq!(token.as_ref().unwrap().len(), 36);
            assert!(error.is_none());
        }
        _ => panic!("expected an auth result"),
    }
    assert!(st.is_online(&String::from("d1")));

    let cmd_id = st.open_command();
    assert_eq!(cmd_id.len(), 36);
    let resp = st
        .on_response(cmd_id.clone(), String::from("ok"), None, None)
        .expect("a pending command should be fulfilled");
    assert_eq!(resp.id, cmd_id);
    assert_eq!(resp.status, "ok");
    assert!(resp.error.is_none());
}

#[test]
fn pair_code_is_consumed_exactly_once() {
    let mut st = fresh_state();
    let msg = st.on_hello(String::from("d1"), String::from("Phone"), 1);
    let code = pairing_code(&msg);
    assert!(st.pair(&code, 10).is_some());
    assert!(st.pair(&code, 11).is_none(), "second pair call with the same code must miss");
}

#[test]
fn pair_with_invalid_code_misses() {
    let mut st = fresh_state();
    st.on_hello(String::from("d1"), String::from("Phone"), 1);
    assert!(st.pair(&String::from("12345"), 10).is_none());
    assert!(st.pair(&String::from("abcdef"), 10).is_none());
}

#[test]
fn delete_then_reconnect_yields_new_pairing_code() {
    let mut st = fresh_state();
    let msg = st.on_hello(String::from("d1"), String::from("Phone"), 1);
    let code = pairing_code(&msg);
    st.pair(&code, 10).unwrap();

    assert!(st.delete_device(&String::from("d1")));
    assert!(!st.is_online(&String::from("d1")));

    let msg = st.on_hello(String::from("d1"), String::from("Phone"), 2);
    let new_code = pairing_code(&msg);
    assert_eq!(new_code.len(), 6);
}

#[test]
fn delete_unknown_device_reports_missing() {
    let mut st = fresh_state();
    assert!(!st.delete_device(&String::from("ghost")));
}

#[test]
fn reauth_after_restart_with_issued_token() {
    let mut st = fresh_state();
    let msg = st.on_hello(String::from("d1"), String::from("Phone"), 1);
    let code = pairing_code(&msg);
    let outcome = st.pair(&code, 10).unwrap();
    let issued = match outcome.auth_msg {
        ServerMessage::AuthResult { token, .. } => token.unwrap(),
        _ => panic!("expected an auth result"),
    };

    let persisted = st.registry_snapshot();
    let mut restarted = AppState::new(String::from("secret-key"), persisted, false);

    let msg = restarted.on_hello(String::from("d1"), String::from("Phone"), 7);
    assert!(matches!(msg, ServerMessage::AuthRequired));
    let auth = restarted.on_auth(String::from("d1"), issued);
    match auth {
        AuthOutcome::Accepted { msg } => match msg {
            ServerMessage::AuthResult { success, token, .. } => {
                assert!(success);
                assert!(token.is_none(), "re-auth does not re-issue the token");
            }
            _ => panic!("expected an auth result"),
        },
        _ => panic!("re-auth with the issued token must be accepted"),
    }
    assert!(restarted.is_online(&String::from("d1")));
}

#[test]
fn reauth_with_wrong_token_evicts_and_reissues_code() {
    let mut st = AppState::new(
        String::from("secret-key"),
        vec![device("d1", "Phone", "tok-1")],
        false,
    );
    let msg = st.on_hello(String::from("d1"), String::from("Phone"), 1);
    assert!(matches!(msg, ServerMessage::AuthRequired));

    let auth = st.on_auth(String::from("d1"), String::from("wrong-token"));
    let code = match auth {
        AuthOutcome::Rejected { msg } => pairing_code(&msg),
        _ => panic!("a wrong token must be rejected"),
    };
    assert!(!st.is_online(&String::from("d1")));
    assert_eq!(st.devices_overview().len(), 0, "the stale registry record is evicted");

    let outcome = st.pair(&code, 99).expect("the new code re-pairs the same socket");
    assert_eq!(outcome.response.device_id, "d1");
    assert!(st.is_online(&String::from("d1")));
}

#[test]
fn auth_without_connection_is_ignored() {
    let mut st = AppState::new(
        String::from("secret-key"),
        vec![device("d1", "Phone", "tok-1")],
        false,
    );
    let auth = st.on_auth(String::from("d1"), String::from("tok-1"));
    assert!(matches!(auth, AuthOutcome::Ignored));
}

#[test]
fn response_with_unknown_id_is_dropped_silently() {
    let mut st = fresh_state();
    let r = st.on_response(String::from("no-such-id"), String::from("ok"), None, None);
    assert!(r.is_none());
}

#[test]
fn late_response_after_timeout_is_dropped() {
    let mut st = fresh_state();
    let cmd_id = st.open_command();
    assert!(st.settle_command(&cmd_id), "the timeout settles the pending entry");
    let r = st.on_response(cmd_id, String::from("ok"), None, None);
    assert!(r.is_none(), "a late reply finds no slot and is discarded");
}

#[test]
fn response_forwards_error_details() {
    let mut st = fresh_state();
    let cmd_id = st.open_command();
    let resp = st
        .on_response(
            cmd_id,
            String::from("error"),
            None,
            Some(omcli::protocol::ErrorInfo {
                code: String::from("USER_DECLINED"),
                message: String::from("declined on device"),
            }),
        )
        .unwrap();
    assert_eq!(resp.status, "error");
    assert_eq!(resp.error.as_deref(), Some("declined on device"));
    assert_eq!(resp.error_code.as_deref(), Some("USER_DECLINED"));
}

#[test]
fn push_token_updates_known_device_only() {
    let mut st = AppState::new(
        String::from("secret-key"),
        vec![device("d1", "Phone", "tok-1")],
        false,
    );
    assert!(st.on_push_token(&String::from("d1"), String::from("p".repeat(64))));
    assert!(!st.on_push_token(&String::from("ghost"), String::from("p".repeat(64))));
    let snapshot = st.registry_snapshot();
    assert_eq!(snapshot[0].push_token.as_deref(), Some("p".repeat(64).as_str()));
}

#[test]
fn voip_token_updates_known_device_only() {
    let mut st = AppState::new(
        String::from("secret-key"),
        vec![device("d1", "Phone", "tok-1")],
        false,
    );
    assert!(st.on_voip_token(&String::from("d1"), String::from("v-token")));
    let snapshot = st.registry_snapshot();
    assert_eq!(snapshot[0].voip_token.as_deref(), Some("v-token"));
    assert!(snapshot[0].push_token.is_none());
}

#[test]
fn replacement_connection_survives_old_sockets_cleanup() {
    let mut st = fresh_state();
    st.on_hello(String::from("d1"), String::from("Phone"), 1);
    st.on_hello(String::from("d1"), String::from("Phone"), 2);
    assert!(
        !st.on_disconnect(&String::from("d1"), 1),
        "the old socket must not evict its replacement"
    );
    assert_eq!(st.connection_info(&String::from("d1")).unwrap().0, 2);
    assert!(st.on_disconnect(&String::from("d1"), 2));
    assert!(st.connection_info(&String::from("d1")).is_none());
}

#[test]
fn loading_drops_records_without_token() {
    let bad = Device {
        id: String::from("d2"),
        name: String::from("Tampered"),
        token: String::new(),
        paired_at: 0,
        push_token: None,
        voip_token: None,
    };
    let st = AppState::new(
        String::from("secret-key"),
        vec![device("d1", "Phone", "tok-1"), bad],
        false,
    );
    let listed = st.devices_overview();
    assert_eq!(listed.len(), 1);
    assert_eq!(listed[0].id, "d1");
}

#[test]
fn command_frames_and_events_carry_their_fields() {
    let msg = omcli::protocol::command_message(
        String::from("id-1"),
        String::from("alarm.start"),
        String::from("{\"sound\":\"default\"}"),
    );
    match msg {
        ServerMessage::Command { id, command, params } => {
            assert_eq!(id, "id-1");
            assert_eq!(command, "alarm.start");
            assert_eq!(params, "{\"sound\":\"default\"}");
        }
        _ => panic!("expected a command frame"),
    }

    let e = omcli::protocol::connected_event(String::from("d1"));
    assert_eq!(e.event, "device.connected");
    assert_eq!(e.device_id, "d1");
    assert!(e.data.is_none());

    let e = omcli::protocol::disconnected_event(String::from("d1"));
    assert_eq!(e.event, "device.disconnected");

    let e = omcli::protocol::paired_event(String::from("d1"));
    assert_eq!(e.event, "device.paired");

    let e = omcli::protocol::device_event(
        String::from("battery.low"),
        String::from("d1"),
        Some(String::from("{\"level\":5}")),
    );
    assert_eq!(e.event, "battery.low");
    assert_eq!(e.data.as_deref(), Some("{\"level\":5}"));
}

#[test]
fn overview_and_status_report_liveness() {
    let mut st = AppState::new(
        String::from("secret-key"),
        vec![device("d1", "Phone", "tok-1"), device("d2", "Tablet", "tok-2")],
        false,
    );
    let msg = st.on_hello(String::from("d1"), String::from("Phone"), 1);
    assert!(matches!(msg, ServerMessage::AuthRequired));
    match st.on_auth(String::from("d1"), String::from("tok-1")) {
        AuthOutcome::Accepted { .. } => {}
        _ => panic!("auth should be accepted"),
    }

    let listed = st.devices_overview();
    assert_eq!(listed.len(), 2);
    let d1 = listed.iter().find(|d| d.id == "d1").unwrap();
    let d2 = listed.iter().find(|d| d.id == "d2").unwrap();
    assert!(d1.online);
    assert!(!d2.online);

    let status = st.status_report(String::from("0.1.0"), 42);
    assert_eq!(status.version, "0.1.0");
    assert_eq!(status.uptime_secs, 42);
    assert_eq!(status.devices_online, 1);
    assert_eq!(status.devices_total, 2);
}
