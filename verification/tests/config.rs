use omcli::config::{
    apns_mut, apply_config_set, default_bind, default_max_requests, default_port,
    default_relay_port, refresh_server_address, server_url, ApnsConfig, Config, RelayConfig,
    ServerConfig, SetOutcome,
};

fn base_config() -> Config {
    Config {
        server: ServerConfig {
            url: String::from("http://127.0.0.1:7333"),
            api_key: String::from("key"),
            port: 7333,
            bind: String::from("127.0.0.1"),
            relay_url: None,
        },
        apns: None,
        relay: None,
    }
}

#[test]
fn defaults() {
    assert_eq!(default_port(), 7333);
    assert_eq!(default_relay_port(), 7334);
    assert_eq!(default_bind(), "127.0.0.1");
    assert_eq!(default_max_requests(), 60);
}

#[test]
fn relay_config_projects_to_apns_config() {
    let relay = RelayConfig {
        port: 7334,
        bind: String::from("0.0.0.0"),
        apns_key_path: String::from("/keys/apns.p8"),
        apns_key_id: String::from("KEYID12345"),
        apns_team_id: String::from("TEAM123456"),
        apns_bundle_id: String::from("com.example.app"),
        apns_sandbox: true,
        max_requests_per_device_per_hour: 60,
    };
    let apns = relay.to_apns_config();
    assert_eq!(apns.key_path, "/keys/apns.p8");
    assert_eq!(apns.key_id, "KEYID12345");
    assert_eq!(apns.team_id, "TEAM123456");
    assert_eq!(apns.bundle_id, "com.example.app");
    assert!(apns.sandbox);
}

#[test]
fn paths_hang_off_the_data_directory() {
    let dir = String::from("/home/user/.omcli");
    assert_eq!(Config::config_path(&dir), "/home/user/.omcli/config.toml");
    assert_eq!(Config::devices_path(&dir), "/home/user/.omcli/devices.json");
}

#[test]
fn urls_are_rebuilt_from_bind_and_port() {
    assert_eq!(server_url(&String::from("127.0.0.1"), 7333), "http://127.0.0.1:7333");
    assert_eq!(server_url(&String::from("0.0.0.0"), 80), "http://0.0.0.0:80");

    let mut config = base_config();
    refresh_server_address(&mut config, 8080, &String::from("0.0.0.0"));
    assert_eq!(config.server.url, "http://0.0.0.0:8080");
    assert_eq!(config.server.port, 8080);
    assert_eq!(config.server.bind, "0.0.0.0");
    assert_eq!(config.server.api_key, "key", "the key survives the address refresh");
}

#[test]
fn config_set_updates_server_fields() {
    let mut config = base_config();
    assert!(matches!(
        apply_config_set(&mut config, &String::from("url"), &String::from("http://h:1")),
        SetOutcome::Updated
    ));
    assert_eq!(config.server.url, "http://h:1");

    assert!(matches!(
        apply_config_set(&mut config, &String::from("token"), &String::from("new-key")),
        SetOutcome::Updated
    ));
    assert_eq!(config.server.api_key, "new-key");

    assert!(matches!(
        apply_config_set(&mut config, &String::from("port"), &String::from("9000")),
        SetOutcome::Updated
    ));
    assert_eq!(config.server.port, 9000);

    assert!(matches!(
        apply_config_set(&mut config, &String::from("bind"), &String::from("0.0.0.0")),
        SetOutcome::Updated
    ));
    assert_eq!(config.server.bind, "0.0.0.0");
}

#[test]
fn config_set_rejects_bad_values_and_keys() {
    let mut config = base_config();
    assert!(matches!(
        apply_config_set(&mut config, &String::from("port"), &String::from("70000")),
        SetOutcome::InvalidPort
    ));
    assert_eq!(config.server.port, 7333, "a refused update changes nothing");

    assert!(matches!(
        apply_config_set(&mut config, &String::from("apns.sandbox"), &String::from("yes")),
        SetOutcome::InvalidBool
    ));
    assert!(config.apns.is_none());

    assert!(matches!(
        apply_config_set(&mut config, &String::from("color"), &String::from("red")),
        SetOutcome::UnknownKey
    ));
}

#[test]
fn config_set_builds_the_apns_section() {
    let mut config = base_config();
    assert!(matches!(
        apply_config_set(&mut config, &String::from("apns.key_id"), &String::from("K1")),
        SetOutcome::Updated
    ));
    let apns = config.apns.as_ref().unwrap();
    assert_eq!(apns.key_id, "K1");
    assert_eq!(apns.key_path, "");
    assert!(!apns.sandbox);

    assert!(matches!(
        apply_config_set(&mut config, &String::from("apns.sandbox"), &String::from("true")),
        SetOutcome::Updated
    ));
    let apns = config.apns.as_ref().unwrap();
    assert_eq!(apns.key_id, "K1", "earlier settings survive");
    assert!(apns.sandbox);
}

#[test]
fn apns_mut_creates_an_empty_section_once() {
    let mut config = base_config();
    apns_mut(&mut config).team_id = String::from("TEAM");
    assert_eq!(config.apns.as_ref().unwrap().team_id, "TEAM");
    apns_mut(&mut config).key_id = String::from("KEY");
    let apns = config.apns.as_ref().unwrap();
    assert_eq!(apns.team_id, "TEAM");
    assert_eq!(apns.key_id, "KEY");
}

#[test]
fn apns_config_fields_carry_through() {
    let apns = ApnsConfig {
        key_path: String::from("/k.p8"),
        key_id: String::from("K"),
        team_id: String::from("T"),
        bundle_id: String::from("b.id"),
        sandbox: false,
    };
    assert_eq!(apns.bundle_id, "b.id");
}
