use omcli::ratelimit::RateLimiter;
use omcli::relay::{default_sound, gate_relay_request, relay_error, relay_ok, RelayDecision};
use omcli::strutil::is_valid_device_token;

fn valid_token() -> String {
    "ab".repeat(32)
}

#[test]
fn device_token_must_be_64_lowercase_hex() {
    assert!(is_valid_device_token(&valid_token()));
    assert!(is_valid_device_token(&"0123456789abcdef".repeat(4)));
    assert!(!is_valid_device_token(&"ab".repeat(31)), "63 or fewer characters");
    assert!(!is_valid_device_token(&"ab".repeat(33)), "65 or more characters");
    assert!(!is_valid_device_token(&"AB".repeat(32)), "uppercase is refused");
    assert!(!is_valid_device_token(&"zz".repeat(32)), "non-hex is refused");
    assert!(!is_valid_device_token(""));
}

#[test]
fn rate_limiter_allows_up_to_the_cap() {
    let mut rl = RateLimiter::new(60);
    let token = valid_token();
    for _ in 0..60 {
        assert!(rl.check(&token, 100));
    }
    assert!(!rl.check(&token, 100), "the 61st request within the hour is refused");
}

#[test]
fn rate_limiter_window_turns_over_after_an_hour() {
    let mut rl = RateLimiter::new(2);
    let token = valid_token();
    assert!(rl.check(&token, 0));
    assert!(rl.check(&token, 10));
    assert!(!rl.check(&token, 20));
    assert!(!rl.check(&token, 3599), "still inside the window");
    assert!(rl.check(&token, 3600), "a full hour later the window restarts");
    assert!(rl.check(&token, 3601));
    assert!(!rl.check(&token, 3602));
}

#[test]
fn rate_limiter_counts_tokens_separately() {
    let mut rl = RateLimiter::new(1);
    let a = "aa".repeat(32);
    let b = "bb".repeat(32);
    assert!(rl.check(&a, 0));
    assert!(rl.check(&b, 0));
    assert!(!rl.check(&a, 1));
    assert!(!rl.check(&b, 1));
}

#[test]
fn relay_gate_refuses_invalid_tokens_without_spending_budget() {
    let mut rl = RateLimiter::new(1);
    let bad = String::from("not-a-token");
    let decision = gate_relay_request(&mut rl, &bad, 0);
    assert!(matches!(decision, RelayDecision::InvalidToken));
    assert_eq!(decision.status_code(), 400);

    let good = valid_token();
    assert!(matches!(gate_relay_request(&mut rl, &good, 0), RelayDecision::Forward));
}

#[test]
fn relay_gate_rate_limits_the_61st_push() {
    let mut rl = RateLimiter::new(60);
    let token = valid_token();
    for _ in 0..60 {
        assert!(matches!(gate_relay_request(&mut rl, &token, 50), RelayDecision::Forward));
    }
    let decision = gate_relay_request(&mut rl, &token, 50);
    assert!(matches!(decision, RelayDecision::RateLimited));
    assert_eq!(decision.status_code(), 429);
}

#[test]
fn relay_answers() {
    let ok = relay_ok();
    assert_eq!(ok.status, "ok");
    assert!(ok.error.is_none());

    let err = relay_error(String::from("Rate limit exceeded"));
    assert_eq!(err.status, "error");
    assert_eq!(err.error.as_deref(), Some("Rate limit exceeded"));
}

#[test]
fn default_sound_is_default() {
    assert_eq!(default_sound(), "default");
}
