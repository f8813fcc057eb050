use blitz_load::engine::{
    generate_payload, prepare_request, registration_payload, BlitzConfig, HttpMethod, RunLimits,
    ScenarioKind, MAX_CONCURRENCY, MAX_REQUESTS,
};

fn config(requests: usize, concurrency: usize) -> BlitzConfig {
    BlitzConfig {
        url: "http://localhost:8080/post".to_string(),
        requests,
        concurrency,
        method: HttpMethod::Post,
        scenario: ScenarioKind::SimpleGet,
    }
}

#[test]
fn limits_cap_requests_at_500() {
    let l = RunLimits::of(&config(1000, 10));
    assert_eq!(l.total, 500);
    assert_eq!(l.concurrency, 10);
    assert_eq!(MAX_REQUESTS, 500);
}

#[test]
fn limits_cap_concurrency_at_50() {
    let l = RunLimits::of(&config(100, 200));
    assert_eq!(l.total, 100);
    assert_eq!(l.concurrency, 50);
    assert_eq!(MAX_CONCURRENCY, 50);
}

#[test]
fn limits_keep_values_within_caps() {
    let l = RunLimits::of(&config(500, 50));
    assert_eq!(l, RunLimits { total: 500, concurrency: 50 });
    let l = RunLimits::of(&config(0, 0));
    assert_eq!(l, RunLimits { total: 0, concurrency: 0 });
}

#[test]
fn registration_payload_is_exact_json() {
    let p = registration_payload("abcdef12");
    assert_eq!(
        p,
        "{\"confirmPassword\":\"Pass_abcdef12!123\",\"email\":\"loadtest_abcdef12@example.com\",\"name\":\"User_abcdef12\",\"password\":\"Pass_abcdef12!123\"}"
    );
}

#[test]
fn registration_payload_escapes_quotes() {
    let p = registration_payload("a\"b");
    assert_eq!(
        p,
        "{\"confirmPassword\":\"Pass_a\\\"b!123\",\"email\":\"loadtest_a\\\"b@example.com\",\"name\":\"User_a\\\"b\",\"password\":\"Pass_a\\\"b!123\"}"
    );
}

fn registration_uid(payload: &str) -> String {
    let start = payload.find("\"name\":\"User_").expect("name field") + "\"name\":\"User_".len();
    payload[start..start + 8].to_string()
}

#[test]
fn registration_scenario_draws_a_hex_user_id() {
    let p = generate_payload(&ScenarioKind::UserRegistration).expect("a payload");
    let uid = registration_uid(&p);
    assert_eq!(uid.len(), 8);
    assert!(uid.chars().all(|c| c.is_ascii_hexdigit() && !c.is_ascii_uppercase()));
    assert_eq!(p, registration_payload(&uid));
}

#[test]
fn registration_payloads_differ_between_requests() {
    let a = generate_payload(&ScenarioKind::UserRegistration).unwrap();
    let b = generate_payload(&ScenarioKind::UserRegistration).unwrap();
    let c = generate_payload(&ScenarioKind::UserRegistration).unwrap();
    assert!(a != b || b != c);
}

#[test]
fn simple_get_has_no_payload() {
    assert!(generate_payload(&ScenarioKind::SimpleGet).is_none());
}

#[test]
fn custom_json_payload_is_the_body() {
    let body = "{\"k\": [1, 2]}".to_string();
    let p = generate_payload(&ScenarioKind::CustomJson { body: body.clone() });
    assert_eq!(p, Some(body));
}

#[test]
fn get_requests_send_no_body() {
    let r = prepare_request(HttpMethod::Get, &ScenarioKind::CustomJson { body: "{}".to_string() });
    assert_eq!(r.method, HttpMethod::Get);
    assert!(!r.json_content_type);
    assert!(r.body.is_none());
}

#[test]
fn post_requests_declare_json_and_carry_the_payload() {
    let r = prepare_request(HttpMethod::Post, &ScenarioKind::CustomJson { body: "{}".to_string() });
    assert_eq!(r.method, HttpMethod::Post);
    assert!(r.json_content_type);
    assert_eq!(r.body.as_deref(), Some("{}"));
}

#[test]
fn post_without_payload_sends_no_body() {
    let r = prepare_request(HttpMethod::Post, &ScenarioKind::SimpleGet);
    assert!(r.json_content_type);
    assert!(r.body.is_none());
}

#[test]
fn post_registration_carries_a_registration() {
    let r = prepare_request(HttpMethod::Post, &ScenarioKind::UserRegistration);
    let body = r.body.expect("a body");
    assert!(body.starts_with("{\"confirmPassword\":\"Pass_"));
}
