use blitz_load::engine::{HttpMethod, ScenarioKind};
use blitz_load::request::{
    cli_config, cli_scenario_from_name, default_concurrency, default_method, default_requests,
    default_scenario, default_timeout, is_http_url, listen_port, method_from_name, parse_u16,
    plan_run, scenario_from_name, ApiError, RunRequest, DEFAULT_PORT,
};
use blitz_load::text::{same_text, starts_with_text};

fn request(url: &str, method: &str, scenario: &str, custom_body: Option<&str>) -> RunRequest {
    RunRequest {
        url: url.to_string(),
        method: method.to_string(),
        requests: 100,
        concurrency: 10,
        scenario: scenario.to_string(),
        custom_body: custom_body.map(|s| s.to_string()),
        timeout_ms: 30000,
        sla_ms: None,
    }
}

#[test]
fn defaults_match_the_api_reference() {
    assert_eq!(default_method(), "post");
    assert_eq!(default_requests(), 100);
    assert_eq!(default_concurrency(), 10);
    assert_eq!(default_scenario(), "user_registration");
    assert_eq!(default_timeout(), 30000);
}

#[test]
fn method_names_are_case_insensitive() {
    assert_eq!(method_from_name("get"), HttpMethod::Get);
    assert_eq!(method_from_name("GET"), HttpMethod::Get);
    assert_eq!(method_from_name("Get"), HttpMethod::Get);
    assert_eq!(method_from_name("post"), HttpMethod::Post);
    assert_eq!(method_from_name("POST"), HttpMethod::Post);
    assert_eq!(method_from_name("delete"), HttpMethod::Post);
    assert_eq!(method_from_name(""), HttpMethod::Post);
    assert_eq!(method_from_name(" get"), HttpMethod::Post);
}

#[test]
fn api_scenario_names() {
    assert!(matches!(scenario_from_name("simple_get", None), ScenarioKind::SimpleGet));
    assert!(matches!(scenario_from_name("user_registration", None), ScenarioKind::UserRegistration));
    assert!(matches!(scenario_from_name("anything", Some("x".to_string())), ScenarioKind::UserRegistration));
    assert!(matches!(scenario_from_name("Simple_Get", None), ScenarioKind::UserRegistration));
    match scenario_from_name("custom_json", Some("{\"a\":1}".to_string())) {
        ScenarioKind::CustomJson { body } => assert_eq!(body, "{\"a\":1}"),
        other => panic!("unexpected {:?}", other),
    }
    match scenario_from_name("custom_json", None) {
        ScenarioKind::CustomJson { body } => assert_eq!(body, ""),
        other => panic!("unexpected {:?}", other),
    }
}

#[test]
fn cli_scenario_names() {
    assert!(matches!(cli_scenario_from_name("simple_get"), ScenarioKind::SimpleGet));
    assert!(matches!(cli_scenario_from_name("user_registration"), ScenarioKind::UserRegistration));
    assert!(matches!(cli_scenario_from_name("custom_json"), ScenarioKind::UserRegistration));
}

#[test]
fn urls_need_an_http_scheme() {
    assert!(is_http_url("http://localhost:3000"));
    assert!(is_http_url("https://httpbin.org/post"));
    assert!(is_http_url("http://"));
    assert!(!is_http_url("ftp://example.com"));
    assert!(!is_http_url("HTTP://example.com"));
    assert!(!is_http_url("http:/example.com"));
    assert!(!is_http_url(""));
    assert!(!is_http_url(" http://x"));
}

#[test]
fn run_with_bad_url_is_refused_with_400() {
    let r = plan_run(request("localhost:3000", "post", "simple_get", None));
    let e = r.expect_err("refused");
    assert_eq!(e, ApiError::InvalidUrl);
    assert_eq!(e.status_code(), 400);
    assert_eq!(e.message(), "URL must start with http:// or https://");
}

#[test]
fn unknown_test_is_404() {
    assert_eq!(ApiError::TestNotFound.status_code(), 404);
    assert_eq!(ApiError::TestNotFound.message(), "Test not found");
}

#[test]
fn run_with_good_url_is_configured() {
    let c = plan_run(request("https://httpbin.org/post", "GET", "custom_json", Some("{}")))
        .expect("accepted");
    assert_eq!(c.url, "https://httpbin.org/post");
    assert_eq!(c.requests, 100);
    assert_eq!(c.concurrency, 10);
    assert_eq!(c.method, HttpMethod::Get);
    match c.scenario {
        ScenarioKind::CustomJson { body } => assert_eq!(body, "{}"),
        other => panic!("unexpected {:?}", other),
    }
}

#[test]
fn run_request_counts_are_passed_through_uncapped() {
    let mut r = request("http://x", "post", "user_registration", None);
    r.requests = 10_000;
    r.concurrency = 1_000;
    let c = plan_run(r).unwrap();
    assert_eq!((c.requests, c.concurrency), (10_000, 1_000));
    assert_eq!(c.method, HttpMethod::Post);
    assert!(matches!(c.scenario, ScenarioKind::UserRegistration));
}

#[test]
fn cli_options_make_a_config() {
    let c = cli_config("http://localhost".to_string(), 20, 4, "Get", "simple_get");
    assert_eq!(c.url, "http://localhost");
    assert_eq!((c.requests, c.concurrency), (20, 4));
    assert_eq!(c.method, HttpMethod::Get);
    assert!(matches!(c.scenario, ScenarioKind::SimpleGet));
}

#[test]
fn port_parsing_follows_u16_parse() {
    for s in ["0", "80", "+80", "065535", "65535", "3000", "", "+", "-1", "-0", "65536", "99999999999", " 80", "80 ", "8o", "١٢"] {
        assert_eq!(parse_u16(s), s.parse::<u16>().ok(), "input {:?}", s);
    }
}

#[test]
fn listen_port_falls_back_to_3000() {
    assert_eq!(listen_port(Some("8080")), 8080);
    assert_eq!(listen_port(Some("+8080")), 8080);
    assert_eq!(listen_port(Some("70000")), DEFAULT_PORT);
    assert_eq!(listen_port(Some("abc")), 3000);
    assert_eq!(listen_port(None), 3000);
}

#[test]
fn text_helpers() {
    assert!(same_text("abc", "abc"));
    assert!(!same_text("abc", "abd"));
    assert!(starts_with_text("héllo", "hé"));
    assert!(!starts_with_text("he", "hello"));
    assert!(starts_with_text("x", ""));
}
