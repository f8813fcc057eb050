//! Turning what a user asked for (an API request or command-line options)
//! into the configuration of a run.

use vstd::prelude::*;

use crate::engine::{opt_text, BlitzConfig, HttpMethod, ScenarioKind};
use crate::text::{
    ascii_lowercase, has_prefix, is_ascii_text, lowercase_text, same_text, starts_with_text,
    to_lowercase,
};

verus! {

/// Port the server listens on when none is configured.
pub const DEFAULT_PORT: u16 = 3000;

/// How long a finished test stays reachable for late listeners, in seconds.
pub const FINISHED_TEST_RETENTION_SECS: u64 = 300;

/// Default HTTP method name of an API request.
pub fn default_method() -> (r: String)
    ensures
        r@ == "post"@,
{
    String::from_str("post")
}

/// Default number of requests of an API request.
pub fn default_requests() -> (r: usize)
    ensures
        r == 100,
{
    100
}

/// Default number of requests in flight of an API request.
pub fn default_concurrency() -> (r: usize)
    ensures
        r == 10,
{
    10
}

/// Default scenario name of an API request.
pub fn default_scenario() -> (r: String)
    ensures
        r@ == "user_registration"@,
{
    String::from_str("user_registration")
}

/// Default request timeout of an API request, in milliseconds.
pub fn default_timeout() -> (r: u64)
    ensures
        r == 30000,
{
    30000
}

/// A request to start a load test, as the API receives it.
#[derive(Debug, Clone)]
pub struct RunRequest {
    pub url: String,
    pub method: String,
    pub requests: usize,
    pub concurrency: usize,
    pub scenario: String,
    pub custom_body: Option<String>,
    pub timeout_ms: u64,
    pub sla_ms: Option<u64>,
}

/// Errors that the API answers with.
#[derive(Debug, Clone, Copy, PartialEq, Eq, Structural)]
pub enum ApiError {
    /// The target URL does not start with `http://` or `https://`.
    InvalidUrl,
    /// No test has the requested id.
    TestNotFound,
}

impl ApiError {
    /// HTTP status of the error answer: 400 for a bad URL, 404 for an unknown test.
    pub fn status_code(&self) -> (r: u16)
        ensures
            r == (match self {
                ApiError::InvalidUrl => 400u16,
                ApiError::TestNotFound => 404u16,
            }),
    {
        match self {
            ApiError::InvalidUrl => 400,
            ApiError::TestNotFound => 404,
        }
    }

    /// Text of the error answer.
    pub fn message(&self) -> (r: String)
        ensures
            r@ == (match self {
                ApiError::InvalidUrl => "URL must start with http:// or https://"@,
                ApiError::TestNotFound => "Test not found"@,
            }),
    {
        match self {
            ApiError::InvalidUrl => String::from_str("URL must start with http:// or https://"),
            ApiError::TestNotFound => String::from_str("Test not found"),
        }
    }
}

/// The method a method name selects: GET when the name lower-cases to
/// `get`, POST for every other name.
pub open spec fn method_for(name: Seq<char>) -> HttpMethod {
    if lowercase_text(name) == "get"@ {
        HttpMethod::Get
    } else {
        HttpMethod::Post
    }
}

/// The method a method name selects (see `method_for`); for an ASCII name,
/// GET exactly when the name is `get` in any mix of upper and lower case.
pub fn method_from_name(name: &str) -> (r: HttpMethod)
    ensures
        r == method_for(name@),
        is_ascii_text(name@) ==> (r == HttpMethod::Get <==> ascii_lowercase(name@) == "get"@),
{
    let lower = to_lowercase(name);
    if same_text(lower.as_str(), "get") {
        HttpMethod::Get
    } else {
        HttpMethod::Post
    }
}

/// `k` is the scenario that the API's scenario name `name` selects, with the
/// custom body `custom_body` (empty when absent) for `custom_json`; any other
/// name selects the user registration.
pub open spec fn api_scenario_for(k: ScenarioKind, name: Seq<char>, custom_body: Option<Seq<char>>) -> bool {
    if name == "simple_get"@ {
        k is SimpleGet
    } else if name == "custom_json"@ {
        k matches ScenarioKind::CustomJson { body } && body@ == (match custom_body {
            Some(b) => b,
            None => Seq::<char>::empty(),
        })
    } else {
        k is UserRegistration
    }
}

/// The three API scenario names select the three scenarios: `simple_get`
/// no body, `custom_json` the given body (empty when none), and every
/// other name (`user_registration` among them) the user registration.
pub proof fn lemma_api_scenario_names(k: ScenarioKind, name: Seq<char>, custom_body: Option<Seq<char>>)
    requires
        api_scenario_for(k, name, custom_body),
    ensures
        name == "simple_get"@ ==> k is SimpleGet,
        name == "custom_json"@ ==> (k matches ScenarioKind::CustomJson { body } && (custom_body matches Some(b)
            ==> body@ == b) && (custom_body is None ==> body@.len() == 0)),
        name != "simple_get"@ && name != "custom_json"@ ==> k is UserRegistration,
{
    reveal_strlit("simple_get");
    reveal_strlit("custom_json");
    if name == "custom_json"@ {
        assert(name != "simple_get"@) by {
            assert(name.len() != "simple_get"@.len());
        }
    }
}

/// Any URL made of `http://` or `https://` followed by anything is accepted
/// as a target; any URL whose first character is not `h` is refused.
pub proof fn lemma_http_scheme(rest: Seq<char>, url: Seq<char>)
    ensures
        has_http_scheme("http://"@ + rest),
        has_http_scheme("https://"@ + rest),
        url.len() > 0 && url[0] != 'h' ==> !has_http_scheme(url),
        url.len() == 0 ==> !has_http_scheme(url),
{
    reveal_strlit("http://");
    reveal_strlit("https://");
    crate::text::lemma_has_prefix_chars(url, "http://"@, rest);
    crate::text::lemma_has_prefix_chars(url, "https://"@, rest);
    crate::text::lemma_has_prefix_chars("https://"@ + rest, "https://"@, rest);
    if url.len() > 0 && url[0] != 'h' {
        if has_prefix(url, "http://"@) {
            assert(url[0] == "http://"@[0]);
        }
        if has_prefix(url, "https://"@) {
            assert(url[0] == "https://"@[0]);
        }
    }
}

/// The scenario an API request names (see `api_scenario_for`).
pub fn scenario_from_name(name: &str, custom_body: Option<String>) -> (r: ScenarioKind)
    ensures
        api_scenario_for(r, name@, opt_text(custom_body)),
{
    if same_text(name, "simple_get") {
        ScenarioKind::SimpleGet
    } else if same_text(name, "custom_json") {
        let body = match custom_body {
            Some(b) => b,
            None => String::new(),
        };
        ScenarioKind::CustomJson { body }
    } else {
        ScenarioKind::UserRegistration
    }
}

/// `k` is the scenario that the command line's scenario name `name`
/// selects: `simple_get`, or else the user registration (the command line
/// offers no custom body).
pub open spec fn cli_scenario_for(k: ScenarioKind, name: Seq<char>) -> bool {
    if name == "simple_get"@ {
        k is SimpleGet
    } else {
        k is UserRegistration
    }
}

/// The scenario a command-line scenario name selects (see `cli_scenario_for`).
pub fn cli_scenario_from_name(name: &str) -> (r: ScenarioKind)
    ensures
        cli_scenario_for(r, name@),
{
    if same_text(name, "simple_get") {
        ScenarioKind::SimpleGet
    } else {
        ScenarioKind::UserRegistration
    }
}

/// `url` starts with `http://` or `https://`.
pub open spec fn has_http_scheme(url: Seq<char>) -> bool {
    has_prefix(url, "http://"@) || has_prefix(url, "https://"@)
}

/// Whether a target URL starts with `http://` or `https://`.
pub fn is_http_url(url: &str) -> (r: bool)
    ensures
        r == has_http_scheme(url@),
{
    starts_with_text(url, "http://") || starts_with_text(url, "https://")
}

/// The configuration an accepted API request starts: its URL, counts,
/// method and scenario.
pub open spec fn config_for_request(c: BlitzConfig, req: RunRequest) -> bool {
    &&& c.url@ == req.url@
    &&& c.requests == req.requests
    &&& c.concurrency == req.concurrency
    &&& c.method == method_for(req.method@)
    &&& api_scenario_for(c.scenario, req.scenario@, opt_text(req.custom_body))
}

/// The method of an accepted request depends on its method name alone:
/// two requests with the same method name get the same method, whatever
/// their URLs, counts, scenarios and bodies.
pub proof fn lemma_method_depends_on_name_only(c1: BlitzConfig, r1: RunRequest, c2: BlitzConfig, r2: RunRequest)
    requires
        config_for_request(c1, r1),
        config_for_request(c2, r2),
        r1.method@ == r2.method@,
    ensures
        c1.method == c2.method,
{
}

/// Decides an API request to start a test: a URL without an `http://` or
/// `https://` scheme is refused; otherwise the request's configuration.
pub fn plan_run(req: RunRequest) -> (r: Result<BlitzConfig, ApiError>)
    ensures
        r is Err <==> !has_http_scheme(req.url@),
        r matches Err(e) ==> e == ApiError::InvalidUrl,
        r matches Ok(c) ==> config_for_request(c, req),
        r matches Ok(c) ==> (is_ascii_text(req.method@) ==> (c.method == HttpMethod::Get
            <==> ascii_lowercase(req.method@) == "get"@)),
{
    if !is_http_url(req.url.as_str()) {
        return Err(ApiError::InvalidUrl);
    }
    let method = method_from_name(req.method.as_str());
    let scenario = scenario_from_name(req.scenario.as_str(), req.custom_body);
    Ok(BlitzConfig {
        url: req.url,
        requests: req.requests,
        concurrency: req.concurrency,
        method,
        scenario,
    })
}

/// The configuration that command-line options start.
pub fn cli_config(url: String, requests: usize, concurrency: usize, method: &str, scenario: &str) -> (r:
    BlitzConfig)
    ensures
        r.url@ == url@,
        r.requests == requests,
        r.concurrency == concurrency,
        r.method == method_for(method@),
        cli_scenario_for(r.scenario, scenario@),
{
    BlitzConfig {
        url,
        requests,
        concurrency,
        method: method_from_name(method),
        scenario: cli_scenario_from_name(scenario),
    }
}


/// `c` is one of `0-9`.
pub open spec fn is_decimal_digit(c: char) -> bool {
    ('0' as u32) <= (c as u32) && (c as u32) <= ('9' as u32)
}

/// The value of a text of decimal digits.
pub open spec fn digits_value(d: Seq<char>) -> nat
    decreases d.len(),
{
    if d.len() == 0 {
        0
    } else {
        digits_value(d.drop_last()) * 10 + ((d.last() as u32) - ('0' as u32)) as nat
    }
}

/// `d` is a non-empty text of decimal digits.
pub open spec fn all_digits(d: Seq<char>) -> bool {
    d.len() > 0 && forall|i: int| 0 <= i < d.len() ==> is_decimal_digit(#[trigger] d[i])
}

/// The digits of an unsigned number's text: an optional leading `+` dropped.
pub open spec fn unsigned_digits(s: Seq<char>) -> Seq<char> {
    if s.len() > 0 && s[0] == '+' {
        s.drop_first()
    } else {
        s
    }
}

/// What parsing `s` as a `u16` gives: an optional `+` followed by one or
/// more decimal digits whose value is at most 65535; anything else is none.
pub open spec fn spec_parse_u16(s: Seq<char>) -> Option<u16> {
    let d = unsigned_digits(s);
    if all_digits(d) && digits_value(d) <= 65535 {
        Some(digits_value(d) as u16)
    } else {
        None
    }
}

/// Digits appended to a text of digits never make its value smaller.
pub proof fn lemma_digits_value_prefix(d: Seq<char>, k: int)
    requires
        0 <= k <= d.len(),
        forall|i: int| 0 <= i < d.len() ==> is_decimal_digit(#[trigger] d[i]),
    ensures
        digits_value(d.take(k)) <= digits_value(d),
    decreases d.len() - k,
{
    if k < d.len() {
        let t = d.take(k + 1);
        assert(t.drop_last() =~= d.take(k));
        assert(is_decimal_digit(d[k]));
        lemma_digits_value_prefix(d, k + 1);
    } else {
        assert(d.take(k) =~= d);
    }
}

/// One more digit multiplies the value by ten and adds the digit.
pub proof fn lemma_digits_value_step(d: Seq<char>, k: int)
    requires
        0 <= k < d.len(),
    ensures
        digits_value(d.take(k + 1)) == digits_value(d.take(k)) * 10 + ((d[k] as u32) - ('0' as u32)) as nat,
{
    assert(d.take(k + 1).drop_last() =~= d.take(k));
    assert(d.take(k + 1).last() == d[k]);
}

/// Parses a port number the way `str::parse::<u16>` does (see
/// `spec_parse_u16`).
pub fn parse_u16(s: &str) -> (r: Option<u16>)
    ensures
        r == spec_parse_u16(s@),
{
    let n = s.unicode_len();
    let mut i: usize = 0;
    if n > 0 && s.get_char(0) == '+' {
        i = 1;
    }
    let start = i;
    let ghost d = unsigned_digits(s@);
    proof {
        assert(d =~= s@.skip(start as int));
    }
    if start == n {
        return None;
    }
    let mut acc: u32 = 0;
    while i < n
        invariant
            start <= i <= n,
            n == s@.len(),
            d =~= s@.skip(start as int),
            d == unsigned_digits(s@),
            forall|k: int| 0 <= k < i - start ==> is_decimal_digit(#[trigger] d[k]),
            acc == digits_value(d.take(i - start)),
            acc <= 65535,
        decreases n - i,
    {
        let c = s.get_char(i);
        proof {
            assert(d[i - start] == c);
        }
        let code = c as u32;
        if code < 48 || code > 57 {
            proof {
                assert(!is_decimal_digit(d[i - start]));
                assert(!all_digits(d));
            }
            return None;
        }
        let digit = code - 48;
        proof {
            lemma_digits_value_step(d, i - start);
        }
        let next = acc * 10 + digit;
        if next > 65535 {
            proof {
                if all_digits(d) {
                    lemma_digits_value_prefix(d, i - start + 1);
                    assert(digits_value(d) > 65535);
                }
                assert(spec_parse_u16(s@) is None);
            }
            return None;
        }
        acc = next;
        i = i + 1;
    }
    proof {
        assert(d.take(i - start) =~= d);
    }
    Some(acc as u16)
}

/// The port a server listens on: the configured value when it parses as a
/// port number, `DEFAULT_PORT` otherwise.
pub fn listen_port(configured: Option<&str>) -> (r: u16)
    ensures
        r == (match configured {
            Some(s) => match spec_parse_u16(s@) {
                Some(p) => p,
                None => DEFAULT_PORT,
            },
            None => DEFAULT_PORT,
        }),
{
    match configured {
        Some(s) => match parse_u16(s) {
            Some(p) => p,
            None => DEFAULT_PORT,
        },
        None => DEFAULT_PORT,
    }
}

} // verus!
