//! Run configuration, safety caps, and the payload of each request.

use vstd::prelude::*;

use crate::ident::{is_v4_uuid_text, is_lower_hex_digit, new_v4_uuid_text};
use crate::json::{
    all_plain, is_plain_char, is_plain_text, json_object_text, keys_ascending, member_text,
    members_text, plain_object_text, string_object_json, text_less,
};

verus! {

/// Most requests one run fires, whatever was asked for.
pub const MAX_REQUESTS: usize = 500;

/// Most requests one run keeps in flight at once, whatever was asked for.
pub const MAX_CONCURRENCY: usize = 50;

/// Timeout of every request, in seconds.
pub const REQUEST_TIMEOUT_SECS: u64 = 30;

/// Interval between two progress reports, in milliseconds.
pub const PROGRESS_INTERVAL_MS: u64 = 500;

/// Capacity of the channel that carries progress events.
pub const EVENT_CHANNEL_CAPACITY: usize = 512;

/// HTTP method of every request of a run.
#[derive(Debug, Clone, Copy, PartialEq, Eq, Structural)]
pub enum HttpMethod {
    Get,
    Post,
}

/// What each request carries.
#[derive(Debug, Clone)]
pub enum ScenarioKind {
    /// A fresh user with a unique id for every request.
    UserRegistration,
    /// No body.
    SimpleGet,
    /// The same caller-supplied JSON body for every request.
    CustomJson { body: String },
}

/// A load test as it was asked for.
#[derive(Debug, Clone)]
pub struct BlitzConfig {
    pub url: String,
    pub requests: usize,
    pub concurrency: usize,
    pub method: HttpMethod,
    pub scenario: ScenarioKind,
}

/// The smaller of `a` and `b`.
pub open spec fn min_usize(a: usize, b: usize) -> usize {
    if a <= b { a } else { b }
}

/// The number of requests and the number in flight that a run really uses.
#[derive(Debug, Clone, Copy, PartialEq, Eq, Structural)]
pub struct RunLimits {
    pub total: usize,
    pub concurrency: usize,
}

impl RunLimits {
    /// Applies the safety caps: at most `MAX_REQUESTS` requests and at most
    /// `MAX_CONCURRENCY` in flight.
    pub fn of(config: &BlitzConfig) -> (r: RunLimits)
        ensures
            r.total == min_usize(config.requests, MAX_REQUESTS),
            r.concurrency == min_usize(config.concurrency, MAX_CONCURRENCY),
    {
        let total = if config.requests <= MAX_REQUESTS { config.requests } else { MAX_REQUESTS };
        let concurrency = if config.concurrency <= MAX_CONCURRENCY {
            config.concurrency
        } else {
            MAX_CONCURRENCY
        };
        RunLimits { total, concurrency }
    }
}

/// The fields of the registration payload for the user id `uid`, in
/// ascending key order.
pub open spec fn registration_fields(uid: Seq<char>) -> Seq<(Seq<char>, Seq<char>)> {
    let password = "Pass_"@ + uid + "!123"@;
    seq![
        ("confirmPassword"@, password),
        ("email"@, "loadtest_"@ + uid + "@example.com"@),
        ("name"@, "User_"@ + uid),
        ("password"@, password),
    ]
}

/// Builds the JSON registration payload for the user id `uid`: name
/// `User_<uid>`, e-mail `loadtest_<uid>@example.com`, and password and
/// password confirmation `Pass_<uid>!123`.
pub fn registration_payload(uid: &str) -> (r: String)
    ensures
        r@ == json_object_text(registration_fields(uid@)),
        is_plain_text(uid@) ==> r@ == plain_object_text(registration_fields(uid@)),
{
    let mut password = String::from_str("Pass_");
    password.append(uid);
    password.append("!123");
    let mut email = String::from_str("loadtest_");
    email.append(uid);
    email.append("@example.com");
    let mut name = String::from_str("User_");
    name.append(uid);
    let confirm = password.clone();
    let fields: Vec<(String, String)> = vec![
        (String::from_str("confirmPassword"), confirm),
        (String::from_str("email"), email),
        (String::from_str("name"), name),
        (String::from_str("password"), password),
    ];
    proof {
        assert(fields.deep_view() =~= registration_fields(uid@));
        if is_plain_text(uid@) {
            lemma_registration_fields_plain(uid@);
        }
    }
    string_object_json(&fields)
}

/// For every user id, the registration fields are, in order:
/// `confirmPassword` and `password`, both `Pass_<uid>!123` (so equal),
/// `email` `loadtest_<uid>@example.com`, and `name` `User_<uid>`.
pub proof fn lemma_registration_fields_content(uid: Seq<char>)
    ensures
        registration_fields(uid).len() == 4,
        registration_fields(uid)[0] == ("confirmPassword"@, "Pass_"@ + uid + "!123"@),
        registration_fields(uid)[1] == ("email"@, "loadtest_"@ + uid + "@example.com"@),
        registration_fields(uid)[2] == ("name"@, "User_"@ + uid),
        registration_fields(uid)[3] == ("password"@, "Pass_"@ + uid + "!123"@),
        registration_fields(uid)[0].1 == registration_fields(uid)[3].1,
{
}

/// The registration payload of an id is the JSON object text
/// `{"confirmPassword":"Pass_<uid>!123","email":"loadtest_<uid>@example.com","name":"User_<uid>","password":"Pass_<uid>!123"}`.
pub proof fn lemma_registration_text(uid: Seq<char>)
    ensures
        plain_object_text(registration_fields(uid)) == "{\"confirmPassword\":\"Pass_"@ + uid
            + "!123\",\"email\":\"loadtest_"@ + uid + "@example.com\",\"name\":\"User_"@ + uid
            + "\",\"password\":\"Pass_"@ + uid + "!123\"}"@,
{
    reveal_strlit("Pass_");
    reveal_strlit("!123");
    reveal_strlit("loadtest_");
    reveal_strlit("@example.com");
    reveal_strlit("User_");
    reveal_strlit("confirmPassword");
    reveal_strlit("email");
    reveal_strlit("name");
    reveal_strlit("password");
    reveal_strlit("{\"confirmPassword\":\"Pass_");
    reveal_strlit("!123\",\"email\":\"loadtest_");
    reveal_strlit("@example.com\",\"name\":\"User_");
    reveal_strlit("\",\"password\":\"Pass_");
    reveal_strlit("!123\"}");
    let f = registration_fields(uid);
    assert(f.drop_last().drop_last().drop_last().len() == 1);
    assert(f.drop_last().drop_last().drop_last()[0] == f[0]);
    assert(f.drop_last().drop_last()[1] == f[1]);
    assert(f.drop_last()[2] == f[2]);
    let m0 = member_text(f[0]);
    let m1 = member_text(f[1]);
    let m2 = member_text(f[2]);
    let m3 = member_text(f[3]);
    assert(members_text(f.drop_last().drop_last().drop_last()) == m0);
    assert(members_text(f.drop_last().drop_last()) == m0 + seq![','] + m1);
    assert(members_text(f.drop_last()) == m0 + seq![','] + m1 + seq![','] + m2);
    assert(members_text(f) == m0 + seq![','] + m1 + seq![','] + m2 + seq![','] + m3);
    assert(plain_object_text(f) =~= "{\"confirmPassword\":\"Pass_"@ + uid + "!123\",\"email\":\"loadtest_"@
        + uid + "@example.com\",\"name\":\"User_"@ + uid + "\",\"password\":\"Pass_"@ + uid
        + "!123\"}"@);
}

/// The registration fields of a plain id are plain, and their keys ascend.
pub proof fn lemma_registration_fields_plain(uid: Seq<char>)
    requires
        is_plain_text(uid),
    ensures
        all_plain(registration_fields(uid)),
        keys_ascending(registration_fields(uid)),
{
    reveal_strlit("Pass_");
    reveal_strlit("!123");
    reveal_strlit("loadtest_");
    reveal_strlit("@example.com");
    reveal_strlit("User_");
    reveal_strlit("confirmPassword");
    reveal_strlit("email");
    reveal_strlit("name");
    reveal_strlit("password");
    let f = registration_fields(uid);
    assert forall|i: int| 0 <= i < f.len() implies is_plain_text(#[trigger] f[i].0) && is_plain_text(
        f[i].1,
    ) by {
        assert forall|k: int| 0 <= k < f[i].1.len() implies is_plain_char(#[trigger] f[i].1[k]) by {
            if i == 0 || i == 3 {
                if k >= 5 && k < 5 + uid.len() {
                    assert(f[i].1[k] == uid[k - 5]);
                }
            } else if i == 1 {
                if k >= 9 && k < 9 + uid.len() {
                    assert(f[i].1[k] == uid[k - 9]);
                }
            } else {
                if k >= 5 {
                    assert(f[i].1[k] == uid[k - 5]);
                }
            }
        }
    }
    assert(text_less(f[0].0, f[1].0));
    assert(text_less(f[1].0, f[2].0));
    assert(text_less(f[2].0, f[3].0));
    assert(text_less(f[0].0, f[2].0));
    assert(text_less(f[0].0, f[3].0));
    assert(text_less(f[1].0, f[3].0));
}


/// The payload of a request of `scenario` whose fresh identifier text was `id`:
/// the registration of the user whose id is the first 8 characters of `id`,
/// nothing, or the custom body.
pub open spec fn payload_for(scenario: ScenarioKind, id: Seq<char>) -> Option<Seq<char>> {
    match scenario {
        ScenarioKind::UserRegistration => Some(plain_object_text(registration_fields(id.take(8)))),
        ScenarioKind::SimpleGet => None,
        ScenarioKind::CustomJson { body } => Some(body@),
    }
}

/// `payload` is what a request of `scenario` carries when its fresh
/// identifier text was `id`.
pub open spec fn payload_drawn(scenario: ScenarioKind, id: Seq<char>, payload: Option<String>) -> bool {
    payload_for(scenario, id) == opt_text(payload)
}

/// The text of an optional string.
pub open spec fn opt_text(o: Option<String>) -> Option<Seq<char>> {
    match o {
        Some(s) => Some(s@),
        None => None,
    }
}

/// The payload of one request. A registration draws a fresh random UUID,
/// so every registration request carries a user of its own; its id is the
/// first 8 hex digits of the UUID.
pub fn generate_payload(scenario: &ScenarioKind) -> (r: Option<String>)
    ensures
        exists|id: Seq<char>| is_v4_uuid_text(id) && #[trigger] payload_drawn(*scenario, id, r),
{
    match scenario {
        ScenarioKind::UserRegistration => {
            let id = new_v4_uuid_text();
            let uid = id.as_str().substring_char(0, 8);
            proof {
                assert(uid@ =~= id@.take(8));
                lemma_uuid_prefix_plain(id@);
            }
            let payload = registration_payload(uid);
            let r = Some(payload);
            assert(is_v4_uuid_text(id@));
            assert(payload_drawn(*scenario, id@, r));
            r
        },
        ScenarioKind::SimpleGet => {
            let r = None;
            proof {
                let id = sample_uuid_text();
                assert(payload_drawn(*scenario, id, r));
            }
            r
        },
        ScenarioKind::CustomJson { body } => {
            let r = Some(body.clone());
            proof {
                let id = sample_uuid_text();
                assert(payload_drawn(*scenario, id, r));
            }
            r
        },
    }
}

/// The first 8 characters of a UUID text are plain hex digits.
proof fn lemma_uuid_prefix_plain(id: Seq<char>)
    requires
        is_v4_uuid_text(id),
    ensures
        is_plain_text(id.take(8)),
{
    assert forall|i: int| 0 <= i < id.take(8).len() implies is_plain_char(#[trigger] id.take(8)[i]) by {
        assert(id.take(8)[i] == id[i]);
        assert(is_lower_hex_digit(id[i]));
    }
}

/// A text with the shape of a version-4 UUID.
proof fn sample_uuid_text() -> (id: Seq<char>)
    ensures
        is_v4_uuid_text(id),
{
    let id = Seq::new(
        36,
        |i: int|
            if i == 8 || i == 13 || i == 18 || i == 23 {
                '-'
            } else if i == 19 {
                '8'
            } else {
                '4'
            },
    );
    assert(is_v4_uuid_text(id));
    id
}

/// Distinct user ids give distinct registration fields: the id can be read
/// back from the user name.
pub proof fn lemma_registration_fields_injective(a: Seq<char>, b: Seq<char>)
    requires
        registration_fields(a) == registration_fields(b),
    ensures
        a == b,
{
    reveal_strlit("User_");
    let na = registration_fields(a)[2].1;
    let nb = registration_fields(b)[2].1;
    assert(na == nb);
    assert(a =~= na.skip(5));
    assert(b =~= nb.skip(5));
}

/// What one request sends: its method, whether it declares a JSON body, and
/// the body.
#[derive(Debug, Clone)]
pub struct PreparedRequest {
    pub method: HttpMethod,
    pub json_content_type: bool,
    pub body: Option<String>,
}

/// Prepares one request of a run: a payload is drawn for every request; a
/// GET sends no body and no content type, a POST declares a JSON content type
/// and sends the payload when there is one.
pub fn prepare_request(method: HttpMethod, scenario: &ScenarioKind) -> (r: PreparedRequest)
    ensures
        r.method == method,
        r.json_content_type == (method == HttpMethod::Post),
        method == HttpMethod::Get ==> r.body is None,
        method == HttpMethod::Post ==> exists|id: Seq<char>|
            is_v4_uuid_text(id) && #[trigger] payload_drawn(*scenario, id, r.body),
{
    let payload = generate_payload(scenario);
    match method {
        HttpMethod::Get => PreparedRequest { method, json_content_type: false, body: None },
        HttpMethod::Post => PreparedRequest { method, json_content_type: true, body: payload },
    }
}

} // verus!
