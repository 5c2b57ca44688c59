//! Request handling decisions of the config UI: routing, the captive-portal
//! redirect, and the replies of the config-group and single-field endpoints
//! (the I/O between the steps is done by the caller).
use vstd::prelude::*;
use vstd::utf8::encode_utf8;
use crate::portal::query::path_only_spec;
use crate::portal::query::path_only;
use crate::strs::{chars_of, chars_skip, is_prefix, starts_with, str_eq, string_from_chars};

verus! {

// ---------------------------------------------------------------------------
// Access point addresses
// ---------------------------------------------------------------------------

/// AP IP address (gateway and DNS for clients).
pub const AP_IP_ADDRESS: [u8; 4] = [192, 168, 2, 1];

/// DNS server announced to DHCP clients.
pub const AP_DNS_ADDRESS: [u8; 4] = [192, 168, 2, 1];

/// First address leased to clients.
pub const AP_POOL_START: [u8; 4] = [192, 168, 2, 100];

/// Last address leased to clients.
pub const AP_POOL_END: [u8; 4] = [192, 168, 2, 200];

/// Host name used for captive redirect (the AP IP as text).
pub const AP_HOST_NAME: &'static str = "192.168.2.1";

/// URL to which non-captive requests are redirected.
pub const AP_URL: &'static str = "http://192.168.2.1/";

/// Status of the captive-portal redirect.
pub const REDIRECT_STATUS: u16 = 307;

// ---------------------------------------------------------------------------
// Routing
// ---------------------------------------------------------------------------

/// The endpoint a request path selects.
pub enum Route {
    /// `GET /`: the config page.
    ConfigPage,
    /// `GET /config-group/<group>`: group JSON, or set via `?set=`.
    ConfigGroup(String),
    /// `GET /config/<field>`: one field, or set via `?set=`.
    ConfigField(String),
    /// Anything else: 404 `Not Found`.
    NotFound,
}

/// Prefix of the config-group endpoint.
pub const GROUP_PREFIX: &'static str = "/config-group/";

/// Prefix of the single-field endpoint.
pub const FIELD_PREFIX: &'static str = "/config/";

/// Body of the 404 reply.
pub const NOT_FOUND_BODY: &'static str = "Not Found";

/// The route of a full request path (query string ignored).
pub open spec fn route_matches(full: Seq<char>, r: Route) -> bool {
    let path = path_only_spec(full);
    if path == "/"@ {
        r is ConfigPage
    } else if is_prefix(GROUP_PREFIX@, path) {
        r matches Route::ConfigGroup(g) && g@ == path.skip(GROUP_PREFIX@.len() as int)
    } else if is_prefix(FIELD_PREFIX@, path) {
        r matches Route::ConfigField(f) && f@ == path.skip(FIELD_PREFIX@.len() as int)
    } else {
        r is NotFound
    }
}

/// Routes a request by the path part of its full path.
pub fn route(full_path: &str) -> (r: Route)
    ensures
        route_matches(full_path@, r),
{
    let path = path_only(full_path);
    if str_eq(path, "/") {
        return Route::ConfigPage;
    }
    let p = chars_of(path);
    let g = chars_of(GROUP_PREFIX);
    if starts_with(&p, &g) {
        let rest = chars_skip(&p, g.len());
        return Route::ConfigGroup(string_from_chars(&rest));
    }
    let f = chars_of(FIELD_PREFIX);
    if starts_with(&p, &f) {
        let rest = chars_skip(&p, f.len());
        return Route::ConfigField(string_from_chars(&rest));
    }
    Route::NotFound
}

// ---------------------------------------------------------------------------
// Captive portal
// ---------------------------------------------------------------------------

/// ASCII lower case of a byte; other bytes unchanged.
pub open spec fn lower_byte(b: u8) -> u8 {
    if 65 <= b && b <= 90 {
        (b + 32) as u8
    } else {
        b
    }
}

/// Equal up to ASCII case, byte by byte (as `str::eq_ignore_ascii_case`).
pub open spec fn eq_ignore_ascii_case_spec(a: Seq<u8>, b: Seq<u8>) -> bool {
    a.len() == b.len() && forall|i: int| 0 <= i < a.len() ==> lower_byte(#[trigger] a[i]) == lower_byte(b[i])
}

fn lower(b: u8) -> (r: u8)
    ensures
        r == lower_byte(b),
{
    if 65 <= b && b <= 90 {
        b + 32
    } else {
        b
    }
}

/// Whether two strings are equal up to ASCII case.
pub fn eq_ignore_ascii_case(a: &str, b: &str) -> (r: bool)
    ensures
        r == eq_ignore_ascii_case_spec(encode_utf8(a@), encode_utf8(b@)),
{
    let x = a.as_bytes();
    let y = b.as_bytes();
    if x.len() != y.len() {
        return false;
    }
    let mut i: usize = 0;
    while i < x.len()
        invariant
            x@ == encode_utf8(a@),
            y@ == encode_utf8(b@),
            x@.len() == y@.len(),
            i <= x@.len(),
            forall|j: int| 0 <= j < i ==> lower_byte(#[trigger] x@[j]) == lower_byte(y@[j]),
        decreases x@.len() - i,
    {
        if lower(x[i]) != lower(y[i]) {
            return false;
        }
        i = i + 1;
    }
    true
}

/// The value of the first header named `Host` (any ASCII case), if any.
pub open spec fn host_header(headers: Seq<(String, String)>) -> Option<Seq<char>>
    decreases headers.len(),
{
    if headers.len() == 0 {
        None
    } else if eq_ignore_ascii_case_spec(encode_utf8(headers[0].0@), encode_utf8("Host"@)) {
        Some(headers[0].1@)
    } else {
        host_header(headers.skip(1))
    }
}

/// A request is redirected to the AP when it names a `Host` other than the AP's.
pub open spec fn captive_redirect_spec(headers: Seq<(String, String)>) -> bool {
    match host_header(headers) {
        Some(h) => h != AP_HOST_NAME@,
        None => false,
    }
}

/// Whether a request with these headers is answered with a redirect to
/// `AP_URL` (status 307) instead of being served.
pub fn check_captive_redirect(headers: &Vec<(String, String)>) -> (r: bool)
    ensures
        r == captive_redirect_spec(headers@),
{
    let mut i: usize = 0;
    proof {
        assert(headers@.skip(0) =~= headers@);
    }
    while i < headers.len()
        invariant
            i <= headers.len(),
            host_header(headers@) == host_header(headers@.skip(i as int)),
        decreases headers.len() - i,
    {
        proof {
            assert(headers@.skip(i as int)[0] == headers@[i as int]);
            assert(headers@.skip(i as int).skip(1) =~= headers@.skip(i + 1));
        }
        if eq_ignore_ascii_case(headers[i].0.as_str(), "Host") {
            return !str_eq(headers[i].1.as_str(), AP_HOST_NAME);
        }
        i = i + 1;
    }
    false
}

// ---------------------------------------------------------------------------
// Config-group endpoint
// ---------------------------------------------------------------------------

/// Query for config-group endpoints: optional `set` body (JSON string).
pub struct ConfigQuery {
    /// If present, apply this JSON to the config group and persist.
    pub set: Option<String>,
}

/// Result from the config-group handler: either JSON success or an error.
pub enum ConfigGroupResult {
    /// 200 with JSON body.
    Json(String),
    /// Error with HTTP status code and message.
    Error(u16, String),
}

/// What the config-group handler learns from its last step.
pub enum GroupEvent {
    /// A request arrived; whether it carries `?set=`.
    Start(bool),
    /// `set_group_json` returned: whether the changed set is non-empty, or the error text.
    Applied(Result<bool, String>),
    /// `store_to` returned: the error text on failure.
    Stored(Result<(), String>),
    /// `get_group_json` returned: the JSON, or the error text.
    Read(Result<String, String>),
}

/// What the config-group handler does next.
pub enum GroupAction {
    /// Apply the `set` JSON to the group (`set_group_json`).
    Apply,
    /// Persist the config (`store_to`).
    Store,
    /// Send the changed set on the notify channel, then read the group.
    NotifyAndRead,
    /// Read the group as JSON (`get_group_json`).
    Read,
    /// Answer the request.
    Reply(ConfigGroupResult),
}

/// The config-group flow: a `set` is applied first; a failed apply is a 400;
/// the config is persisted only when the changed set is non-empty, a failed
/// store is a 500, and the change is notified only after a successful store;
/// then the group is read (200 with its JSON, or 400).
pub open spec fn group_step_spec(ev: GroupEvent, a: GroupAction) -> bool {
    match ev {
        GroupEvent::Start(has_set) => if has_set {
            a is Apply
        } else {
            a is Read
        },
        GroupEvent::Applied(Ok(changed)) => if changed {
            a is Store
        } else {
            a is Read
        },
        GroupEvent::Applied(Err(m)) => a matches GroupAction::Reply(ConfigGroupResult::Error(s, b))
            && s == 400 && b@ == m@,
        GroupEvent::Stored(Ok(())) => a is NotifyAndRead,
        GroupEvent::Stored(Err(m)) => a matches GroupAction::Reply(ConfigGroupResult::Error(s, b))
            && s == 500 && b@ == m@,
        GroupEvent::Read(Ok(j)) => a matches GroupAction::Reply(ConfigGroupResult::Json(b)) && b@ == j@,
        GroupEvent::Read(Err(m)) => a matches GroupAction::Reply(ConfigGroupResult::Error(s, b))
            && s == 400 && b@ == m@,
    }
}

/// The next step of the config-group handler after `ev`.
pub fn group_step(ev: GroupEvent) -> (a: GroupAction)
    ensures
        group_step_spec(ev, a),
{
    match ev {
        GroupEvent::Start(has_set) => if has_set {
            GroupAction::Apply
        } else {
            GroupAction::Read
        },
        GroupEvent::Applied(Ok(changed)) => if changed {
            GroupAction::Store
        } else {
            GroupAction::Read
        },
        GroupEvent::Applied(Err(m)) => GroupAction::Reply(ConfigGroupResult::Error(400, m)),
        GroupEvent::Stored(Ok(())) => GroupAction::NotifyAndRead,
        GroupEvent::Stored(Err(m)) => GroupAction::Reply(ConfigGroupResult::Error(500, m)),
        GroupEvent::Read(Ok(j)) => GroupAction::Reply(ConfigGroupResult::Json(j)),
        GroupEvent::Read(Err(m)) => GroupAction::Reply(ConfigGroupResult::Error(400, m)),
    }
}

// ---------------------------------------------------------------------------
// Single-field endpoint
// ---------------------------------------------------------------------------

/// A reply: status and plain-text body.
pub struct Reply {
    /// HTTP status.
    pub status: u16,
    /// Body text.
    pub body: String,
}

/// What `set_field` reported for the submitted value.
#[derive(Clone, Copy, PartialEq, Eq, Structural, Debug)]
pub enum FieldSetOutcome {
    /// Applied, and the changed set is non-empty.
    Changed,
    /// Accepted, nothing changed.
    Unchanged,
    /// Unknown key or invalid value.
    Rejected,
}

/// Body of the 400 reply of the single-field endpoint.
pub const INVALID_FIELD_BODY: &'static str = "Invalid key or value";

/// Whether a single-field set is persisted: only when something changed.
pub fn field_set_stores(outcome: FieldSetOutcome) -> (r: bool)
    ensures
        r == (outcome == FieldSetOutcome::Changed),
{
    outcome == FieldSetOutcome::Changed
}

/// Whether a single-field set is notified: a change that was stored.
pub fn field_set_notifies(outcome: FieldSetOutcome, store_ok: bool) -> (r: bool)
    ensures
        r == (outcome == FieldSetOutcome::Changed && store_ok),
{
    outcome == FieldSetOutcome::Changed && store_ok
}

/// The reply to a single-field set: 200 echoing the value when accepted (and
/// stored, when it changed something), 500 with no body when the store
/// failed, 400 `Invalid key or value` when rejected.
pub open spec fn field_set_reply_spec(value: Seq<char>, outcome: FieldSetOutcome, store_ok: bool, r: Reply) -> bool {
    match outcome {
        FieldSetOutcome::Rejected => r.status == 400 && r.body@ == INVALID_FIELD_BODY@,
        FieldSetOutcome::Unchanged => r.status == 200 && r.body@ == value,
        FieldSetOutcome::Changed => if store_ok {
            r.status == 200 && r.body@ == value
        } else {
            r.status == 500 && r.body@ == Seq::<char>::empty()
        },
    }
}

/// See `field_set_reply_spec`; `store_ok` matters only for a change.
pub fn field_set_reply(value: &str, outcome: FieldSetOutcome, store_ok: bool) -> (r: Reply)
    ensures
        field_set_reply_spec(value@, outcome, store_ok, r),
{
    match outcome {
        FieldSetOutcome::Rejected => Reply { status: 400, body: INVALID_FIELD_BODY.to_owned() },
        FieldSetOutcome::Unchanged => Reply { status: 200, body: value.to_owned() },
        FieldSetOutcome::Changed => if store_ok {
            Reply { status: 200, body: value.to_owned() }
        } else {
            Reply { status: 500, body: String::new() }
        },
    }
}

/// The reply to a single-field read: 200 with the value, or 404 with no body.
pub fn field_get_reply(value: Option<String>) -> (r: Reply)
    ensures
        match value {
            Some(v) => r.status == 200 && r.body@ == v@,
            None => r.status == 404 && r.body@ == Seq::<char>::empty(),
        },
{
    match value {
        Some(v) => Reply { status: 200, body: v },
        None => Reply { status: 404, body: String::new() },
    }
}

} // verus!
