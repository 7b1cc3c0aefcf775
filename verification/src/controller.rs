//! The controller of the Clash core: which HTTP request each of its
//! operations sends over the core's Unix socket, and how an answer's status
//! is judged.

use std::sync::Arc;
use vstd::prelude::*;
use crate::model::{mode_name, Mode};
use crate::external::{
    canonical_reason, json_object_bytes, json_object_to_vec, status_reason, url_encode, url_encoded,
};
use crate::text::{
    decimal, digits_value, all_digits, push_decimal, push_signed_decimal, signed_decimal,
    signed_decimal_denotes_its_number,
};

verus! {

/// HTTP methods that the controller uses.
#[derive(Debug, Clone, Copy, PartialEq, Eq, Structural)]
pub enum HttpMethod {
    Get,
    Put,
    Patch,
}

impl HttpMethod {
    /// The method's name as it goes on the wire.
    pub fn as_str(&self) -> (r: &'static str)
        ensures
            r@ == method_name(*self),
    {
        match self {
            HttpMethod::Get => "GET",
            HttpMethod::Put => "PUT",
            HttpMethod::Patch => "PATCH",
        }
    }
}

pub open spec fn method_name(m: HttpMethod) -> Seq<char> {
    match m {
        HttpMethod::Get => "GET"@,
        HttpMethod::Put => "PUT"@,
        HttpMethod::Patch => "PATCH"@,
    }
}

/// A request to the Clash API: method, path (with query) and JSON body.
#[derive(Debug)]
pub struct ApiRequest {
    pub method: HttpMethod,
    pub path: String,
    pub body: Option<Vec<u8>>,
}

pub struct ApiRequestView {
    pub method: HttpMethod,
    pub path: Seq<char>,
    pub body: Option<Seq<u8>>,
}

impl View for ApiRequest {
    type V = ApiRequestView;

    open spec fn view(&self) -> ApiRequestView {
        ApiRequestView { method: self.method, path: self.path@, body: self.body.deep_view() }
    }
}

/// A request without a body.
pub open spec fn bodiless(method: HttpMethod, path: Seq<char>) -> ApiRequestView {
    ApiRequestView { method, path, body: None }
}

/// Errors that the controller's own logic produces.
#[derive(Debug)]
pub enum ClashError {
    /// The core answered with a status outside 200..=299.
    HttpStatus { code: u16, message: String },
    /// A request body could not be serialised.
    Serialize,
}

/// The test URL of a delay test when the caller gives none.
pub open spec fn default_delay_url() -> Seq<char> {
    "http://www.gstatic.com/generate_204"@
}

/// The timeout of a delay test, in milliseconds, when the caller gives none.
pub const DEFAULT_DELAY_TIMEOUT_MS: i32 = 5000;

/// The path of a delay test of proxy `name` against `url` with `timeout`.
pub open spec fn delay_path(name: Seq<char>, url: Seq<char>, timeout: i32) -> Seq<char> {
    "/proxies/"@ + url_encoded(name) + "/delay?url="@ + url_encoded(url) + "&timeout="@
        + signed_decimal(timeout as int)
}

/// The query of a delay test ends with `&timeout=` followed by the
/// caller's timeout, written in decimal (with a `-` when negative), for
/// every timeout: nothing caps or rewrites it.
pub proof fn delay_query_carries_timeout(name: Seq<char>, url: Seq<char>, timeout: i32)
    ensures
        ({
            let p = delay_path(name, url, timeout);
            let d = signed_decimal(timeout as int);
            let key = "&timeout="@;
            &&& p.len() >= key.len() + d.len()
            &&& p.subrange(p.len() - d.len() - key.len(), p.len() - d.len()) == key
            &&& p.skip(p.len() - d.len()) == d
            &&& timeout < 0 ==> d[0] == '-' && digits_value(d.drop_first()) == -timeout
            &&& timeout >= 0 ==> all_digits(d) && digits_value(d) == timeout
        }),
{
    let d = signed_decimal(timeout as int);
    let key = "&timeout="@;
    let front = "/proxies/"@ + url_encoded(name) + "/delay?url="@ + url_encoded(url);
    let p = delay_path(name, url, timeout);
    assert(p == front + key + d);
    assert(p.subrange(p.len() - d.len() - key.len(), p.len() - d.len()) =~= key);
    assert(p.skip(p.len() - d.len()) =~= d);
    signed_decimal_denotes_its_number(timeout as int);
}

/// The text of the error for an unsuccessful status: the code, then its
/// reason phrase (or a placeholder for codes without one).
pub open spec fn status_error_message(code: u16) -> Seq<char> {
    "HTTP status error: "@ + decimal(code as nat) + " "@ + match canonical_reason(code) {
        Some(reason) => reason,
        None => "<unknown status code>"@,
    }
}

/// The status error's message carries the status code: after the fixed
/// `HTTP status error: ` come the decimal digits of the code, then a space.
pub proof fn status_error_message_names_code(code: u16)
    ensures
        ({
            let m = status_error_message(code);
            let head = "HTTP status error: "@;
            let d = decimal(code as nat);
            &&& m.len() > head.len() + d.len()
            &&& m.take(head.len() as int) == head
            &&& m.subrange(head.len() as int, (head.len() + d.len()) as int) == d
            &&& all_digits(d) && digits_value(d) == code
            &&& m[(head.len() + d.len()) as int] == ' '
        }),
{
    let head = "HTTP status error: "@;
    let d = decimal(code as nat);
    let reason = match canonical_reason(code) {
        Some(r) => r,
        None => "<unknown status code>"@,
    };
    let m = status_error_message(code);
    assert(m == head + d + " "@ + reason);
    reveal_strlit(" ");
    assert(m.take(head.len() as int) =~= head);
    assert(m.subrange(head.len() as int, (head.len() + d.len()) as int) =~= d);
    assert(m[(head.len() + d.len()) as int] == (" "@)[0]);
    crate::text::decimal_denotes_its_number(code as nat);
}

/// Whether a status code reports success (200 to 299).
pub open spec fn is_success(code: u16) -> bool {
    200 <= code < 300
}

/// Client of the Clash HTTP API reached over a Unix domain socket.
#[derive(Debug)]
pub struct ClashController {
    socket_path: String,
}

impl View for ClashController {
    type V = Seq<char>;

    /// The path of the socket.
    closed spec fn view(&self) -> Seq<char> {
        self.socket_path@
    }
}

fn owned(s: &str) -> (r: String)
    ensures
        r@ == s@,
{
    s.to_owned()
}

impl ClashController {
    /// A controller for the core listening on `socket_path`.
    pub fn new(socket_path: String) -> (r: Arc<ClashController>)
        ensures
            r@ == socket_path@,
    {
        Arc::new(ClashController { socket_path })
    }

    /// The path of the socket.
    pub fn socket_path(&self) -> (r: &str)
        ensures
            r@ == self@,
    {
        self.socket_path.as_str()
    }

    /// `GET /proxies`.
    pub fn proxies_request(&self) -> (r: ApiRequest)
        ensures
            r@ == bodiless(HttpMethod::Get, "/proxies"@),
    {
        ApiRequest { method: HttpMethod::Get, path: owned("/proxies"), body: None }
    }

    /// Selecting `proxy_name` in the group `group_name`:
    /// `PUT /proxies/{group}` with the body `{"name": proxy_name}`.
    pub fn select_proxy_request(&self, group_name: String, proxy_name: String) -> (r: Result<
        ApiRequest,
        ClashError,
    >)
        ensures
            r matches Ok(req) && req@ == (ApiRequestView {
                method: HttpMethod::Put,
                path: "/proxies/"@ + url_encoded(group_name@),
                body: Some(json_object_bytes(seq![("name"@, proxy_name@)])),
            }),
    {
        let mut members: Vec<(String, String)> = Vec::new();
        members.push((owned("name"), proxy_name));
        assert(members.deep_view() =~= seq![("name"@, proxy_name@)]);
        let body = match json_object_to_vec(&members) {
            Ok(b) => b,
            Err(_) => {
                return Err(ClashError::Serialize);
            },
        };
        assert(body.deep_view() =~= body@);
        let mut path = owned("/proxies/");
        path.append(url_encode(group_name.as_str()).as_str());
        Ok(ApiRequest { method: HttpMethod::Put, path, body: Some(body) })
    }

    /// A delay test of proxy `name`: `GET /proxies/{name}/delay` with the
    /// test URL (by default `http://www.gstatic.com/generate_204`) and the
    /// timeout (by default 5000 ms) as query parameters.
    pub fn proxy_delay_request(&self, name: String, url: Option<String>, timeout: Option<i32>) -> (r:
        ApiRequest)
        ensures
            r@ == bodiless(
                HttpMethod::Get,
                delay_path(
                    name@,
                    match url {
                        Some(u) => u@,
                        None => default_delay_url(),
                    },
                    match timeout {
                        Some(t) => t,
                        None => DEFAULT_DELAY_TIMEOUT_MS,
                    },
                ),
            ),
    {
        let test_url = match url {
            Some(u) => u,
            None => owned("http://www.gstatic.com/generate_204"),
        };
        let timeout_ms: i32 = match timeout {
            Some(t) => t,
            None => DEFAULT_DELAY_TIMEOUT_MS,
        };
        let mut path = owned("/proxies/");
        path.append(url_encode(name.as_str()).as_str());
        path.append("/delay?url=");
        path.append(url_encode(test_url.as_str()).as_str());
        path.append("&timeout=");
        push_signed_decimal(&mut path, timeout_ms as i64);
        ApiRequest { method: HttpMethod::Get, path, body: None }
    }

    /// `GET /memory`.
    pub fn memory_request(&self) -> (r: ApiRequest)
        ensures
            r@ == bodiless(HttpMethod::Get, "/memory"@),
    {
        ApiRequest { method: HttpMethod::Get, path: owned("/memory"), body: None }
    }

    /// `GET /connections`.
    pub fn connections_request(&self) -> (r: ApiRequest)
        ensures
            r@ == bodiless(HttpMethod::Get, "/connections"@),
    {
        ApiRequest { method: HttpMethod::Get, path: owned("/connections"), body: None }
    }

    /// `GET /configs`.
    pub fn configs_request(&self) -> (r: ApiRequest)
        ensures
            r@ == bodiless(HttpMethod::Get, "/configs"@),
    {
        ApiRequest { method: HttpMethod::Get, path: owned("/configs"), body: None }
    }

    /// Updating the configuration with the given (key, value) settings:
    /// `PATCH /configs` with the settings as a JSON object of strings.
    pub fn update_config_request(&self, config: Vec<(String, String)>) -> (r: Result<
        ApiRequest,
        ClashError,
    >)
        ensures
            r matches Ok(req) && req@ == (ApiRequestView {
                method: HttpMethod::Patch,
                path: "/configs"@,
                body: Some(json_object_bytes(config.deep_view())),
            }),
    {
        let body = match json_object_to_vec(&config) {
            Ok(b) => b,
            Err(_) => {
                return Err(ClashError::Serialize);
            },
        };
        assert(body.deep_view() =~= body@);
        Ok(ApiRequest { method: HttpMethod::Patch, path: owned("/configs"), body: Some(body) })
    }

    /// Switching the proxy mode: the configuration update that sets `mode`
    /// to the mode's lower-case name.
    pub fn set_mode_request(&self, mode: Mode) -> (r: Result<ApiRequest, ClashError>)
        ensures
            r matches Ok(req) && req@ == (ApiRequestView {
                method: HttpMethod::Patch,
                path: "/configs"@,
                body: Some(json_object_bytes(seq![("mode"@, mode_name(mode))])),
            }),
    {
        let mut config: Vec<(String, String)> = Vec::new();
        config.push((owned("mode"), owned(mode.as_str())));
        assert(config.deep_view() =~= seq![("mode"@, mode_name(mode))]);
        self.update_config_request(config)
    }
}

/// Judges the status of an answer: success for 200 to 299, otherwise the
/// status error, whose message names the code and its reason phrase.
pub fn check_status(code: u16) -> (r: Result<(), ClashError>)
    ensures
        r is Ok <==> is_success(code),
        r matches Err(e) ==> e matches ClashError::HttpStatus { code: c, message: m } && c == code
            && m@ == status_error_message(code),
{
    if 200 <= code && code < 300 {
        return Ok(());
    }
    let mut message = owned("HTTP status error: ");
    push_decimal(&mut message, code as u64);
    message.append(" ");
    match status_reason(code) {
        Some(reason) => message.append(reason.as_str()),
        None => message.append("<unknown status code>"),
    }
    Err(ClashError::HttpStatus { code, message })
}

} // verus!
