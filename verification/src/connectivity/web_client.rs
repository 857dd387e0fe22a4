//! The broker endpoints and the login request.
use vstd::prelude::*;
use vstd::string::*;


verus! {

broadcast use to_string_from_display_ensures_for_str;

/// Which broker environment to talk to.
#[derive(Debug, Clone, Copy, PartialEq, Eq, Structural)]
pub enum EndPoint {
    Sandbox,
    Live,
}

impl Default for EndPoint {
    /// The sandbox.
    fn default() -> (e: Self)
        ensures
            e == EndPoint::Sandbox,
    {
        EndPoint::Sandbox
    }
}

/// The number an endpoint is stored under.
pub open spec fn endpoint_code(e: EndPoint) -> i32 {
    match e {
        EndPoint::Sandbox => 1,
        EndPoint::Live => 2,
    }
}

impl From<EndPoint> for i32 {
    fn from(val: EndPoint) -> (r: i32) {
        match val {
            EndPoint::Sandbox => 1,
            EndPoint::Live => 2,
        }
    }
}

impl vstd::std_specs::convert::FromSpecImpl<EndPoint> for i32 {
    open spec fn obeys_from_spec() -> bool {
        true
    }

    open spec fn from_spec(v: EndPoint) -> i32 {
        endpoint_code(v)
    }
}

impl EndPoint {
    /// The number the endpoint is stored under: 1 for the sandbox, 2 for live.
    pub fn to_i32(self) -> (r: i32)
        ensures
            r == endpoint_code(self),
    {
        i32::from(self)
    }

    /// The endpoint stored under `code`, which must be 1 or 2 (any other
    /// stored value is a corrupt record).
    pub fn from_code(code: i32) -> (e: EndPoint)
        requires
            code == 1 || code == 2,
        ensures
            endpoint_code(e) == code,
    {
        if code == 1 {
            EndPoint::Sandbox
        } else {
            EndPoint::Live
        }
    }
}

/// Reading back the stored number of an endpoint gives the endpoint.
pub proof fn lemma_endpoint_code_round_trip(e: EndPoint, f: EndPoint)
    ensures
        endpoint_code(e) == endpoint_code(f) <==> e == f,
        endpoint_code(e) == 1 || endpoint_code(e) == 2,
{
}

/// The REST host of an environment.
pub open spec fn http_host(e: EndPoint) -> Seq<char> {
    match e {
        EndPoint::Live => "api.tastyworks.com"@,
        EndPoint::Sandbox => "api.cert.tastyworks.com"@,
    }
}

/// The streaming host of an environment.
pub open spec fn ws_host(e: EndPoint) -> Seq<char> {
    match e {
        EndPoint::Live => "streamer.tastyworks.com"@,
        EndPoint::Sandbox => "streamer.cert.tastyworks.com"@,
    }
}

/// The REST and streaming hosts of an environment: production for live,
/// the certification hosts otherwise.
pub fn hosts_for(endpoint: EndPoint) -> (r: (String, String))
    ensures
        r.0@ == http_host(endpoint),
        r.1@ == ws_host(endpoint),
{
    if endpoint == EndPoint::Live {
        ("api.tastyworks.com".to_string(), "streamer.tastyworks.com".to_string())
    } else {
        ("api.cert.tastyworks.com".to_string(), "streamer.cert.tastyworks.com".to_string())
    }
}

/// Logging in with a password.
pub struct LoginCreds {
    pub username: String,
    pub password: String,
    pub remember_me: bool,
}

/// Logging in with a remember token.
pub struct LoginAuthToken {
    pub username: String,
    pub remember: String,
    pub remember_me: bool,
}

/// The login request to send.
pub enum LoginRequest {
    Password(LoginCreds),
    Token(LoginAuthToken),
}

/// The login request for a user: with the password where one was given,
/// else with the stored remember token; either asks to be remembered.
pub fn login_request(username: &str, remember: &str, password: Option<String>) -> (r: LoginRequest)
    ensures
        match password {
            Some(p) => r matches LoginRequest::Password(c) && c.username@ == username@
                && c.password@ == p@ && c.remember_me,
            None => r matches LoginRequest::Token(t) && t.username@ == username@ && t.remember@
                == remember@ && t.remember_me,
        },
{
    match password {
        Some(password) => LoginRequest::Password(
            LoginCreds { username: username.to_string(), password, remember_me: true },
        ),
        None => LoginRequest::Token(
            LoginAuthToken {
                username: username.to_string(),
                remember: remember.to_string(),
                remember_me: true,
            },
        ),
    }
}

/// The address of an endpoint: the base address, `/`, and the endpoint.
pub fn request_url(base_url: &str, endpoint: &str) -> (u: String)
    ensures
        u@ == base_url@ + seq!['/'] + endpoint@,
{
    let mut u = base_url.to_string();
    u.append("/");
    u.append(endpoint);
    proof {
        reveal_strlit("/");
    }
    u
}

/// The headers of a request, as name and value: with a session, its token as
/// the authorization and the client's product name and version; always the
/// JSON content type, last.
pub open spec fn headers_for(session: Option<Seq<char>>) -> Seq<(Seq<char>, Seq<char>)> {
    match session {
        Some(s) => seq![
            ("Authorization"@, s),
            ("product"@, "tasty-options-trader"@),
            ("version"@, "0.1"@),
            ("Content-Type"@, "application/json"@),
        ],
        None => seq![("Content-Type"@, "application/json"@)],
    }
}

/// The names and values of headers.
pub open spec fn headers_view(h: Seq<(String, String)>) -> Seq<(Seq<char>, Seq<char>)> {
    h.map_values(|p: (String, String)| (p.0@, p.1@))
}

/// The headers a request carries (see `headers_for`).
pub fn add_custom_headers(session: Option<&str>) -> (h: Vec<(String, String)>)
    ensures
        headers_view(h@) == headers_for(
            match session {
                Some(s) => Some(s@),
                None => None,
            },
        ),
{
    let mut h: Vec<(String, String)> = Vec::new();
    match session {
        Some(s) => {
            h.push(("Authorization".to_string(), s.to_string()));
            h.push(("product".to_string(), "tasty-options-trader".to_string()));
            h.push(("version".to_string(), "0.1".to_string()));
        },
        None => {},
    }
    h.push(("Content-Type".to_string(), "application/json".to_string()));
    proof {
        let hv = headers_view(h@);
        match session {
            Some(s) => {
                assert(hv =~= headers_for(Some(s@)));
            },
            None => {
                assert(hv =~= headers_for(None));
            },
        }
    }
    h
}

/// A response body is gzip-compressed (and is decompressed before reading).
pub fn is_gzip(content_encoding: Option<&str>) -> (b: bool)
    ensures
        b == (content_encoding matches Some(e) && e@ == "gzip"@),
{
    match content_encoding {
        Some(e) => crate::text::str_eq(e, "gzip"),
        None => false,
    }
}

/// The endpoint listing an account's positions.
pub fn positions_endpoint(account: &str) -> (e: String)
    ensures
        e@ == "accounts/"@ + account@ + "/positions"@,
{
    let mut e = "accounts/".to_string();
    e.append(account);
    e.append("/positions");
    e
}

/// The endpoint an account's orders are checked at before they are placed.
pub fn dry_run_order_endpoint(account: &str) -> (e: String)
    ensures
        e@ == "accounts/"@ + account@ + "/orders/dry-run"@,
{
    let mut e = "accounts/".to_string();
    e.append(account);
    e.append("/orders/dry-run");
    e
}

/// What `url::Url::parse` gives for a text, as the parsed URL's
/// serialization (scheme and host lowercased, an empty path written `/`, and
/// so on); `None` where it refuses the text.
pub uninterp spec fn url_serialization(text: Seq<char>) -> Option<Seq<char>>;

/// `url::Url::parse`, returning the parsed URL's serialization
/// (`Url::as_str`). The result is named by `url_serialization`; which texts
/// parse and how they are normalised is left to the name.
#[verifier::external_body]
pub(crate) fn parse_url(text: &str) -> (r: Option<String>)
    ensures
        match r {
            Some(u) => url_serialization(text@) == Some(u@),
            None => url_serialization(text@) is None,
        },
{
    match url::Url::parse(text) {
        Ok(u) => Some(u.as_str().to_string()),
        Err(_) => None,
    }
}

/// The parsed address of an endpoint (see `request_url`); `None` where the
/// address is not a valid URL (a request then fails).
pub fn endpoint_url(base_url: &str, endpoint: &str) -> (r: Option<String>)
    ensures
        match r {
            Some(u) => url_serialization(base_url@ + seq!['/'] + endpoint@) == Some(u@),
            None => url_serialization(base_url@ + seq!['/'] + endpoint@) is None,
        },
{
    let text = request_url(base_url, endpoint);
    parse_url(text.as_str())
}

/// The text a gzip-compressed body decompresses to, as `flate2`'s
/// `GzDecoder` read to a `String` gives it.
pub uninterp spec fn gunzip_text(body: Seq<u8>) -> Seq<char>;

/// Decompresses a gzip body with `flate2::read::GzDecoder` and reads it into a
/// `String` with `Read::read_to_string`, its error ignored (the string then
/// holds what `read_to_string` left in it). The text is named by
/// `gunzip_text`; the gzip format itself is left to it.
#[verifier::external_body]
pub fn gunzip_to_string(body: &Vec<u8>) -> (r: String)
    ensures
        r@ == gunzip_text(body@),
{
    let mut decoder = flate2::read::GzDecoder::new(&body[..]);
    let mut output = String::new();
    let _ = std::io::Read::read_to_string(&mut decoder, &mut output);
    output
}

/// The text of a response body that must be decompressed first: the
/// decompressed text where the content encoding is gzip, `None` otherwise (the
/// body is then read as it is).
pub fn response_text(content_encoding: Option<&str>, body: &Vec<u8>) -> (r: Option<String>)
    ensures
        (content_encoding matches Some(e) && e@ == "gzip"@) ==> (r matches Some(t) && t@
            == gunzip_text(body@)),
        !(content_encoding matches Some(e) && e@ == "gzip"@) ==> r is None,
{
    if is_gzip(content_encoding) {
        Some(gunzip_to_string(body))
    } else {
        None
    }
}


/// Every request says its body is JSON, as its last header; a request made
/// in a session carries the session's token, unchanged, as its authorization,
/// and one made outside a session carries no authorization at all.
pub proof fn lemma_headers_carry_session(session: Option<Seq<char>>)
    ensures
        headers_for(session).len() > 0,
        headers_for(session).last() == ("Content-Type"@, "application/json"@),
        session matches Some(s) ==> headers_for(session).contains(("Authorization"@, s)),
        session is None ==> forall|i: int|
            0 <= i < headers_for(session).len() ==> (#[trigger] headers_for(session)[i]).0
                != "Authorization"@,
{
    reveal_strlit("Authorization");
    reveal_strlit("Content-Type");
    match session {
        Some(s) => {
            assert(headers_for(session)[0] == ("Authorization"@, s));
        },
        None => {
            assert("Content-Type"@[0] != "Authorization"@[0]);
        },
    }
}

} // verus!
