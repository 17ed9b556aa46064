//! The application-service HTTP interface: which endpoints exist, which
//! method each accepts, the homeserver bearer check, and what each request
//! is answered.
use vstd::prelude::*;
use vstd::string::*;
use vstd::utf8::encode_utf8;

verus! {

/// Error codes of the Matrix client-server error format used in replies.
#[derive(Clone, Copy, Debug, PartialEq, Eq, Structural)]
pub enum MatrixErrorCode {
    MForbidden,
    MUnrecognized,
}

/// A Matrix error reply: an error code and a human-readable message.
#[derive(Clone, Debug, PartialEq, Eq)]
pub struct MatrixError {
    pub errcode: MatrixErrorCode,
    pub error: String,
}

/// `MatrixError` with the given code and message.
pub open spec fn is_matrix_error(e: MatrixError, code: MatrixErrorCode, msg: Seq<char>) -> bool {
    e.errcode == code && e.error@ == msg
}

/// The body of a reply, before it is written as JSON.
#[derive(Clone, Debug, PartialEq, Eq)]
pub enum ReplyBody {
    /// No body at all.
    Empty,
    /// The empty JSON object `{}`.
    EmptyObject,
    /// The greeting `{"hello":"world"}` of the root path.
    Greeting,
    /// A Matrix error object.
    Error(MatrixError),
}

/// A status code and a body.
#[derive(Clone, Debug, PartialEq, Eq)]
pub struct Reply {
    pub status: u16,
    pub body: ReplyBody,
}

/// `r` is the error reply with this status, code and message.
pub open spec fn is_error_reply(r: Reply, status: u16, code: MatrixErrorCode, msg: Seq<char>) -> bool {
    &&& r.status == status
    &&& r.body matches ReplyBody::Error(e)
    &&& is_matrix_error(e, code, msg)
}

/// Request methods, as far as the endpoints tell them apart.
#[derive(Clone, Copy, Debug, PartialEq, Eq, Structural)]
pub enum Method {
    Get,
    Head,
    Post,
    Put,
    Delete,
    Options,
    Patch,
    Trace,
    Connect,
    Other,
}

/// The endpoints that the application service serves.
#[derive(Clone, Copy, Debug, PartialEq, Eq, Structural)]
pub enum Endpoint {
    Root,
    MatrixRoot,
    User,
    Transaction,
    Room,
    ThirdpartyProtocol,
    Ping,
    ThirdpartyLocation,
    ThirdpartyLocationProtocol,
    ThirdpartyUser,
    ThirdpartyUserProtocol,
}

/// The method that an endpoint is written for.
pub open spec fn endpoint_method(e: Endpoint) -> Method {
    match e {
        Endpoint::Transaction => Method::Put,
        Endpoint::Ping => Method::Post,
        _ => Method::Get,
    }
}

/// An endpoint accepts its own method; one written for GET accepts HEAD too
/// (it is answered as GET, without the body).
pub open spec fn accepts_method(e: Endpoint, m: Method) -> bool {
    m == endpoint_method(e) || (endpoint_method(e) == Method::Get && m == Method::Head)
}

/// The path pattern of each endpoint (`:name` stands for one path segment).
pub open spec fn endpoint_path(e: Endpoint) -> Seq<char> {
    match e {
        Endpoint::Root => "/"@,
        Endpoint::MatrixRoot => "/_matrix/"@,
        Endpoint::User => "/_matrix/app/v1/users/:userId"@,
        Endpoint::Transaction => "/_matrix/app/v1/transactions/:txnId"@,
        Endpoint::Room => "/_matrix/app/v1/rooms/:room"@,
        Endpoint::ThirdpartyProtocol => "/_matrix/app/v1/thirdparty/protocol/:protocol"@,
        Endpoint::Ping => "/_matrix/app/v1/ping"@,
        Endpoint::ThirdpartyLocation => "/_matrix/app/v1/thirdparty/location"@,
        Endpoint::ThirdpartyLocationProtocol => "/_matrix/app/v1/thirdparty/location/:protocol"@,
        Endpoint::ThirdpartyUser => "/_matrix/app/v1/thirdparty/user"@,
        Endpoint::ThirdpartyUserProtocol => "/_matrix/app/v1/thirdparty/user/:protocol"@,
    }
}

/// All endpoints, in the order in which they are routed.
pub open spec fn all_endpoints() -> Seq<Endpoint> {
    seq![
        Endpoint::Root,
        Endpoint::MatrixRoot,
        Endpoint::User,
        Endpoint::Transaction,
        Endpoint::Room,
        Endpoint::ThirdpartyProtocol,
        Endpoint::Ping,
        Endpoint::ThirdpartyLocation,
        Endpoint::ThirdpartyLocationProtocol,
        Endpoint::ThirdpartyUser,
        Endpoint::ThirdpartyUserProtocol,
    ]
}

impl Endpoint {
    /// The path pattern under which this endpoint is routed.
    pub fn path(&self) -> (p: &'static str)
        ensures
            p@ == endpoint_path(*self),
    {
        match self {
            Endpoint::Root => "/",
            Endpoint::MatrixRoot => "/_matrix/",
            Endpoint::User => "/_matrix/app/v1/users/:userId",
            Endpoint::Transaction => "/_matrix/app/v1/transactions/:txnId",
            Endpoint::Room => "/_matrix/app/v1/rooms/:room",
            Endpoint::ThirdpartyProtocol => "/_matrix/app/v1/thirdparty/protocol/:protocol",
            Endpoint::Ping => "/_matrix/app/v1/ping",
            Endpoint::ThirdpartyLocation => "/_matrix/app/v1/thirdparty/location",
            Endpoint::ThirdpartyLocationProtocol => "/_matrix/app/v1/thirdparty/location/:protocol",
            Endpoint::ThirdpartyUser => "/_matrix/app/v1/thirdparty/user",
            Endpoint::ThirdpartyUserProtocol => "/_matrix/app/v1/thirdparty/user/:protocol",
        }
    }

    /// Whether this endpoint serves requests of method `m`.
    pub fn accepts(&self, m: Method) -> (ok: bool)
        ensures
            ok == accepts_method(*self, m),
    {
        match self {
            Endpoint::Transaction => m == Method::Put,
            Endpoint::Ping => m == Method::Post,
            _ => m == Method::Get || m == Method::Head,
        }
    }
}

/// The endpoints to route, in order.
pub fn matrix_routes() -> (routes: Vec<Endpoint>)
    ensures
        routes@ == all_endpoints(),
{
    let routes = vec![
        Endpoint::Root,
        Endpoint::MatrixRoot,
        Endpoint::User,
        Endpoint::Transaction,
        Endpoint::Room,
        Endpoint::ThirdpartyProtocol,
        Endpoint::Ping,
        Endpoint::ThirdpartyLocation,
        Endpoint::ThirdpartyLocationProtocol,
        Endpoint::ThirdpartyUser,
        Endpoint::ThirdpartyUserProtocol,
    ];
    assert(routes@ =~= all_endpoints());
    routes
}

/// A byte that may stand in an HTTP header value: a tab, or any byte from
/// 32 up other than 127.
pub open spec fn header_byte_ok(b: u8) -> bool {
    (b >= 32 && b != 127) || b == 9
}

/// Bytes that form a valid HTTP header value.
pub open spec fn header_bytes_ok(bytes: Seq<u8>) -> bool {
    forall|i: int| 0 <= i < bytes.len() ==> header_byte_ok(#[trigger] bytes[i])
}

/// The scheme word and space in front of a bearer token.
pub open spec fn bearer_prefix() -> Seq<char> {
    seq!['B', 'e', 'a', 'r', 'e', 'r', ' ']
}

/// The `Authorization` header value that carries `token`: `Bearer <token>`,
/// as UTF-8 bytes.
pub open spec fn bearer_header(token: Seq<char>) -> Seq<u8> {
    encode_utf8(bearer_prefix() + token)
}

/// `HeaderValue::from_str` (the `http` crate, reached through axum): it
/// accepts a string exactly when every byte of its UTF-8 encoding is a valid
/// header byte.
#[verifier::external_body]
fn header_value_accepts(text: &str) -> (ok: bool)
    ensures
        ok == header_bytes_ok(text.spec_bytes()),
{
    axum::http::HeaderValue::from_str(text).is_ok()
}

/// The error answered to a request without the homeserver's token.
pub fn bad_token() -> (e: MatrixError)
    ensures
        is_matrix_error(e, MatrixErrorCode::MForbidden, "Bad token supplied"@),
{
    MatrixError { errcode: MatrixErrorCode::MForbidden, error: String::from_str("Bad token supplied") }
}

/// Checks requests against the homeserver's token: the `Authorization`
/// header must be exactly `Bearer <token>`.
#[derive(Clone, Debug)]
pub struct MatrixBearer {
    header_value: String,
}

impl MatrixBearer {
    /// The header value that this bearer admits.
    pub closed spec fn expected(&self) -> Seq<u8> {
        encode_utf8(self.header_value@)
    }

    /// Whether a request with this `Authorization` header (if any) passes.
    pub open spec fn admits(&self, actual: Option<Seq<u8>>) -> bool {
        actual == Some(self.expected())
    }

    /// Whether `Bearer <token>` is a valid header value, that is, whether
    /// `new` may be called with `token`.
    pub fn accepts_token(token: &str) -> (ok: bool)
        ensures
            ok == header_bytes_ok(bearer_header(token@)),
    {
        let mut text = String::from_str("Bearer ");
        proof {
            reveal_strlit("Bearer ");
        }
        text.append(token);
        assert(text@ =~= bearer_prefix() + token@);
        header_value_accepts(text.as_str())
    }

    /// The bearer that admits exactly `Bearer <token>`.
    pub fn new(token: &str) -> (bearer: Self)
        requires
            header_bytes_ok(bearer_header(token@)),
        ensures
            bearer.expected() == bearer_header(token@),
    {
        let mut text = String::from_str("Bearer ");
        proof {
            reveal_strlit("Bearer ");
        }
        text.append(token);
        assert(text@ =~= bearer_prefix() + token@);
        MatrixBearer { header_value: text }
    }

    /// Passes a request whose `Authorization` header is exactly the expected
    /// value; refuses any other, or a missing one, with `M_FORBIDDEN`.
    pub fn validate(&self, actual: Option<&[u8]>) -> (r: Result<(), MatrixError>)
        ensures
            r is Ok <==> self.admits(
                match actual {
                    Some(a) => Some(a@),
                    None => None,
                },
            ),
            r matches Err(e) ==> is_matrix_error(e, MatrixErrorCode::MForbidden, "Bad token supplied"@),
    {
        match actual {
            Some(a) => {
                if bytes_equal(a, self.header_value.as_str().as_bytes()) {
                    Ok(())
                } else {
                    Err(bad_token())
                }
            },
            None => Err(bad_token()),
        }
    }
}

/// Byte-wise equality of two byte strings.
fn bytes_equal(a: &[u8], b: &[u8]) -> (eq: bool)
    ensures
        eq == (a@ == b@),
{
    if a.len() != b.len() {
        return false;
    }
    let mut i: usize = 0;
    while i < a.len()
        invariant
            a.len() == b.len(),
            i <= a.len(),
            forall|j: int| 0 <= j < i ==> a@[j] == b@[j],
        decreases a.len() - i,
    {
        if a[i] != b[i] {
            return false;
        }
        i = i + 1;
    }
    assert(a@ =~= b@);
    true
}

/// What to do with a request: answer it at once, or serve the endpoint.
#[derive(Clone, Debug, PartialEq, Eq)]
pub enum Decision {
    Respond(Reply),
    Serve(Endpoint),
}

/// `d` answers at once with this error reply.
pub open spec fn is_error_decision(d: Decision, status: u16, code: MatrixErrorCode, msg: Seq<char>) -> bool {
    &&& d matches Decision::Respond(r)
    &&& is_error_reply(r, status, code, msg)
}

/// The answer to a path that no endpoint serves: 404, `M_UNRECOGNIZED`.
pub fn unknown_route() -> (r: Reply)
    ensures
        is_error_reply(r, 404, MatrixErrorCode::MUnrecognized, "Unknown endpoint"@),
{
    Reply {
        status: 404,
        body: ReplyBody::Error(
            MatrixError {
                errcode: MatrixErrorCode::MUnrecognized,
                error: String::from_str("Unknown endpoint"),
            },
        ),
    }
}

/// The answer to a method that the endpoint does not serve: 405,
/// `M_UNRECOGNIZED`.
pub fn unsupported_method() -> (r: Reply)
    ensures
        is_error_reply(r, 405, MatrixErrorCode::MUnrecognized, "Unsupported method"@),
{
    Reply {
        status: 405,
        body: ReplyBody::Error(
            MatrixError {
                errcode: MatrixErrorCode::MUnrecognized,
                error: String::from_str("Unsupported method"),
            },
        ),
    }
}

/// The body with which a served endpoint answers.
pub open spec fn served_body_matches(e: Endpoint, b: ReplyBody) -> bool {
    match e {
        Endpoint::Root => b is Greeting,
        Endpoint::MatrixRoot => b is Empty,
        _ => b is EmptyObject,
    }
}

/// The reply of an endpoint that has served its request: 200 with the
/// greeting at the root, no body at `/_matrix/`, `{}` elsewhere.
pub fn served_reply(e: Endpoint) -> (r: Reply)
    ensures
        r.status == 200,
        served_body_matches(e, r.body),
{
    match e {
        Endpoint::Root => Reply { status: 200, body: ReplyBody::Greeting },
        Endpoint::MatrixRoot => Reply { status: 200, body: ReplyBody::Empty },
        _ => Reply { status: 200, body: ReplyBody::EmptyObject },
    }
}

/// The view of an optional header.
pub open spec fn header_view(h: Option<&[u8]>) -> Option<Seq<u8>> {
    match h {
        Some(a) => Some(a@),
        None => None,
    }
}

/// How a request is decided.
#[derive(Clone, Copy, Debug, PartialEq, Eq, Structural)]
pub enum Verdict {
    /// No endpoint serves the path.
    NotFound,
    /// The request lacks the homeserver's token.
    Forbidden,
    /// The endpoint does not serve the method.
    MethodNotAllowed,
    /// The endpoint serves the request.
    Served(Endpoint),
}

/// The verdict on a request, from the endpoint its path matched (if any),
/// its method, its `Authorization` header and the header value expected: a
/// path that matches no endpoint is not found whatever the header; a
/// matched one without the expected header is forbidden; with it, but with
/// a method that the endpoint does not serve, not allowed; otherwise served.
pub open spec fn verdict(endpoint: Option<Endpoint>, method: Method, header: Option<Seq<u8>>, expected: Seq<u8>) -> Verdict {
    match endpoint {
        None => Verdict::NotFound,
        Some(e) => if header != Some(expected) {
            Verdict::Forbidden
        } else if !accepts_method(e, method) {
            Verdict::MethodNotAllowed
        } else {
            Verdict::Served(e)
        },
    }
}

/// `d` carries out verdict `v`: the 404, 403 and 405 error replies, or
/// serving the endpoint.
pub open spec fn decision_agrees(d: Decision, v: Verdict) -> bool {
    match v {
        Verdict::NotFound => is_error_decision(d, 404, MatrixErrorCode::MUnrecognized, "Unknown endpoint"@),
        Verdict::Forbidden => is_error_decision(d, 403, MatrixErrorCode::MForbidden, "Bad token supplied"@),
        Verdict::MethodNotAllowed => is_error_decision(
            d,
            405,
            MatrixErrorCode::MUnrecognized,
            "Unsupported method"@,
        ),
        Verdict::Served(e) => d == Decision::Serve(e),
    }
}

/// Decides a request from the endpoint its path matched (if any), its
/// method and its `Authorization` header, as `verdict` says.
pub fn answer(
    endpoint: Option<Endpoint>,
    method: Method,
    authorization: Option<&[u8]>,
    bearer: &MatrixBearer,
) -> (d: Decision)
    ensures
        decision_agrees(d, verdict(endpoint, method, header_view(authorization), bearer.expected())),
{
    match endpoint {
        None => Decision::Respond(unknown_route()),
        Some(e) => match bearer.validate(authorization) {
            Err(err) => Decision::Respond(Reply { status: 403, body: ReplyBody::Error(err) }),
            Ok(()) => {
                if e.accepts(method) {
                    Decision::Serve(e)
                } else {
                    Decision::Respond(unsupported_method())
                }
            },
        },
    }
}

/// A path that no endpoint serves is answered "not found", whatever the
/// method and whatever the `Authorization` header.
pub proof fn law_unknown_path_not_found(method: Method, header: Option<Seq<u8>>, expected: Seq<u8>)
    ensures
        verdict(None, method, header, expected) == Verdict::NotFound,
{
}

/// On every endpoint, a request without exactly the expected header is
/// forbidden, whatever its method: the token is checked before the method.
pub proof fn law_missing_token_forbidden(e: Endpoint, method: Method, header: Option<Seq<u8>>, expected: Seq<u8>)
    requires
        header != Some(expected),
    ensures
        verdict(Some(e), method, header, expected) == Verdict::Forbidden,
{
}

/// With the expected header, every endpoint serves its own method, and
/// answers HEAD as it answers GET.
pub proof fn law_token_holder_served(e: Endpoint, expected: Seq<u8>)
    ensures
        verdict(Some(e), endpoint_method(e), Some(expected), expected) == Verdict::Served(e),
        verdict(Some(e), Method::Head, Some(expected), expected) == verdict(
            Some(e),
            Method::Get,
            Some(expected),
            expected,
        ),
{
}

/// A bearer made from `token` admits exactly `Bearer <token>`: a request
/// that carries it is served by every endpoint for the endpoint's method,
/// and one that carries anything else is forbidden.
pub proof fn law_bearer_admits_its_token(bearer: MatrixBearer, token: Seq<char>, e: Endpoint, header: Option<Seq<u8>>)
    requires
        bearer.expected() == bearer_header(token),
    ensures
        bearer.admits(header) <==> header == Some(bearer_header(token)),
        verdict(Some(e), endpoint_method(e), Some(bearer_header(token)), bearer.expected())
            == Verdict::Served(e),
        header != Some(bearer_header(token)) ==> verdict(
            Some(e),
            endpoint_method(e),
            header,
            bearer.expected(),
        ) == Verdict::Forbidden,
{
}

/// Every token that the token generator writes makes a valid bearer
/// header, so a bearer can always be made from a generated token.
pub proof fn law_generated_token_makes_bearer(bytes: Seq<u8>)
    ensures
        header_bytes_ok(bearer_header(crate::token::hex_lower(bytes))),
{
    let hex = crate::token::hex_lower(bytes);
    let s = bearer_prefix() + hex;
    assert forall|i: int| 0 <= i < s.len() implies 32 <= #[trigger] (s[i] as u32) <= 126 by {
        if i >= 7 {
            let k = i - 7;
            assert(s[i] == hex[k]);
            let b = bytes[k / 2] as int;
            assert(0 <= b / 16 < 16 && 0 <= b % 16 < 16);
        }
    }
    assert(vstd::utf8::is_ascii_chars(s));
    vstd::utf8::is_ascii_chars_encode_utf8(s);
    let enc = encode_utf8(s);
    assert forall|i: int| 0 <= i < enc.len() implies header_byte_ok(#[trigger] enc[i]) by {
        assert(s[i] as u8 == enc[i]);
        assert(32 <= (s[i] as u32) <= 126);
    }
}

} // verus!

verus! {

/// A header byte is valid exactly when it is a tab, a visible ASCII
/// character or space (32 to 126), or any byte from 128 up.
pub proof fn law_header_byte_ok_is_visible_or_tab(b: u8)
    ensures
        header_byte_ok(b) <==> (b == 9 || (32 <= b && b <= 126) || b >= 128),
{
}

/// For an ASCII token, the bearer header is the bytes of `Bearer ` (the
/// word, then one space) followed by the token's own bytes.
pub proof fn law_bearer_header_is_scheme_then_token(token: Seq<char>)
    requires
        vstd::utf8::is_ascii_chars(token),
    ensures
        bearer_header(token) == seq![66u8, 101u8, 97u8, 114u8, 101u8, 114u8, 32u8] + token.map_values(
            |c: char| c as u8,
        ),
{
    let s = bearer_prefix() + token;
    assert forall|i: int| 0 <= i < s.len() implies '\0' <= #[trigger] s[i] <= '\u{7f}' by {
        if i >= 7 {
            assert(s[i] == token[i - 7]);
        }
    }
    vstd::utf8::is_ascii_chars_encode_utf8(s);
    let rhs = seq![66u8, 101u8, 97u8, 114u8, 101u8, 114u8, 32u8] + token.map_values(|c: char| c as u8);
    assert forall|i: int| 0 <= i < s.len() implies encode_utf8(s)[i] == rhs[i] by {
        assert(s[i] as u8 == encode_utf8(s)[i]);
        if i >= 7 {
            assert(s[i] == token[i - 7]);
        }
    }
    assert(encode_utf8(s) =~= rhs);
}

/// The methods that each endpoint serves: the transaction endpoint PUT
/// only, the ping POST only, every other endpoint GET and HEAD only.
pub proof fn law_endpoint_methods(e: Endpoint, m: Method)
    ensures
        e == Endpoint::Transaction ==> (accepts_method(e, m) <==> m == Method::Put),
        e == Endpoint::Ping ==> (accepts_method(e, m) <==> m == Method::Post),
        e != Endpoint::Transaction && e != Endpoint::Ping ==> (accepts_method(e, m) <==> (m
            == Method::Get || m == Method::Head)),
{
}

/// What each endpoint answers once served: the greeting at the root, no
/// body at `/_matrix/`, the empty object everywhere else, always with 200.
pub proof fn law_served_bodies(e: Endpoint, b: ReplyBody)
    ensures
        e == Endpoint::Root ==> (served_body_matches(e, b) <==> b is Greeting),
        e == Endpoint::MatrixRoot ==> (served_body_matches(e, b) <==> b is Empty),
        e != Endpoint::Root && e != Endpoint::MatrixRoot ==> (served_body_matches(e, b) <==> b is EmptyObject),
{
}

/// The routes: every endpoint is routed, once, each under its own path,
/// and all but the two roots live under `/_matrix/app/v1/`.
pub proof fn law_routes_are_distinct_paths()
    ensures
        all_endpoints().len() == 11,
        all_endpoints().no_duplicates(),
        forall|i: int, j: int|
            0 <= i < j < 11 ==> endpoint_path(#[trigger] all_endpoints()[i]) != endpoint_path(
                #[trigger] all_endpoints()[j],
            ),
        forall|e: Endpoint| #[trigger] all_endpoints().contains(e),
        forall|e: Endpoint|
            e != Endpoint::Root && e != Endpoint::MatrixRoot ==> (#[trigger] endpoint_path(e)).subrange(
                0,
                16,
            ) == "/_matrix/app/v1/"@,
{
    reveal_strlit("/");
    reveal_strlit("/_matrix/");
    reveal_strlit("/_matrix/app/v1/users/:userId");
    reveal_strlit("/_matrix/app/v1/transactions/:txnId");
    reveal_strlit("/_matrix/app/v1/rooms/:room");
    reveal_strlit("/_matrix/app/v1/thirdparty/protocol/:protocol");
    reveal_strlit("/_matrix/app/v1/ping");
    reveal_strlit("/_matrix/app/v1/thirdparty/location");
    reveal_strlit("/_matrix/app/v1/thirdparty/location/:protocol");
    reveal_strlit("/_matrix/app/v1/thirdparty/user");
    reveal_strlit("/_matrix/app/v1/thirdparty/user/:protocol");
    reveal_strlit("/_matrix/app/v1/");
    let es = all_endpoints();
    assert forall|e: Endpoint| #[trigger] es.contains(e) by {
        match e {
            Endpoint::Root => assert(es[0] == e),
            Endpoint::MatrixRoot => assert(es[1] == e),
            Endpoint::User => assert(es[2] == e),
            Endpoint::Transaction => assert(es[3] == e),
            Endpoint::Room => assert(es[4] == e),
            Endpoint::ThirdpartyProtocol => assert(es[5] == e),
            Endpoint::Ping => assert(es[6] == e),
            Endpoint::ThirdpartyLocation => assert(es[7] == e),
            Endpoint::ThirdpartyLocationProtocol => assert(es[8] == e),
            Endpoint::ThirdpartyUser => assert(es[9] == e),
            Endpoint::ThirdpartyUserProtocol => assert(es[10] == e),
        }
    }
    assert forall|e: Endpoint|
        e != Endpoint::Root && e != Endpoint::MatrixRoot implies (#[trigger] endpoint_path(e)).subrange(
        0,
        16,
    ) =~= "/_matrix/app/v1/"@ by {}
    assert forall|i: int, j: int|
        0 <= i < j < 11 implies endpoint_path(#[trigger] es[i]) != endpoint_path(#[trigger] es[j]) by {
        let a = endpoint_path(es[i]);
        let b = endpoint_path(es[j]);
        if i == 3 && j == 7 {
            assert(a[17] != b[17]);
        } else if i == 5 && j == 8 {
            assert(a[27] != b[27]);
        } else {
            assert(a.len() != b.len());
        }
    }
}

} // verus!
