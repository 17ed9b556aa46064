//! Serving a request that the bearer check and method check let through:
//! the request is read as the endpoint's Matrix request, and answered.
use vstd::prelude::*;
use vstd::string::*;

use crate::http::{served_body_matches, served_reply, Endpoint, Method, Reply, ReplyBody};
use ruma::api::appservice::event::push_events::v1::Request as PushEventsRequest;
use ruma::api::appservice::ping::send_ping::v1::Request as PingRequest;
use ruma::api::appservice::query::query_room_alias::v1::Request as QueryRoomAliasRequest;
use ruma::api::appservice::query::query_user_id::v1::Request as QueryUserIdRequest;
use ruma::api::appservice::thirdparty::get_location_for_protocol::v1::Request as LocationForProtocolRequest;
use ruma::api::appservice::thirdparty::get_location_for_room_alias::v1::Request as LocationForRoomAliasRequest;
use ruma::api::appservice::thirdparty::get_protocol::v1::Request as ProtocolRequest;
use ruma::api::appservice::thirdparty::get_user_for_protocol::v1::Request as UserForProtocolRequest;
use ruma::api::appservice::thirdparty::get_user_for_user_id::v1::Request as UserForUserIdRequest;
use ruma::api::IncomingRequest;

verus! {

/// The headers of a request, each name as text and each value as bytes.
pub open spec fn header_views(headers: Seq<(String, Vec<u8>)>) -> Seq<(Seq<char>, Seq<u8>)> {
    headers.map_values(|h: (String, Vec<u8>)| (h.0@, h.1@))
}

/// A list of strings as text.
pub open spec fn string_views(strings: Seq<String>) -> Seq<Seq<char>> {
    strings.map_values(|s: String| s@)
}

/// The name of a method on the wire.
pub open spec fn method_name(m: Method) -> Seq<char> {
    match m {
        Method::Get => "GET"@,
        Method::Head => "HEAD"@,
        Method::Post => "POST"@,
        Method::Put => "PUT"@,
        Method::Delete => "DELETE"@,
        Method::Options => "OPTIONS"@,
        Method::Patch => "PATCH"@,
        Method::Trace => "TRACE"@,
        Method::Connect => "CONNECT"@,
        Method::Other => "OTHER"@,
    }
}

impl Method {
    /// The name of this method on the wire (`OTHER` for a method that the
    /// endpoints do not tell apart).
    pub fn as_str(&self) -> (name: &'static str)
        ensures
            name@ == method_name(*self),
    {
        match self {
            Method::Get => "GET",
            Method::Head => "HEAD",
            Method::Post => "POST",
            Method::Put => "PUT",
            Method::Delete => "DELETE",
            Method::Options => "OPTIONS",
            Method::Patch => "PATCH",
            Method::Trace => "TRACE",
            Method::Connect => "CONNECT",
            Method::Other => "OTHER",
        }
    }
}

/// The request target: the path, then `?` and the query if there is one.
pub open spec fn request_uri(path: Seq<char>, query: Option<Seq<char>>) -> Seq<char> {
    match query {
        Some(q) => path + "?"@ + q,
        None => path,
    }
}

/// Whether ruma reads the request made of these parts as a user query.
pub uninterp spec fn user_query_parses(method: Seq<char>, uri: Seq<char>, headers: Seq<(Seq<char>, Seq<u8>)>, body: Seq<u8>, path_args: Seq<Seq<char>>) -> bool;

/// The raw JSON of the events of a pushed transaction, if ruma reads the
/// request made of these parts as one.
pub uninterp spec fn pushed_events(method: Seq<char>, uri: Seq<char>, headers: Seq<(Seq<char>, Seq<u8>)>, body: Seq<u8>, path_args: Seq<Seq<char>>) -> Option<Seq<Seq<char>>>;

/// Whether ruma reads the request made of these parts as a room alias query.
pub uninterp spec fn room_alias_query_parses(method: Seq<char>, uri: Seq<char>, headers: Seq<(Seq<char>, Seq<u8>)>, body: Seq<u8>, path_args: Seq<Seq<char>>) -> bool;

/// Whether ruma reads the request made of these parts as a protocol query.
pub uninterp spec fn protocol_query_parses(method: Seq<char>, uri: Seq<char>, headers: Seq<(Seq<char>, Seq<u8>)>, body: Seq<u8>, path_args: Seq<Seq<char>>) -> bool;

/// Whether ruma reads the request made of these parts as a ping.
pub uninterp spec fn ping_parses(method: Seq<char>, uri: Seq<char>, headers: Seq<(Seq<char>, Seq<u8>)>, body: Seq<u8>, path_args: Seq<Seq<char>>) -> bool;

/// Whether ruma reads the request made of these parts as a location query
/// by room alias.
pub uninterp spec fn location_by_alias_parses(method: Seq<char>, uri: Seq<char>, headers: Seq<(Seq<char>, Seq<u8>)>, body: Seq<u8>, path_args: Seq<Seq<char>>) -> bool;

/// Whether ruma reads the request made of these parts as a location query
/// by protocol.
pub uninterp spec fn location_by_protocol_parses(method: Seq<char>, uri: Seq<char>, headers: Seq<(Seq<char>, Seq<u8>)>, body: Seq<u8>, path_args: Seq<Seq<char>>) -> bool;

/// Whether ruma reads the request made of these parts as a third-party user
/// query by user id.
pub uninterp spec fn user_by_id_parses(method: Seq<char>, uri: Seq<char>, headers: Seq<(Seq<char>, Seq<u8>)>, body: Seq<u8>, path_args: Seq<Seq<char>>) -> bool;

/// Whether ruma reads the request made of these parts as a third-party user
/// query by protocol.
pub uninterp spec fn user_by_protocol_parses(method: Seq<char>, uri: Seq<char>, headers: Seq<(Seq<char>, Seq<u8>)>, body: Seq<u8>, path_args: Seq<Seq<char>>) -> bool;

/// The `application/x-www-form-urlencoded` pairs of a query string, decoded.
pub uninterp spec fn form_pairs(query: Seq<char>) -> Option<Seq<(Seq<char>, Seq<char>)>>;

} // verus!

verus! {

/// ruma's `IncomingRequest::try_from_http_request` for the user query (`query_user_id`), on the
/// request that `http::Request::builder` makes of these parts (a part that
/// the builder refuses counts as not read). Whether it reads is named, not
/// stated: it depends on the parts alone.
#[verifier::external_body]
fn read_user_query(
    method: &str,
    uri: &str,
    headers: &Vec<(String, Vec<u8>)>,
    body: &[u8],
    path_args: &Vec<String>,
) -> (ok: bool)
    ensures
        ok == user_query_parses(method@, uri@, header_views(headers@), body@, string_views(path_args@)),
{
    let mut builder = axum::http::Request::builder().method(method).uri(uri);
    for (name, value) in headers {
        builder = builder.header(name.as_str(), value.as_slice());
    }
    match builder.body(body) {
        Ok(request) => QueryUserIdRequest::try_from_http_request(request, path_args.as_slice()).is_ok(),
        Err(_) => false,
    }
}

/// ruma's `IncomingRequest::try_from_http_request` for the room alias query (`query_room_alias`), on the
/// request that `http::Request::builder` makes of these parts (a part that
/// the builder refuses counts as not read). Whether it reads is named, not
/// stated: it depends on the parts alone.
#[verifier::external_body]
fn read_room_alias_query(
    method: &str,
    uri: &str,
    headers: &Vec<(String, Vec<u8>)>,
    body: &[u8],
    path_args: &Vec<String>,
) -> (ok: bool)
    ensures
        ok == room_alias_query_parses(method@, uri@, header_views(headers@), body@, string_views(path_args@)),
{
    let mut builder = axum::http::Request::builder().method(method).uri(uri);
    for (name, value) in headers {
        builder = builder.header(name.as_str(), value.as_slice());
    }
    match builder.body(body) {
        Ok(request) => QueryRoomAliasRequest::try_from_http_request(request, path_args.as_slice()).is_ok(),
        Err(_) => false,
    }
}

/// ruma's `IncomingRequest::try_from_http_request` for the protocol query (`get_protocol`), on the
/// request that `http::Request::builder` makes of these parts (a part that
/// the builder refuses counts as not read). Whether it reads is named, not
/// stated: it depends on the parts alone.
#[verifier::external_body]
fn read_protocol_query(
    method: &str,
    uri: &str,
    headers: &Vec<(String, Vec<u8>)>,
    body: &[u8],
    path_args: &Vec<String>,
) -> (ok: bool)
    ensures
        ok == protocol_query_parses(method@, uri@, header_views(headers@), body@, string_views(path_args@)),
{
    let mut builder = axum::http::Request::builder().method(method).uri(uri);
    for (name, value) in headers {
        builder = builder.header(name.as_str(), value.as_slice());
    }
    match builder.body(body) {
        Ok(request) => ProtocolRequest::try_from_http_request(request, path_args.as_slice()).is_ok(),
        Err(_) => false,
    }
}

/// ruma's `IncomingRequest::try_from_http_request` for the ping (`send_ping`), on the
/// request that `http::Request::builder` makes of these parts (a part that
/// the builder refuses counts as not read). Whether it reads is named, not
/// stated: it depends on the parts alone.
#[verifier::external_body]
fn read_ping(
    method: &str,
    uri: &str,
    headers: &Vec<(String, Vec<u8>)>,
    body: &[u8],
    path_args: &Vec<String>,
) -> (ok: bool)
    ensures
        ok == ping_parses(method@, uri@, header_views(headers@), body@, string_views(path_args@)),
{
    let mut builder = axum::http::Request::builder().method(method).uri(uri);
    for (name, value) in headers {
        builder = builder.header(name.as_str(), value.as_slice());
    }
    match builder.body(body) {
        Ok(request) => PingRequest::try_from_http_request(request, path_args.as_slice()).is_ok(),
        Err(_) => false,
    }
}

/// ruma's `IncomingRequest::try_from_http_request` for the location query by alias (`get_location_for_room_alias`), on the
/// request that `http::Request::builder` makes of these parts (a part that
/// the builder refuses counts as not read). Whether it reads is named, not
/// stated: it depends on the parts alone.
#[verifier::external_body]
fn read_location_by_alias(
    method: &str,
    uri: &str,
    headers: &Vec<(String, Vec<u8>)>,
    body: &[u8],
    path_args: &Vec<String>,
) -> (ok: bool)
    ensures
        ok == location_by_alias_parses(method@, uri@, header_views(headers@), body@, string_views(path_args@)),
{
    let mut builder = axum::http::Request::builder().method(method).uri(uri);
    for (name, value) in headers {
        builder = builder.header(name.as_str(), value.as_slice());
    }
    match builder.body(body) {
        Ok(request) => LocationForRoomAliasRequest::try_from_http_request(request, path_args.as_slice()).is_ok(),
        Err(_) => false,
    }
}

/// ruma's `IncomingRequest::try_from_http_request` for the location query by protocol (`get_location_for_protocol`), on the
/// request that `http::Request::builder` makes of these parts (a part that
/// the builder refuses counts as not read). Whether it reads is named, not
/// stated: it depends on the parts alone.
#[verifier::external_body]
fn read_location_by_protocol(
    method: &str,
    uri: &str,
    headers: &Vec<(String, Vec<u8>)>,
    body: &[u8],
    path_args: &Vec<String>,
) -> (ok: bool)
    ensures
        ok == location_by_protocol_parses(method@, uri@, header_views(headers@), body@, string_views(path_args@)),
{
    let mut builder = axum::http::Request::builder().method(method).uri(uri);
    for (name, value) in headers {
        builder = builder.header(name.as_str(), value.as_slice());
    }
    match builder.body(body) {
        Ok(request) => LocationForProtocolRequest::try_from_http_request(request, path_args.as_slice()).is_ok(),
        Err(_) => false,
    }
}

/// ruma's `IncomingRequest::try_from_http_request` for the third-party user query by id (`get_user_for_user_id`), on the
/// request that `http::Request::builder` makes of these parts (a part that
/// the builder refuses counts as not read). Whether it reads is named, not
/// stated: it depends on the parts alone.
#[verifier::external_body]
fn read_user_by_id(
    method: &str,
    uri: &str,
    headers: &Vec<(String, Vec<u8>)>,
    body: &[u8],
    path_args: &Vec<String>,
) -> (ok: bool)
    ensures
        ok == user_by_id_parses(method@, uri@, header_views(headers@), body@, string_views(path_args@)),
{
    let mut builder = axum::http::Request::builder().method(method).uri(uri);
    for (name, value) in headers {
        builder = builder.header(name.as_str(), value.as_slice());
    }
    match builder.body(body) {
        Ok(request) => UserForUserIdRequest::try_from_http_request(request, path_args.as_slice()).is_ok(),
        Err(_) => false,
    }
}

/// ruma's `IncomingRequest::try_from_http_request` for the third-party user query by protocol (`get_user_for_protocol`), on the
/// request that `http::Request::builder` makes of these parts (a part that
/// the builder refuses counts as not read). Whether it reads is named, not
/// stated: it depends on the parts alone.
#[verifier::external_body]
fn read_user_by_protocol(
    method: &str,
    uri: &str,
    headers: &Vec<(String, Vec<u8>)>,
    body: &[u8],
    path_args: &Vec<String>,
) -> (ok: bool)
    ensures
        ok == user_by_protocol_parses(method@, uri@, header_views(headers@), body@, string_views(path_args@)),
{
    let mut builder = axum::http::Request::builder().method(method).uri(uri);
    for (name, value) in headers {
        builder = builder.header(name.as_str(), value.as_slice());
    }
    match builder.body(body) {
        Ok(request) => UserForProtocolRequest::try_from_http_request(request, path_args.as_slice()).is_ok(),
        Err(_) => false,
    }
}

/// ruma's `IncomingRequest::try_from_http_request` for a pushed transaction
/// (`push_events`), on the request that `http::Request::builder` makes of
/// these parts; gives the raw JSON text of each event when it reads. What
/// it gives is named, not stated: it depends on the parts alone.
#[verifier::external_body]
fn read_pushed_events(
    method: &str,
    uri: &str,
    headers: &Vec<(String, Vec<u8>)>,
    body: &[u8],
    path_args: &Vec<String>,
) -> (events: Option<Vec<String>>)
    ensures
        match events {
            Some(v) => pushed_events(method@, uri@, header_views(headers@), body@, string_views(path_args@))
                == Some(string_views(v@)),
            None => pushed_events(method@, uri@, header_views(headers@), body@, string_views(path_args@)) is None,
        },
{
    let mut builder = axum::http::Request::builder().method(method).uri(uri);
    for (name, value) in headers {
        builder = builder.header(name.as_str(), value.as_slice());
    }
    let request = builder.body(body).ok()?;
    let pushed = PushEventsRequest::try_from_http_request(request, path_args.as_slice()).ok()?;
    Some(pushed.events.iter().map(|e| e.json().get().to_owned()).collect())
}

/// `serde_urlencoded::from_str` into a list of (name, value) pairs: the
/// decoded pairs of the query string, in order. What it gives is named, not
/// stated: it depends on the query alone.
#[verifier::external_body]
fn read_form_pairs(query: &str) -> (pairs: Option<Vec<(String, String)>>)
    ensures
        match pairs {
            Some(v) => form_pairs(query@) == Some(v@.map_values(|p: (String, String)| (p.0@, p.1@))),
            None => form_pairs(query@) is None,
        },
{
    serde_urlencoded::from_str::<Vec<(String, String)>>(query).ok()
}

} // verus!

verus! {

/// Why the query string of a third-party user query was refused.
#[derive(Clone, Copy, Debug, PartialEq, Eq, Structural)]
pub enum QueryProblem {
    /// The query string could not be decoded.
    Unreadable,
    /// No `userid` pair.
    MissingUserId,
    /// More than one `userid` pair.
    DuplicateUserId,
}

/// The pairs named `userid`, in order.
pub open spec fn userid_pairs(pairs: Seq<(Seq<char>, Seq<char>)>) -> Seq<(Seq<char>, Seq<char>)> {
    pairs.filter(|p: (Seq<char>, Seq<char>)| p.0 == "userid"@)
}

/// The user id that a query string gives: the value of its one `userid`
/// pair; none, or two or more, are refused.
pub open spec fn userid_of(pairs: Option<Seq<(Seq<char>, Seq<char>)>>) -> Result<Seq<char>, QueryProblem> {
    match pairs {
        None => Err(QueryProblem::Unreadable),
        Some(ps) => {
            let found = userid_pairs(ps);
            if found.len() == 0 {
                Err(QueryProblem::MissingUserId)
            } else if found.len() == 1 {
                Ok(found[0].1)
            } else {
                Err(QueryProblem::DuplicateUserId)
            }
        },
    }
}

/// The query string of an optional query: empty when there is none.
pub open spec fn query_text(query: Option<&str>) -> Seq<char> {
    match query {
        Some(q) => q@,
        None => ""@,
    }
}

/// The optional query as text.
pub open spec fn query_view(query: Option<&str>) -> Option<Seq<char>> {
    match query {
        Some(q) => Some(q@),
        None => None,
    }
}

/// The value of the one `userid` pair, or why there is not exactly one.
fn lookup_userid(pairs: &Vec<(String, String)>) -> (r: Result<String, QueryProblem>)
    ensures
        ({
            let views = pairs@.map_values(|p: (String, String)| (p.0@, p.1@));
            match r {
                Ok(v) => userid_of(Some(views)) == Ok::<Seq<char>, QueryProblem>(v@),
                Err(e) => userid_of(Some(views)) == Err::<Seq<char>, QueryProblem>(e),
            }
        }),
{
    let ghost views = pairs@.map_values(|p: (String, String)| (p.0@, p.1@));
    let ghost pred = |p: (Seq<char>, Seq<char>)| p.0 == "userid"@;
    let key = String::from_str("userid");
    let mut found: Option<String> = None;
    let mut count: usize = 0;
    let mut i: usize = 0;
    while i < pairs.len()
        invariant
            i <= pairs.len(),
            views == pairs@.map_values(|p: (String, String)| (p.0@, p.1@)),
            pred == (|p: (Seq<char>, Seq<char>)| p.0 == "userid"@),
            key@ == "userid"@,
            count <= 2,
            count == 0 ==> views.take(i as int).filter(pred).len() == 0,
            count == 1 ==> views.take(i as int).filter(pred).len() == 1,
            count == 1 ==> (found matches Some(v) && views.take(i as int).filter(pred)[0].1 == v@),
            count == 2 ==> views.take(i as int).filter(pred).len() >= 2,
        decreases pairs.len() - i,
    {
        proof {
            assert(views.take(i + 1) =~= views.take(i as int).push(views[i as int]));
            views.take(i as int).lemma_filter_push(views[i as int], pred);
        }
        if pairs[i].0 == key {
            if count == 0 {
                found = Some(pairs[i].1.clone());
                count = 1;
            } else {
                count = 2;
            }
        }
        i = i + 1;
    }
    proof {
        assert(views.take(pairs.len() as int) =~= views);
    }
    if count == 0 {
        Err(QueryProblem::MissingUserId)
    } else if count == 1 {
        match found {
            Some(v) => Ok(v),
            None => Err(QueryProblem::MissingUserId),
        }
    } else {
        Err(QueryProblem::DuplicateUserId)
    }
}

} // verus!

verus! {

/// How a request that an endpoint serves turns out.
#[derive(Clone, Debug, PartialEq, Eq)]
pub enum Served {
    /// The request was read; answer with this reply.
    Reply(Reply),
    /// A transaction was read: the raw JSON of its events, to be handled
    /// before the endpoint's reply is sent.
    Transaction(Vec<String>),
    /// The query string of a third-party user query was refused (400).
    BadQuery(QueryProblem),
    /// ruma did not read the request as the endpoint's request; the server
    /// panics there.
    Unreadable,
}

/// Whether ruma reads the request as that of an endpoint which takes no
/// special handling, with these path arguments.
pub open spec fn reads_as(e: Endpoint, m: Seq<char>, uri: Seq<char>, h: Seq<(Seq<char>, Seq<u8>)>, b: Seq<u8>, args: Seq<Seq<char>>) -> bool {
    match e {
        Endpoint::User => user_query_parses(m, uri, h, b, args),
        Endpoint::Room => room_alias_query_parses(m, uri, h, b, args),
        Endpoint::ThirdpartyProtocol => protocol_query_parses(m, uri, h, b, args),
        Endpoint::Ping => ping_parses(m, uri, h, b, seq![]),
        Endpoint::ThirdpartyLocation => location_by_alias_parses(m, uri, h, b, seq![]),
        Endpoint::ThirdpartyLocationProtocol => location_by_protocol_parses(m, uri, h, b, args),
        Endpoint::ThirdpartyUserProtocol => user_by_protocol_parses(m, uri, h, b, args),
        _ => false,
    }
}

/// `s` is the served reply of `e`: 200 with the endpoint's body.
pub open spec fn is_served_reply(s: Served, e: Endpoint) -> bool {
    &&& s matches Served::Reply(r)
    &&& r.status == 200
    &&& served_body_matches(e, r.body)
}

/// What serving a request gives, from its endpoint, method, path, query,
/// headers, body and path arguments.
pub open spec fn serves_as(
    s: Served,
    e: Endpoint,
    m: Seq<char>,
    uri: Seq<char>,
    query: Seq<char>,
    h: Seq<(Seq<char>, Seq<u8>)>,
    b: Seq<u8>,
    args: Seq<Seq<char>>,
) -> bool {
    match e {
        Endpoint::Root | Endpoint::MatrixRoot => is_served_reply(s, e),
        Endpoint::Transaction => match pushed_events(m, uri, h, b, args) {
            None => s is Unreadable,
            Some(events) => s matches Served::Transaction(v) && string_views(v@) == events,
        },
        Endpoint::ThirdpartyUser => match userid_of(form_pairs(query)) {
            Err(p) => s == Served::BadQuery(p),
            Ok(uid) => if user_by_id_parses(m, uri, h, b, seq![uid]) {
                is_served_reply(s, e)
            } else {
                s is Unreadable
            },
        },
        _ => if reads_as(e, m, uri, h, b, args) {
            is_served_reply(s, e)
        } else {
            s is Unreadable
        },
    }
}

/// Serves a request that the bearer and method checks let through: reads
/// it as the endpoint's Matrix request (the request target is the path,
/// then `?` and the query if any), and gives the endpoint's reply; or the
/// events of a pushed transaction; or why it could not be read. The ping
/// and the location query by alias are read without path arguments; the
/// third-party user query first takes its user id from the query string
/// and is read with that as its one argument.
pub fn serve_request(
    endpoint: Endpoint,
    method: Method,
    path: &str,
    query: Option<&str>,
    headers: &Vec<(String, Vec<u8>)>,
    body: &[u8],
    path_args: &Vec<String>,
) -> (s: Served)
    ensures
        serves_as(
            s,
            endpoint,
            method_name(method),
            request_uri(path@, query_view(query)),
            query_text(query),
            header_views(headers@),
            body@,
            string_views(path_args@),
        ),
{
    let mut uri = String::from_str(path);
    if let Some(q) = query {
        uri.append("?");
        uri.append(q);
    }
    let m = method.as_str();
    let uri = uri.as_str();
    let ok = match endpoint {
        Endpoint::Root | Endpoint::MatrixRoot => true,
        Endpoint::Transaction => {
            return match read_pushed_events(m, uri, headers, body, path_args) {
                Some(events) => Served::Transaction(events),
                None => Served::Unreadable,
            };
        },
        Endpoint::ThirdpartyUser => {
            let q = match query {
                Some(q) => q,
                None => "",
            };
            let pairs = match read_form_pairs(q) {
                Some(pairs) => pairs,
                None => {
                    return Served::BadQuery(QueryProblem::Unreadable);
                },
            };
            match lookup_userid(&pairs) {
                Err(p) => {
                    return Served::BadQuery(p);
                },
                Ok(uid) => {
                    let args = vec![uid];
                    proof {
                        assert(string_views(args@) =~= seq![args@[0]@]);
                    }
                    read_user_by_id(m, uri, headers, body, &args)
                },
            }
        },
        Endpoint::User => read_user_query(m, uri, headers, body, path_args),
        Endpoint::Room => read_room_alias_query(m, uri, headers, body, path_args),
        Endpoint::ThirdpartyProtocol => read_protocol_query(m, uri, headers, body, path_args),
        Endpoint::Ping => {
            let none: Vec<String> = Vec::new();
            proof {
                assert(string_views(none@) =~= seq![]);
            }
            read_ping(m, uri, headers, body, &none)
        },
        Endpoint::ThirdpartyLocation => {
            let none: Vec<String> = Vec::new();
            proof {
                assert(string_views(none@) =~= seq![]);
            }
            read_location_by_alias(m, uri, headers, body, &none)
        },
        Endpoint::ThirdpartyLocationProtocol => read_location_by_protocol(
            m,
            uri,
            headers,
            body,
            path_args,
        ),
        Endpoint::ThirdpartyUserProtocol => read_user_by_protocol(m, uri, headers, body, path_args),
    };
    if ok {
        Served::Reply(served_reply(endpoint))
    } else {
        Served::Unreadable
    }
}

} // verus!

verus! {

/// The name of the query parameter that carries the user id.
pub open spec fn userid_key() -> Seq<char> {
    seq!['u', 's', 'e', 'r', 'i', 'd']
}

proof fn lemma_no_userid(ps: Seq<(Seq<char>, Seq<char>)>)
    requires
        forall|k: int| 0 <= k < ps.len() ==> (#[trigger] ps[k]).0 != userid_key(),
    ensures
        userid_pairs(ps).len() == 0,
    decreases ps.len(),
{
    reveal_strlit("userid");
    assert("userid"@ =~= userid_key());
    if ps.len() > 0 {
        let rest = ps.drop_last();
        assert forall|k: int| 0 <= k < rest.len() implies (#[trigger] rest[k]).0 != userid_key() by {
            assert(rest[k] == ps[k]);
        }
        lemma_no_userid(rest);
        assert(ps =~= rest.push(ps.last()));
        rest.lemma_filter_push(ps.last(), |p: (Seq<char>, Seq<char>)| p.0 == "userid"@);
        assert(ps.last() == ps[ps.len() - 1]);
    }
}

proof fn lemma_one_userid(ps: Seq<(Seq<char>, Seq<char>)>, j: int)
    requires
        0 <= j < ps.len(),
        ps[j].0 == userid_key(),
        forall|k: int| 0 <= k < ps.len() && k != j ==> (#[trigger] ps[k]).0 != userid_key(),
    ensures
        userid_pairs(ps) == seq![ps[j]],
    decreases ps.len(),
{
    reveal_strlit("userid");
    assert("userid"@ =~= userid_key());
    let rest = ps.drop_last();
    assert(ps =~= rest.push(ps.last()));
    assert(ps.last() == ps[ps.len() - 1]);
    rest.lemma_filter_push(ps.last(), |p: (Seq<char>, Seq<char>)| p.0 == "userid"@);
    if j == ps.len() - 1 {
        assert forall|k: int| 0 <= k < rest.len() implies (#[trigger] rest[k]).0 != userid_key() by {
            assert(rest[k] == ps[k]);
        }
        lemma_no_userid(rest);
        assert(userid_pairs(rest) =~= seq![]);
        assert(userid_pairs(ps) =~= seq![ps[j]]);
    } else {
        assert forall|k: int| 0 <= k < rest.len() && k != j implies (#[trigger] rest[k]).0 != userid_key() by {
            assert(rest[k] == ps[k]);
        }
        assert(rest[j] == ps[j]);
        lemma_one_userid(rest, j);
    }
}

proof fn lemma_two_userids(ps: Seq<(Seq<char>, Seq<char>)>, i: int, j: int)
    requires
        0 <= i < j < ps.len(),
        ps[i].0 == userid_key(),
        ps[j].0 == userid_key(),
    ensures
        userid_pairs(ps).len() >= 2,
    decreases ps.len(),
{
    reveal_strlit("userid");
    assert("userid"@ =~= userid_key());
    let rest = ps.drop_last();
    assert(ps =~= rest.push(ps.last()));
    assert(ps.last() == ps[ps.len() - 1]);
    rest.lemma_filter_push(ps.last(), |p: (Seq<char>, Seq<char>)| p.0 == "userid"@);
    assert(rest[i] == ps[i]);
    if j == ps.len() - 1 {
        lemma_at_least_one(rest, i);
    } else {
        assert(rest[j] == ps[j]);
        lemma_two_userids(rest, i, j);
    }
}

proof fn lemma_at_least_one(ps: Seq<(Seq<char>, Seq<char>)>, i: int)
    requires
        0 <= i < ps.len(),
        ps[i].0 == userid_key(),
    ensures
        userid_pairs(ps).len() >= 1,
    decreases ps.len(),
{
    reveal_strlit("userid");
    assert("userid"@ =~= userid_key());
    let rest = ps.drop_last();
    assert(ps =~= rest.push(ps.last()));
    assert(ps.last() == ps[ps.len() - 1]);
    rest.lemma_filter_push(ps.last(), |p: (Seq<char>, Seq<char>)| p.0 == "userid"@);
    if i < ps.len() - 1 {
        assert(rest[i] == ps[i]);
        lemma_at_least_one(rest, i);
    }
}

/// The user id of a query string is the value of its `userid` pair when it
/// has exactly one, whatever other pairs it has; with none it is missing,
/// with two or more it is refused as a duplicate.
pub proof fn law_userid_is_the_one_userid_pair(ps: Seq<(Seq<char>, Seq<char>)>)
    ensures
        (forall|k: int| 0 <= k < ps.len() ==> (#[trigger] ps[k]).0 != userid_key()) ==> userid_of(
            Some(ps),
        ) == Err::<Seq<char>, QueryProblem>(QueryProblem::MissingUserId),
        forall|j: int|
            0 <= j < ps.len() && (#[trigger] ps[j]).0 == userid_key() && (forall|k: int|
                0 <= k < ps.len() && k != j ==> (#[trigger] ps[k]).0 != userid_key()) ==> userid_of(
                Some(ps),
            ) == Ok::<Seq<char>, QueryProblem>(ps[j].1),
        forall|i: int, j: int|
            0 <= i < j < ps.len() && (#[trigger] ps[i]).0 == userid_key() && (#[trigger] ps[j]).0
                == userid_key() ==> userid_of(Some(ps)) == Err::<Seq<char>, QueryProblem>(
                QueryProblem::DuplicateUserId,
            ),
        userid_of(None) == Err::<Seq<char>, QueryProblem>(QueryProblem::Unreadable),
{
    if forall|k: int| 0 <= k < ps.len() ==> (#[trigger] ps[k]).0 != userid_key() {
        lemma_no_userid(ps);
    }
    assert forall|j: int|
        0 <= j < ps.len() && (#[trigger] ps[j]).0 == userid_key() && (forall|k: int|
            0 <= k < ps.len() && k != j ==> (#[trigger] ps[k]).0 != userid_key()) implies userid_of(
        Some(ps),
    ) == Ok::<Seq<char>, QueryProblem>(ps[j].1) by {
        lemma_one_userid(ps, j);
    }
    assert forall|i: int, j: int|
        0 <= i < j < ps.len() && (#[trigger] ps[i]).0 == userid_key() && (#[trigger] ps[j]).0
            == userid_key() implies userid_of(Some(ps)) == Err::<Seq<char>, QueryProblem>(
        QueryProblem::DuplicateUserId,
    ) by {
        lemma_two_userids(ps, i, j);
    }
}

} // verus!

verus! {

/// Each method goes on the wire under its own name: `GET` for GET, `HEAD`
/// for HEAD, `POST` for POST and `PUT` for PUT, and no two methods share a
/// name.
pub proof fn law_method_names(a: Method, b: Method)
    ensures
        method_name(Method::Get) == seq!['G', 'E', 'T'],
        method_name(Method::Head) == seq!['H', 'E', 'A', 'D'],
        method_name(Method::Post) == seq!['P', 'O', 'S', 'T'],
        method_name(Method::Put) == seq!['P', 'U', 'T'],
        method_name(a) == method_name(b) ==> a == b,
{
    reveal_strlit("GET");
    reveal_strlit("HEAD");
    reveal_strlit("POST");
    reveal_strlit("PUT");
    reveal_strlit("DELETE");
    reveal_strlit("OPTIONS");
    reveal_strlit("PATCH");
    reveal_strlit("TRACE");
    reveal_strlit("CONNECT");
    reveal_strlit("OTHER");
    assert(method_name(Method::Get) =~= seq!['G', 'E', 'T']);
    assert(method_name(Method::Head) =~= seq!['H', 'E', 'A', 'D']);
    assert(method_name(Method::Post) =~= seq!['P', 'O', 'S', 'T']);
    assert(method_name(Method::Put) =~= seq!['P', 'U', 'T']);
    if method_name(a) == method_name(b) && a != b {
        let x = method_name(a);
        let y = method_name(b);
        assert(x.len() == y.len());
        assert(x[0] == y[0]);
        assert(x[1] == y[1]);
    }
}

/// The request target is the path alone when there is no query, and
/// otherwise the path, a `?`, and the query.
pub proof fn law_request_uri(path: Seq<char>, query: Option<Seq<char>>)
    ensures
        query is None ==> request_uri(path, query) == path,
        query matches Some(q) ==> request_uri(path, query) == path + seq!['?'] + q,
{
    reveal_strlit("?");
    assert("?"@ =~= seq!['?']);
}

} // verus!
