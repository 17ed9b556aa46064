use pipo::serve::{serve_request, QueryProblem, Served};
use pipo::http::{
    answer, served_reply, unknown_route, unsupported_method, Decision, Endpoint, MatrixBearer,
    MatrixError, MatrixErrorCode, Method, Reply, ReplyBody,
};

fn error_reply(status: u16, errcode: MatrixErrorCode, error: &str) -> Reply {
    Reply { status, body: ReplyBody::Error(MatrixError { errcode, error: error.to_string() }) }
}

fn bearer(token: &str) -> MatrixBearer {
    assert!(MatrixBearer::accepts_token(token));
    MatrixBearer::new(token)
}

fn header(token: &str) -> Vec<u8> {
    format!("Bearer {token}").into_bytes()
}

#[test]
fn matrix_handle_invalid_token() {
    let hs_token = "abcd";
    let d = answer(Some(Endpoint::MatrixRoot), Method::Get, Some(b"Bearer dcba"), &bearer(hs_token));
    assert_eq!(
        d,
        Decision::Respond(error_reply(403, MatrixErrorCode::MForbidden, "Bad token supplied"))
    );
}

#[test]
fn matrix_handle_valid_token() {
    let hs_token = "abcd";
    let h = header(hs_token);
    let d = answer(Some(Endpoint::MatrixRoot), Method::Get, Some(&h), &bearer(hs_token));
    assert_eq!(d, Decision::Serve(Endpoint::MatrixRoot));
    assert_eq!(served_reply(Endpoint::MatrixRoot), Reply { status: 200, body: ReplyBody::Empty });
}

#[test]
fn matrix_handle_unknown_endpoint() {
    let hs_token = "test_handle_unknown_endpoint";
    let h = header(hs_token);
    let d = answer(None, Method::Get, Some(&h), &bearer(hs_token));
    assert_eq!(
        d,
        Decision::Respond(error_reply(404, MatrixErrorCode::MUnrecognized, "Unknown endpoint"))
    );
}

#[test]
fn matrix_handle_known_endpoint() {
    let hs_token = "test_handle_unknown_endpoint";
    let h = header(hs_token);
    let d = answer(Some(Endpoint::MatrixRoot), Method::Get, Some(&h), &bearer(hs_token));
    assert_eq!(d, Decision::Serve(Endpoint::MatrixRoot));
    assert_eq!(served_reply(Endpoint::MatrixRoot), Reply { status: 200, body: ReplyBody::Empty });
}

#[test]
fn matrix_handle_unsupported_method() {
    let hs_token = "unit-test";
    let h = header(hs_token);
    let d = answer(Some(Endpoint::MatrixRoot), Method::Post, Some(&h), &bearer(hs_token));
    assert_eq!(
        d,
        Decision::Respond(error_reply(405, MatrixErrorCode::MUnrecognized, "Unsupported method"))
    );
}

fn served_with_empty_object(
    endpoint: Endpoint,
    method: Method,
    hs_token: &str,
    path: &str,
    query: Option<&str>,
    body: &str,
    path_args: &[&str],
) {
    let h = header(hs_token);
    let d = answer(Some(endpoint), method, Some(&h), &bearer(hs_token));
    assert_eq!(d, Decision::Serve(endpoint));
    let headers = vec![("authorization".to_string(), h)];
    let args: Vec<String> = path_args.iter().map(|a| a.to_string()).collect();
    let served = serve_request(endpoint, method, path, query, &headers, body.as_bytes(), &args);
    assert_eq!(served, Served::Reply(Reply { status: 200, body: ReplyBody::EmptyObject }));
}

#[test]
fn matrix_handle_get_user() {
    served_with_empty_object(
        Endpoint::User,
        Method::Get,
        "test_handle_get_users",
        "/_matrix/app/v1/users/@example:example.org",
        None,
        "{}",
        &["@example:example.org"],
    );
}

#[test]
fn matrix_handle_put_transactions() {
    let hs_token = "test_handle_unknown_endpoint";
    let h = header(hs_token);
    let d = answer(Some(Endpoint::Transaction), Method::Put, Some(&h), &bearer(hs_token));
    assert_eq!(d, Decision::Serve(Endpoint::Transaction));
    let body = r#"{"events":[{}],"txn_id":"id"}"#;
    let served = serve_request(
        Endpoint::Transaction,
        Method::Put,
        "/_matrix/app/v1/transactions/1",
        None,
        &vec![],
        body.as_bytes(),
        &vec!["1".to_string()],
    );
    assert_eq!(served, Served::Transaction(vec!["{}".to_string()]));
    assert_eq!(served_reply(Endpoint::Transaction), Reply { status: 200, body: ReplyBody::EmptyObject });
}

#[test]
fn matrix_handle_get_room_alias() {
    served_with_empty_object(
        Endpoint::Room,
        Method::Get,
        "test_handle_unknown_endpoint",
        "/_matrix/app/v1/rooms/%23room:alias.com",
        None,
        "",
        &["#room:alias.com"],
    );
}

#[test]
fn matrix_handle_get_thirdparty_protocol() {
    served_with_empty_object(
        Endpoint::ThirdpartyProtocol,
        Method::Get,
        "test_handle_unknown_endpoint",
        "/_matrix/app/v1/thirdparty/protocol/chosen-protocol",
        None,
        "",
        &["chosen-protocol"],
    );
}

#[test]
fn matrix_handle_post_ping() {
    served_with_empty_object(
        Endpoint::Ping,
        Method::Post,
        "test_handle_unknown_endpoint",
        "/_matrix/app/v1/ping",
        None,
        r#"{"transaction_id":"mautrix-go_1683636478256400935_123"}"#,
        &[],
    );
}

#[test]
fn matrix_handle_get_thirdparty_location() {
    served_with_empty_object(
        Endpoint::ThirdpartyLocation,
        Method::Get,
        "test_handle_unknown_endpoint",
        "/_matrix/app/v1/thirdparty/location",
        Some("alias=%23room:example.com"),
        "",
        &[],
    );
}

#[test]
fn matrix_handle_get_thirdparty_location_protocol() {
    served_with_empty_object(
        Endpoint::ThirdpartyLocationProtocol,
        Method::Get,
        "test_handle_unknown_endpoint",
        "/_matrix/app/v1/thirdparty/location/chosen-protocol",
        None,
        "",
        &["chosen-protocol"],
    );
}

#[test]
fn matrix_handle_get_thirdparty_user() {
    served_with_empty_object(
        Endpoint::ThirdpartyUser,
        Method::Get,
        "test_handle_unknown_endpoint",
        "/_matrix/app/v1/thirdparty/user",
        Some("userid=@user:example.com"),
        "",
        &[],
    );
}

#[test]
fn matrix_handle_get_thirdparty_user_protocol() {
    served_with_empty_object(
        Endpoint::ThirdpartyUserProtocol,
        Method::Get,
        "test_handle_unknown_endpoint",
        "/_matrix/app/v1/thirdparty/user/chosen-user-protocol",
        None,
        "",
        &["chosen-user-protocol"],
    );
}

#[test]
fn thirdparty_user_needs_exactly_one_userid() {
    let none: Vec<(String, Vec<u8>)> = vec![];
    let args: Vec<String> = vec![];
    let path = "/_matrix/app/v1/thirdparty/user";
    assert_eq!(
        serve_request(Endpoint::ThirdpartyUser, Method::Get, path, None, &none, b"", &args),
        Served::BadQuery(QueryProblem::MissingUserId)
    );
    assert_eq!(
        serve_request(Endpoint::ThirdpartyUser, Method::Get, path, Some("userid=@a:x&userid=@b:x"), &none, b"", &args),
        Served::BadQuery(QueryProblem::DuplicateUserId)
    );
}

#[test]
fn unreadable_requests_are_reported() {
    let none: Vec<(String, Vec<u8>)> = vec![];
    let served = serve_request(
        Endpoint::User,
        Method::Get,
        "/_matrix/app/v1/users/not-a-user-id",
        None,
        &none,
        b"",
        &vec!["not-a-user-id".to_string()],
    );
    assert_eq!(served, Served::Unreadable);
    let served = serve_request(
        Endpoint::Transaction,
        Method::Put,
        "/_matrix/app/v1/transactions/1",
        None,
        &none,
        b"not json",
        &vec!["1".to_string()],
    );
    assert_eq!(served, Served::Unreadable);
}

#[test]
fn root_paths_are_served_without_reading() {
    let none: Vec<(String, Vec<u8>)> = vec![];
    let args: Vec<String> = vec![];
    assert_eq!(
        serve_request(Endpoint::Root, Method::Get, "/", None, &none, b"", &args),
        Served::Reply(Reply { status: 200, body: ReplyBody::Greeting })
    );
    assert_eq!(
        serve_request(Endpoint::MatrixRoot, Method::Head, "/_matrix/", None, &none, b"", &args),
        Served::Reply(Reply { status: 200, body: ReplyBody::Empty })
    );
}

#[test]
fn root_is_greeted() {
    assert_eq!(served_reply(Endpoint::Root), Reply { status: 200, body: ReplyBody::Greeting });
}

#[test]
fn missing_header_is_forbidden() {
    let d = answer(Some(Endpoint::Ping), Method::Post, None, &bearer("abcd"));
    assert_eq!(
        d,
        Decision::Respond(error_reply(403, MatrixErrorCode::MForbidden, "Bad token supplied"))
    );
}

#[test]
fn token_is_checked_before_method() {
    let d = answer(Some(Endpoint::Ping), Method::Get, Some(b"Bearer nope"), &bearer("abcd"));
    assert_eq!(
        d,
        Decision::Respond(error_reply(403, MatrixErrorCode::MForbidden, "Bad token supplied"))
    );
}

#[test]
fn unknown_path_needs_no_token() {
    let d = answer(None, Method::Delete, None, &bearer("abcd"));
    assert_eq!(d, Decision::Respond(unknown_route()));
}

#[test]
fn head_is_served_where_get_is() {
    let h = header("abcd");
    let b = bearer("abcd");
    assert_eq!(answer(Some(Endpoint::Root), Method::Head, Some(&h), &b), Decision::Serve(Endpoint::Root));
    assert_eq!(
        answer(Some(Endpoint::Transaction), Method::Head, Some(&h), &b),
        Decision::Respond(unsupported_method())
    );
}

#[test]
fn header_must_match_exactly() {
    let b = bearer("abcd");
    assert!(b.validate(Some(b"Bearer abcd")).is_ok());
    assert!(b.validate(Some(b"Bearer abcde")).is_err());
    assert!(b.validate(Some(b"bearer abcd")).is_err());
    assert!(b.validate(Some(b"Bearer abc")).is_err());
    assert!(b.validate(None).is_err());
}

#[test]
fn non_ascii_token_is_compared_as_utf8() {
    let b = bearer("jeton-été");
    let h = "Bearer jeton-été".as_bytes().to_vec();
    assert!(b.validate(Some(&h)).is_ok());
}

#[test]
fn control_characters_are_refused_as_tokens() {
    assert!(!MatrixBearer::accepts_token("ab\ncd"));
    assert!(!MatrixBearer::accepts_token("ab\u{7f}"));
    assert!(MatrixBearer::accepts_token("ab\tcd"));
    assert!(MatrixBearer::accepts_token(""));
}

#[test]
fn routes_are_listed_in_order() {
    let routes = pipo::http::matrix_routes();
    let paths: Vec<&str> = routes.iter().map(|e| e.path()).collect();
    assert_eq!(
        paths,
        vec![
            "/",
            "/_matrix/",
            "/_matrix/app/v1/users/:userId",
            "/_matrix/app/v1/transactions/:txnId",
            "/_matrix/app/v1/rooms/:room",
            "/_matrix/app/v1/thirdparty/protocol/:protocol",
            "/_matrix/app/v1/ping",
            "/_matrix/app/v1/thirdparty/location",
            "/_matrix/app/v1/thirdparty/location/:protocol",
            "/_matrix/app/v1/thirdparty/user",
            "/_matrix/app/v1/thirdparty/user/:protocol",
        ]
    );
    assert!(Endpoint::Transaction.accepts(Method::Put));
    assert!(!Endpoint::Transaction.accepts(Method::Get));
    assert!(Endpoint::Ping.accepts(Method::Post));
    assert!(Endpoint::User.accepts(Method::Head));
}
