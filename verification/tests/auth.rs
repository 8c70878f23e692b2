//! What is asked of the authentication service, what its replies mean, and which
//! requests are believed to come from our own pages.

use orders_and_settlements::auth::{
    account_nav, action_error, caller, ensure_same_origin, eq_ignoring_case, guard_origin,
    incoming_cookie, incoming_parts, interpret_failure, no_session, optional_user, protected_page,
    require_user, self_origin, service_outage, session_reply, sign_in_plan, sign_out_plan,
    sign_out_reply, sign_up_plan, trim_end_slashes, user_reply, write_plan, AuthClient,
    AuthErrorBody, AuthReply, AuthRequestBody, AuthUser, Protected, RawReply,
};
use orders_and_settlements::error::{AppError, ServerFnErrorErr};
use orders_and_settlements::http::{encodable_values, read_header, read_headers, RequestHead};

/// The exact cookie the live service sets: `Path=/`, `HttpOnly`, `SameSite=Lax`,
/// and crucially **no `Domain` and no `Secure`**. That is what allows this
/// application to re-emit it on its own origin.
const SESSION_COOKIE: &str =
    "better-auth.session_token=tok.sig; Max-Age=604800; Path=/; HttpOnly; SameSite=Lax";

const BASE_URL: &str = "http://127.0.0.1:9000";

const USER_BODY: &str = r#"{
    "token": "tok",
    "user": {
        "id": "usr_01HX",
        "name": "Ada Lovelace",
        "email": "ada@example.com",
        "emailVerified": false,
        "image": null,
        "createdAt": "2026-08-12T09:00:00.000Z",
        "updatedAt": "2026-08-12T09:00:00.000Z"
    }
}"#;

const SESSION_BODY: &str = r#"{
    "session": {
        "id": "ses_01HX",
        "userId": "usr_01HX",
        "expiresAt": "2026-08-19T09:00:00.000Z",
        "token": "tok"
    },
    "user": {
        "id": "usr_01HX",
        "name": "Ada Lovelace",
        "email": "ada@example.com",
        "emailVerified": false
    }
}"#;

/// The user in a body, as a parser of it would find them.
fn user_in(body: &str) -> Option<AuthUser> {
    let parsed: serde_json::Value = serde_json::from_str(body).ok()?;
    let user = parsed.get("user")?;
    let field = |name: &str| user.get(name)?.as_str().map(str::to_owned);
    Some(AuthUser {
        id: field("id")?,
        name: field("name")?,
        email: field("email")?,
    })
}

/// The failure in a body, as a parser of it would find it.
fn failure_in(body: &str) -> Option<AuthErrorBody> {
    let parsed: serde_json::Value = serde_json::from_str(body).ok()?;
    let field = |name: &str| parsed.get(name)?.as_str().map(str::to_owned);
    parsed.as_object()?;
    Some(AuthErrorBody {
        code: field("code"),
        message: field("message"),
    })
}

fn reply(status: u16, body: &str, cookies: &[&str]) -> RawReply {
    let raw: Vec<Vec<u8>> = cookies
        .iter()
        .map(|cookie| cookie.as_bytes().to_vec())
        .collect();
    RawReply {
        status,
        cookies: read_headers(&raw),
        body: body.to_string(),
    }
}

fn credentials(reply: RawReply) -> Result<AuthReply<AuthUser>, AppError> {
    let user = user_in(&reply.body);
    let failure = failure_in(&reply.body);
    user_reply(reply, user, failure)
}

fn session(reply: RawReply) -> Result<AuthReply<Option<AuthUser>>, AppError> {
    let user = user_in(&reply.body);
    let failure = failure_in(&reply.body);
    session_reply(reply, user, failure)
}

fn bytes(value: &str) -> Option<Vec<u8>> {
    Some(value.as_bytes().to_vec())
}

/// Builds the head of a request from its headers.
fn parts(headers: &[(&str, &str)]) -> RequestHead {
    let mut head = RequestHead::default();
    for (name, value) in headers {
        match *name {
            "host" => head.host = bytes(value),
            "origin" => head.origin = bytes(value),
            "x-forwarded-proto" => head.forwarded_proto = bytes(value),
            "cookie" => head.cookie = bytes(value),
            _ => unreachable!(),
        }
    }
    head
}

/// Builds the head of a request from a page of this application.
fn own_page(headers: &[(&str, &str)]) -> RequestHead {
    let mut all = vec![
        ("host", "localhost:5174"),
        ("origin", "http://localhost:5174"),
    ];
    all.extend_from_slice(headers);
    parts(&all)
}

fn ada() -> AuthUser {
    AuthUser {
        id: "usr_01HX".to_string(),
        name: "Ada Lovelace".to_string(),
        email: "ada@example.com".to_string(),
    }
}

// ---------------------------------------------------------------------------
// Credential exchange
// ---------------------------------------------------------------------------

#[test]
fn sign_in_returns_the_identity_and_the_session_cookie() {
    let request = AuthClient::new(BASE_URL).sign_in("ada@example.com", "correct horse battery");
    assert!(request.post);
    assert_eq!(
        request.url,
        "http://127.0.0.1:9000/api/auth/sign-in/email".to_string()
    );
    assert_eq!(
        request.body,
        AuthRequestBody::SignIn {
            email: "ada@example.com".to_string(),
            password: "correct horse battery".to_string(),
        }
    );

    let reply = credentials(reply(200, USER_BODY, &[SESSION_COOKIE]))
        .expect("a 200 reply is a successful sign-in");

    assert_eq!(reply.value.id, "usr_01HX");
    assert_eq!(reply.value.email, "ada@example.com");
    assert_eq!(reply.value.name, "Ada Lovelace");
    // The cookie must survive verbatim: rewriting any attribute here would
    // change the scope the browser stores it under.
    assert_eq!(reply.cookies, vec![SESSION_COOKIE.to_string()]);
}

#[test]
fn a_trailing_slash_on_the_base_url_does_not_double_up() {
    let request = AuthClient::new(&format!("{BASE_URL}/"))
        .sign_in("ada@example.com", "correct horse battery");
    assert_eq!(request.url, format!("{BASE_URL}/api/auth/sign-in/email"));
    credentials(reply(200, USER_BODY, &[]))
        .expect("the path must resolve identically with or without the slash");
}

#[test]
fn wrong_credentials_surface_better_auths_own_message() {
    let body = r#"{"code":"INVALID_EMAIL_OR_PASSWORD","message":"Invalid email or password"}"#;
    let error = credentials(reply(401, body, &[])).expect_err("a 401 is a rejection");

    // Not Unauthenticated: the caller is *trying* to authenticate, and telling
    // them to sign in would be circular.
    assert_eq!(
        error,
        AppError::AuthRejected("Invalid email or password".to_string())
    );
    assert_eq!(error.status_code(), 400);
}

#[test]
fn a_duplicate_signup_is_rejected_not_treated_as_an_outage() {
    let request = AuthClient::new(BASE_URL).sign_up(
        "Ada Lovelace",
        "ada@example.com",
        "correct horse battery",
    );
    assert_eq!(request.url, format!("{BASE_URL}/api/auth/sign-up/email"));

    let body = r#"{
        "code": "USER_ALREADY_EXISTS_USE_ANOTHER_EMAIL",
        "message": "User already exists. Use another email."
    }"#;
    let error = credentials(reply(422, body, &[])).expect_err("a 422 is a rejection");

    assert_eq!(
        error,
        AppError::AuthRejected("User already exists. Use another email.".to_string())
    );
}

#[test]
fn a_rejection_without_a_usable_message_still_says_something() {
    let error =
        credentials(reply(400, "not json at all", &[])).expect_err("a 400 is a rejection");

    assert_eq!(
        error,
        AppError::AuthRejected("Those credentials were not accepted.".to_string())
    );
    // Nor is a blank message a usable one.
    let blank = r#"{"code":"INVALID","message":"   "}"#;
    assert_eq!(
        credentials(reply(400, blank, &[])),
        Err(AppError::AuthRejected(
            "Those credentials were not accepted.".to_string()
        ))
    );
}

#[test]
fn names_and_addresses_are_sent_without_the_white_space_around_them() {
    let head = own_page(&[]);
    let request = sign_up_plan(
        Some(&head),
        Some(BASE_URL),
        " Ada ",
        "\tada@example.com\n",
        " secret ",
    )
    .expect("the page is our own");
    // A password is sent as it is.
    assert_eq!(
        request,
        AuthClient::new(BASE_URL).sign_up("Ada", "ada@example.com", " secret ")
    );
    assert_eq!(request.cookie, None);
    assert_eq!(request.origin, None);
    assert_eq!(
        sign_in_plan(Some(&head), Some(BASE_URL), " ada@example.com ", " secret "),
        Ok(AuthClient::new(BASE_URL).sign_in("ada@example.com", " secret "))
    );
}

#[test]
fn no_credential_leaves_on_behalf_of_another_page() {
    let foreign = parts(&[
        ("host", "localhost:5174"),
        ("origin", "http://evil.example"),
        ("cookie", "session=tok"),
    ]);
    let silent = parts(&[("host", "localhost:5174"), ("cookie", "session=tok")]);
    for head in [&foreign, &silent] {
        assert_eq!(
            sign_up_plan(Some(head), Some(BASE_URL), "Ada", "a@b.c", "secret"),
            Err(AppError::ForbiddenOrigin)
        );
        assert_eq!(
            sign_in_plan(Some(head), Some(BASE_URL), "a@b.c", "secret"),
            Err(AppError::ForbiddenOrigin)
        );
        assert_eq!(
            sign_out_plan(Some(head), Some(BASE_URL)),
            Err(AppError::ForbiddenOrigin)
        );
        assert_eq!(
            write_plan(Some(head), Some(BASE_URL)),
            Err(AppError::ForbiddenOrigin)
        );
    }
    // Outside of any request there is nobody to act for.
    assert_eq!(
        sign_in_plan(None, Some(BASE_URL), "a@b.c", "secret"),
        Err(AppError::Internal)
    );
    assert_eq!(sign_out_plan(None, Some(BASE_URL)), Err(AppError::Internal));
    assert_eq!(write_plan(None, Some(BASE_URL)), Err(AppError::Internal));
    assert_eq!(incoming_parts(None), Err(AppError::Internal));
    assert_eq!(incoming_parts(Some(&silent)), Ok(&silent));
}

#[test]
fn a_change_asks_who_is_asking() {
    let head = own_page(&[("cookie", "session=tok")]);
    assert_eq!(
        write_plan(Some(&head), Some(BASE_URL)),
        Ok(Some(AuthClient::new(BASE_URL).get_session("session=tok")))
    );
    assert_eq!(write_plan(Some(&own_page(&[])), Some(BASE_URL)), Ok(None));
    assert_eq!(write_plan(Some(&head), None), Err(AppError::Internal));
    assert_eq!(
        sign_up_plan(Some(&head), None, "Ada", "a@b.c", "secret"),
        Err(AppError::Internal)
    );
}

#[test]
fn a_success_without_a_user_is_an_outage() {
    assert_eq!(
        credentials(reply(200, r#"{"token":"tok"}"#, &[])),
        Err(service_outage())
    );
}

// ---------------------------------------------------------------------------
// Session resolution
// ---------------------------------------------------------------------------

#[test]
fn a_valid_cookie_resolves_to_the_opaque_user_id() {
    let request = AuthClient::new(BASE_URL).get_session("better-auth.session_token=tok.sig");
    assert!(!request.post);
    assert_eq!(request.url, format!("{BASE_URL}/api/auth/get-session"));
    // Proves the browser's cookie is forwarded verbatim. Without this the
    // service would answer for the wrong session, or for none.
    assert_eq!(
        request.cookie,
        Some("better-auth.session_token=tok.sig".to_string())
    );
    assert_eq!(request.body, AuthRequestBody::Nothing);

    let reply = session(reply(200, SESSION_BODY, &[])).expect("a 200 reply is not an outage");

    assert_eq!(reply.value.expect("the session is valid").id, "usr_01HX");
}

#[test]
fn an_invalid_session_is_signed_out_not_an_error() {
    // The single most surprising part of the contract: the service answers 200
    // with a bare `null` for a session it does not recognise.
    let reply = session(reply(200, "null", &[])).expect("200 null must not be read as a failure");

    assert!(reply.value.is_none());
}

#[test]
fn an_empty_body_is_also_signed_out() {
    let reply =
        session(reply(204, "", &[])).expect("an empty body must not be read as a failure");

    assert!(reply.value.is_none());
}

#[test]
fn a_rotated_session_cookie_is_carried_back_out() {
    let rotated =
        "better-auth.session_token=fresh.sig; Max-Age=604800; Path=/; HttpOnly; SameSite=Lax";

    let reply = session(reply(200, SESSION_BODY, &[rotated]))
        .expect("a rotated cookie accompanies a valid session");

    // Dropping this would work until a long-lived session passed its updateAge
    // and then silently expired mid-use.
    assert_eq!(reply.cookies, vec![rotated.to_string()]);
    let caller = caller(Ok(reply)).expect("somebody is signed in");
    assert_eq!(caller.set_cookies, vec![rotated.to_string()]);
    assert_eq!(caller.user, ada());
}

#[test]
fn an_auth_outage_is_a_503_not_a_sign_out() {
    let error = session(reply(500, "Internal Server Error", &[]))
        .expect_err("a 5xx from the auth service is an outage");

    assert!(matches!(error, AppError::DependencyUnavailable(_)));
    assert_eq!(error.status_code(), 503);
}

#[test]
fn an_unreachable_auth_service_is_a_503() {
    let error = service_outage();

    assert!(
        matches!(error, AppError::DependencyUnavailable(_)),
        "expected an outage, got {error:?}"
    );
    assert_eq!(error.status_code(), 503);
    assert_eq!(
        error,
        AppError::DependencyUnavailable("The authentication service".to_string())
    );
}

#[test]
fn an_unreadable_body_is_an_outage_not_a_sign_out() {
    // 200 with a shape we cannot read: the service is misbehaving, which is
    // not the same as the visitor being signed out.
    let error = session(reply(200, r#"{"user": 42}"#, &[]))
        .expect_err("a malformed 200 is an outage");

    assert!(matches!(error, AppError::DependencyUnavailable(_)));
}

#[test]
fn an_empty_object_is_also_signed_out() {
    for body in ["{}", " {}\n"] {
        let rotated = "better-auth.session_token=fresh.sig; Path=/";
        let reply = session(reply(200, body, &[rotated]))
            .expect("an empty object must not be read as a failure");
        assert_eq!(reply.value, None);
        assert_eq!(reply.cookies, vec![rotated.to_string()]);
        assert_eq!(caller(Ok(reply)), Err(AppError::Unauthenticated));
    }
    assert!(no_session("{}"));
    assert!(!no_session("{ }"));
    // Of a failed reply it says nothing.
    assert_eq!(session(reply(500, "{}", &[])), Err(service_outage()));
}

#[test]
fn white_space_around_null_does_not_matter() {
    assert!(no_session(" null\n"));
    assert!(no_session("  "));
    assert!(!no_session("nullnull"));
    assert!(!no_session("{\"user\":null}"));
}

// ---------------------------------------------------------------------------
// Sign-out
// ---------------------------------------------------------------------------

#[test]
fn sign_out_preserves_every_clearing_cookie() {
    let cleared = [
        "better-auth.session_token=; Max-Age=0; Path=/; HttpOnly; SameSite=Lax",
        "better-auth.session_data=; Max-Age=0; Path=/; HttpOnly; SameSite=Lax",
        "better-auth.dont_remember=; Max-Age=0; Path=/; HttpOnly; SameSite=Lax",
    ];

    let request = AuthClient::new(BASE_URL)
        .sign_out("better-auth.session_token=tok.sig", "http://localhost:5174");
    assert!(request.post);
    assert_eq!(request.url, format!("{BASE_URL}/api/auth/sign-out"));
    assert_eq!(
        request.cookie,
        Some("better-auth.session_token=tok.sig".to_string())
    );
    // The service answers 403 without this; forwarding the browser's own
    // validated origin is what makes sign-out work at all.
    assert_eq!(request.origin, Some("http://localhost:5174".to_string()));

    let raw = reply(200, r#"{"success": true}"#, &cleared);
    let failure = failure_in(&raw.body);
    let reply = sign_out_reply(raw, failure).expect("a 200 reply is a successful sign-out");

    // All three, individually. Comma-folding them into one header would leave
    // the browser holding two stale cookies.
    assert_eq!(reply.cookies.len(), 3);
    for cookie in cleared {
        assert!(
            reply.cookies.iter().any(|value| value == cookie),
            "missing {cookie}"
        );
    }
}

#[test]
fn a_rejected_origin_is_reported_as_forbidden_not_as_bad_credentials() {
    let raw = reply(
        403,
        r#"{"code":"ORIGIN_NOT_ALLOWED","message":"Invalid origin"}"#,
        &[],
    );
    let failure = failure_in(&raw.body);
    let error = sign_out_reply(raw, failure).expect_err("an untrusted origin is refused");

    // The service's wording describes *our* misconfiguration, so it is replaced
    // rather than shown.
    assert_eq!(error, AppError::ForbiddenOrigin);
    assert_eq!(error.status_code(), 403);
    assert_eq!(
        interpret_failure(
            403,
            failure_in(r#"{"code":"MISSING_OR_NULL_ORIGIN","message":"No origin"}"#)
        ),
        AppError::ForbiddenOrigin
    );
}

#[test]
fn signing_out_while_signed_out_asks_for_nothing() {
    assert_eq!(sign_out_plan(Some(&own_page(&[])), Some(BASE_URL)), Ok(None));
    let head = own_page(&[("cookie", "session=tok")]);
    let request = sign_out_plan(Some(&head), Some(BASE_URL))
        .expect("the service is configured")
        .expect("there is a session");
    assert_eq!(
        request,
        AuthClient::new(BASE_URL).sign_out("session=tok", "http://localhost:5174")
    );
    assert_eq!(sign_out_plan(Some(&head), None), Err(AppError::Internal));
}

// ---------------------------------------------------------------------------
// Origin check
// ---------------------------------------------------------------------------

#[test]
fn a_same_origin_request_is_accepted_and_yields_the_origin() {
    let origin = ensure_same_origin(&parts(&[
        ("host", "localhost:5174"),
        ("origin", "http://localhost:5174"),
    ]))
    .expect("a request from our own page is trusted");

    // The value itself is what gets forwarded to sign-out.
    assert_eq!(origin, "http://localhost:5174");
}

#[test]
fn a_cross_origin_request_is_refused() {
    let error = ensure_same_origin(&parts(&[
        ("host", "localhost:5174"),
        ("origin", "http://evil.example"),
    ]))
    .expect_err("a request from another site is not trusted");

    assert_eq!(error, AppError::ForbiddenOrigin);
}

#[test]
fn a_request_with_no_origin_header_is_refused() {
    // A cookie alone is not authority to act: SameSite=Lax still permits a
    // top-level cross-site form POST.
    let error = ensure_same_origin(&parts(&[("host", "localhost:5174")]))
        .expect_err("a state-changing request must prove where it came from");

    assert_eq!(error, AppError::ForbiddenOrigin);
}

#[test]
fn a_request_with_no_host_header_is_refused() {
    let error = ensure_same_origin(&parts(&[("origin", "http://localhost:5174")]))
        .expect_err("without a Host there is nothing to compare against");

    assert_eq!(error, AppError::ForbiddenOrigin);
}

#[test]
fn the_same_host_on_a_different_port_is_a_different_origin() {
    let error = ensure_same_origin(&parts(&[
        ("host", "localhost:5174"),
        ("origin", "http://localhost:3000"),
    ]))
    .expect_err("port is part of the origin");

    assert_eq!(error, AppError::ForbiddenOrigin);
}

#[test]
fn tls_termination_is_honoured_through_x_forwarded_proto() {
    let origin = ensure_same_origin(&parts(&[
        ("host", "orders.example.com"),
        ("origin", "https://orders.example.com"),
        ("x-forwarded-proto", "https"),
    ]))
    .expect("behind a TLS-terminating proxy the scheme comes from the header");

    assert_eq!(origin, "https://orders.example.com");
}

#[test]
fn only_the_first_forwarded_proto_is_trusted() {
    // Proxies append, so the left-most value is the one the client saw. A
    // second value must not be able to downgrade the comparison.
    let origin = ensure_same_origin(&parts(&[
        ("host", "orders.example.com"),
        ("origin", "https://orders.example.com"),
        ("x-forwarded-proto", "https, http"),
    ]))
    .expect("the client-facing scheme wins");

    assert_eq!(origin, "https://orders.example.com");
}

#[test]
fn a_nonsense_forwarded_proto_falls_back_rather_than_being_echoed() {
    let error = ensure_same_origin(&parts(&[
        ("host", "orders.example.com"),
        ("origin", "javascript://orders.example.com"),
        ("x-forwarded-proto", "javascript"),
    ]))
    .expect_err("only http and https are schemes this application will assume");

    assert_eq!(error, AppError::ForbiddenOrigin);
}

#[test]
fn the_origin_is_compared_without_regard_to_case_and_given_as_our_own() {
    let origin = ensure_same_origin(&parts(&[
        ("host", "orders.example.com"),
        ("origin", "HTTP://Orders.Example.COM"),
    ]));
    assert_eq!(origin, Ok("http://orders.example.com".to_string()));
    assert!(eq_ignoring_case("AbC", "aBc"));
    assert!(!eq_ignoring_case("abc", "abcd"));
    // Only ASCII letters have a case here.
    assert!(!eq_ignoring_case("Ä", "ä"));
    assert!(!eq_ignoring_case("[", "{"));
}

#[test]
fn without_a_host_header_the_authority_takes_its_place() {
    let mut head = parts(&[("origin", "http://orders.example.com")]);
    head.authority = Some("orders.example.com".to_string());
    assert_eq!(
        self_origin(&head),
        Some("http://orders.example.com".to_string())
    );
    assert!(ensure_same_origin(&head).is_ok());
    // A host that cannot be read counts as none.
    head.host = Some(vec![0xe4]);
    assert!(ensure_same_origin(&head).is_ok());
    head.host = bytes("localhost");
    assert_eq!(ensure_same_origin(&head), Err(AppError::ForbiddenOrigin));
}

#[test]
fn the_guard_lets_a_request_without_an_origin_through() {
    let none = parts(&[("host", "localhost")]);
    assert_eq!(guard_origin(&none), Ok(()));
    let own = parts(&[("host", "localhost"), ("origin", "http://localhost")]);
    assert_eq!(guard_origin(&own), Ok(()));
    let foreign = parts(&[("host", "localhost"), ("origin", "https://localhost")]);
    assert_eq!(guard_origin(&foreign), Err(AppError::ForbiddenOrigin));
    // An origin that cannot be read is there all the same.
    let mut unreadable = none;
    unreadable.origin = Some(vec![0xff]);
    assert_eq!(guard_origin(&unreadable), Err(AppError::ForbiddenOrigin));
}

// ---------------------------------------------------------------------------
// Headers
// ---------------------------------------------------------------------------

#[test]
fn a_header_is_text_if_all_of_it_is_visible_ascii() {
    assert_eq!(read_header(&None), None);
    assert_eq!(read_header(&bytes("a b\tc~")), Some("a b\tc~".to_string()));
    assert_eq!(read_header(&bytes("")), Some(String::new()));
    assert_eq!(read_header(&bytes("ä")), None);
    assert_eq!(read_header(&Some(vec![127])), None);
    assert_eq!(read_header(&Some(vec![10])), None);
    assert_eq!(incoming_cookie(&parts(&[("cookie", "a=1; b=2")])), Some("a=1; b=2".to_string()));
}

#[test]
fn headers_that_cannot_be_read_are_left_out() {
    let values = vec![b"a=1".to_vec(), vec![0xff], b"b=2".to_vec()];
    assert_eq!(
        read_headers(&values),
        vec!["a=1".to_string(), "b=2".to_string()]
    );
}

#[test]
fn only_texts_that_can_stand_in_a_header_are_sent() {
    let values = vec!["a=1".to_string(), "b=\r\n".to_string(), "c=\u{7f}".to_string()];
    assert_eq!(encodable_values(values), vec!["a=1".to_string()]);
}

// ---------------------------------------------------------------------------
// The caller
// ---------------------------------------------------------------------------

#[test]
fn nobody_is_signed_in_without_a_request_or_a_cookie() {
    assert_eq!(optional_user(None, Some(BASE_URL)), Ok(None));
    assert_eq!(optional_user(Some(&parts(&[])), None), Ok(None));
    let head = parts(&[("cookie", "session=tok")]);
    assert_eq!(
        optional_user(Some(&head), Some("http://127.0.0.1:9000/")),
        Ok(Some(AuthClient::new(BASE_URL).get_session("session=tok")))
    );
    assert_eq!(optional_user(Some(&head), Some("  ")), Err(AppError::Internal));
    assert_eq!(optional_user(Some(&head), None), Err(AppError::Internal));
}

#[test]
fn whoever_is_not_signed_in_is_told_so() {
    assert_eq!(require_user(Some(ada())), Ok(ada()));
    assert_eq!(require_user(None), Err(AppError::Unauthenticated));
    let nobody = AuthReply {
        value: None,
        cookies: vec![],
    };
    assert_eq!(caller(Ok(nobody)), Err(AppError::Unauthenticated));
    assert_eq!(caller(Err(service_outage())), Err(service_outage()));
}

#[test]
fn every_slash_at_the_end_of_an_address_is_dropped() {
    assert_eq!(trim_end_slashes("http://a//"), "http://a");
    assert_eq!(trim_end_slashes("///"), "");
    assert_eq!(trim_end_slashes("/a"), "/a");
    assert_eq!(AuthClient::new("http://a/b/").endpoint("/c"), "http://a/b/c");
    assert_eq!(
        AuthClient::from_env(Some("http://a/")),
        Ok(AuthClient::new("http://a"))
    );
}

#[test]
fn a_protected_page_tells_signed_out_from_out_of_service() {
    assert_eq!(protected_page(&Ok(Some(ada()))), Protected::Page);
    let sign_in = Protected::SignInRequired("Sign in to see this page.".to_string());
    assert_eq!(protected_page(&Ok(None)), sign_in);
    assert_eq!(protected_page(&Err(AppError::Unauthenticated)), sign_in);
    assert_eq!(
        protected_page(&Err(service_outage())),
        Protected::SignInRequired(service_outage().to_string())
    );
    assert_eq!(
        account_nav(&Ok(Some(ada()))),
        Some("ada@example.com".to_string())
    );
    assert_eq!(account_nav(&Ok(None)), None);
    assert_eq!(account_nav(&Err(service_outage())), None);
    assert_eq!(action_error(&None), None);
    assert_eq!(action_error(&Some(Ok(()))), None);
    assert_eq!(
        action_error(&Some(Err(AppError::AuthRejected("No.".to_string())))),
        Some("No.".to_string())
    );
}

// ---------------------------------------------------------------------------
// Error contract
// ---------------------------------------------------------------------------

#[test]
fn every_auth_error_maps_to_the_status_a_client_expects() {
    assert_eq!(AppError::Unauthenticated.status_code(), 401);
    assert_eq!(AppError::Unauthenticated.code(), "UNAUTHENTICATED");
    assert_eq!(AppError::ForbiddenOrigin.status_code(), 403);
    assert_eq!(AppError::ForbiddenOrigin.code(), "FORBIDDEN_ORIGIN");
}

#[test]
fn a_dropped_connection_reaches_the_caller_as_a_transport_error() {
    let error =
        AppError::from_server_fn_error(ServerFnErrorErr::Request("network error".to_string()));

    assert_eq!(error, AppError::Transport("network error".to_string()));
}
