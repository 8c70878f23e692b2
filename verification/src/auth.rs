//! Who is asking, and from where.
//!
//! An external service is the only authority on identity. The cookie of a request
//! is forwarded to it, its answer is believed, and every cookie it sets is handed
//! on. Three things about its answers shape this module: a session it does not
//! know is a success with the body `null`, `{}` or nothing, its own failures are
//! never "signed out", and every cookie stays a header of its own.

use vstd::prelude::*;

use crate::app;
use crate::error;
use crate::error::{AppError, AppErrorView, AppResult};
use crate::http;
use crate::http::{RequestHead, RequestHeadView};
use crate::text;

verus! {

/// The authenticated identity. `id` is opaque, and the key by which every order
/// belongs to somebody.
#[derive(Debug, Clone, PartialEq, Eq)]
pub struct AuthUser {
    pub id: String,
    pub name: String,
    pub email: String,
}

// ---------------------------------------------------------------------------
// The origin of a request
// ---------------------------------------------------------------------------

/// The host that a request was addressed to.
pub open spec fn host_of(head: RequestHeadView) -> Option<Seq<char>> {
    match http::header_value(head.host) {
        Some(host) => Some(host),
        None => head.authority,
    }
}

/// The scheme that a client used: the first forwarded one, if it is `http` or
/// `https`, and `http` otherwise.
pub open spec fn scheme_of(head: RequestHeadView) -> Seq<char> {
    match http::header_value(head.forwarded_proto) {
        Some(schemes) => {
            let first = text::trimmed(text::before(schemes, ','));
            if first == "http"@ || first == "https"@ {
                first
            } else {
                "http"@
            }
        },
        None => "http"@,
    }
}

/// This application's own origin, as the client addressed it.
pub open spec fn own_origin(head: RequestHeadView) -> Option<Seq<char>> {
    match host_of(head) {
        Some(host) => Some(scheme_of(head) + "://"@ + host),
        None => None,
    }
}

/// Whether two texts agree up to the case of ASCII letters.
pub open spec fn same_ignoring_case(a: Seq<char>, b: Seq<char>) -> bool {
    a.map_values(|c: char| app::ascii_lower(c)) == b.map_values(|c: char| app::ascii_lower(c))
}

/// Whether a request came from a page of this application: it names its origin,
/// and that is our own.
pub open spec fn from_own_page(head: RequestHeadView) -> bool {
    match (own_origin(head), http::header_value(head.origin)) {
        (Some(own), Some(origin)) => same_ignoring_case(origin, own),
        _ => false,
    }
}

/// Whether a request passes the guard: it names no origin, or our own.
pub open spec fn passes_guard(head: RequestHeadView) -> bool {
    head.origin is None || from_own_page(head)
}

/// A character in lower case, if it is an ASCII letter.
fn lower_char(c: char) -> (r: char)
    ensures
        r == app::ascii_lower(c),
{
    if 'A' <= c && c <= 'Z' {
        (c as u8 + 32) as char
    } else {
        c
    }
}

/// Whether two texts agree up to the case of ASCII letters.
pub fn eq_ignoring_case(a: &str, b: &str) -> (r: bool)
    ensures
        r == same_ignoring_case(a@, b@),
{
    let left = text::chars_of(a);
    let right = text::chars_of(b);
    if left.len() != right.len() {
        assert(a@.map_values(|c: char| app::ascii_lower(c)).len() != b@.map_values(
            |c: char| app::ascii_lower(c),
        ).len());
        return false;
    }
    let mut i: usize = 0;
    while i < left.len()
        invariant
            i <= left@.len(),
            left@ == a@,
            right@ == b@,
            left@.len() == right@.len(),
            forall|j: int|
                0 <= j < i ==> app::ascii_lower(#[trigger] left@[j]) == app::ascii_lower(right@[j]),
        decreases left@.len() - i,
    {
        if lower_char(left[i]) != lower_char(right[i]) {
            assert(a@.map_values(|c: char| app::ascii_lower(c))[i as int] != b@.map_values(
                |c: char| app::ascii_lower(c),
            )[i as int]);
            return false;
        }
        i = i + 1;
    }
    assert(a@.map_values(|c: char| app::ascii_lower(c)) =~= b@.map_values(
        |c: char| app::ascii_lower(c),
    ));
    true
}

/// This application's own origin, as the client addressed it.
///
/// Derived from the request, so that there is no setting to keep in step with the
/// authentication service. Proxies append to the forwarded scheme, so its first
/// value is the one that the client used.
pub fn self_origin(head: &RequestHead) -> (r: Option<String>)
    ensures
        match r {
            Some(origin) => own_origin(head@) == Some(origin@),
            None => own_origin(head@) is None,
        },
{
    let host = match http::read_header(&head.host) {
        Some(host) => host,
        None => match &head.authority {
            Some(authority) => authority.clone(),
            None => {
                return None;
            },
        },
    };
    let mut origin = "http".to_owned();
    if let Some(schemes) = http::read_header(&head.forwarded_proto) {
        let chars = text::chars_of(schemes.as_str());
        let (first, _) = text::split_once(chars.as_slice(), ',');
        let scheme = text::string_of(text::trim(first));
        if text::same_text(scheme.as_str(), "http") || text::same_text(scheme.as_str(), "https") {
            origin = scheme;
        }
    }
    origin.append("://");
    origin.append(host.as_str());
    Some(origin)
}

/// Refuses a state-changing request that did not come from a page of this
/// application, and gives the origin that was checked.
///
/// A cookie is sent along by the browser whoever asked for the request, so it is
/// not sufficient authority to act.
pub fn ensure_same_origin(head: &RequestHead) -> (r: AppResult<String>)
    ensures
        match r {
            Ok(origin) => from_own_page(head@) && own_origin(head@) == Some(origin@),
            Err(error) => !from_own_page(head@) && error@ == AppErrorView::ForbiddenOrigin,
        },
{
    match (self_origin(head), http::read_header(&head.origin)) {
        (Some(expected), Some(origin)) => {
            if eq_ignoring_case(origin.as_str(), expected.as_str()) {
                Ok(expected)
            } else {
                Err(AppError::ForbiddenOrigin)
            }
        },
        _ => Err(AppError::ForbiddenOrigin),
    }
}

/// Refuses a state-changing request that a browser sent from elsewhere.
///
/// A browser cannot leave out the origin of a cross-site request, so without one
/// the request did not come from a page at all and is let through. One that is
/// there and is not ours is refused.
pub fn guard_origin(head: &RequestHead) -> (r: AppResult<()>)
    ensures
        match r {
            Ok(_) => passes_guard(head@),
            Err(error) => !passes_guard(head@) && error@ == AppErrorView::ForbiddenOrigin,
        },
{
    match &head.origin {
        None => Ok(()),
        Some(_) => match ensure_same_origin(head) {
            Ok(_) => Ok(()),
            Err(error) => Err(error),
        },
    }
}

/// The browser's session cookie, verbatim.
pub fn incoming_cookie(head: &RequestHead) -> (r: Option<String>)
    ensures
        match r {
            Some(cookie) => http::header_value(head@.cookie) == Some(cookie@),
            None => http::header_value(head@.cookie) is None,
        },
{
    http::read_header(&head.cookie)
}

// ---------------------------------------------------------------------------
// Requests to the service
// ---------------------------------------------------------------------------

/// The name of the service in every message about an outage.
pub const DEPENDENCY: &'static str = "The authentication service";

/// The error that an outage of the service becomes.
pub open spec fn outage() -> AppErrorView {
    AppErrorView::DependencyUnavailable(DEPENDENCY@)
}

/// The error that an outage of the service becomes.
pub fn service_outage() -> (r: AppError)
    ensures
        r@ == outage(),
{
    AppError::DependencyUnavailable(DEPENDENCY.to_owned())
}

/// `s` without the slashes at its end.
pub open spec fn without_end_slashes(s: Seq<char>) -> Seq<char>
    decreases s.len(),
{
    if s.len() > 0 && s.last() == '/' {
        without_end_slashes(s.drop_last())
    } else {
        s
    }
}

/// The text without the slashes at its end.
pub fn trim_end_slashes(raw: &str) -> (r: String)
    ensures
        r@ == without_end_slashes(raw@),
{
    let chars = text::chars_of(raw);
    let mut end: usize = chars.len();
    assert(raw@.take(end as int) =~= raw@);
    while end > 0 && chars[end - 1] == '/'
        invariant
            end <= chars@.len(),
            chars@ == raw@,
            without_end_slashes(raw@.take(end as int)) == without_end_slashes(raw@),
        decreases end,
    {
        assert(raw@.take(end as int).drop_last() =~= raw@.take(end - 1));
        end = end - 1;
    }
    assert(raw@.take(end as int) =~= raw@.subrange(0, end as int));
    text::string_of(vstd::slice::slice_subrange(chars.as_slice(), 0, end))
}

/// Where the service is.
#[derive(Debug, Clone, PartialEq, Eq)]
pub struct AuthClient {
    pub base_url: String,
}

/// What a request to the service carries as its body.
#[derive(Debug, Clone, PartialEq, Eq)]
pub enum AuthRequestBody {
    Nothing,
    SignUp { name: String, email: String, password: String },
    SignIn { email: String, password: String },
}

/// A request to the service, for the program to send.
#[derive(Debug, Clone, PartialEq, Eq)]
pub struct AuthRequest {
    /// `POST` if set, `GET` otherwise.
    pub post: bool,
    pub url: String,
    pub cookie: Option<String>,
    pub origin: Option<String>,
    pub body: AuthRequestBody,
}

/// Whether a request is the one that registers a user.
pub open spec fn asks_to_sign_up(
    request: AuthRequest,
    base_url: Seq<char>,
    name: Seq<char>,
    email: Seq<char>,
    password: Seq<char>,
) -> bool {
    &&& request.post
    &&& request.url@ == base_url + "/api/auth/sign-up/email"@
    &&& request.cookie is None
    &&& request.origin is None
    &&& request.body matches AuthRequestBody::SignUp { name: n, email: e, password: p } && n@ == name
        && e@ == email && p@ == password
}

/// Whether a request is the one that exchanges credentials for a session.
pub open spec fn asks_to_sign_in(
    request: AuthRequest,
    base_url: Seq<char>,
    email: Seq<char>,
    password: Seq<char>,
) -> bool {
    &&& request.post
    &&& request.url@ == base_url + "/api/auth/sign-in/email"@
    &&& request.cookie is None
    &&& request.origin is None
    &&& request.body matches AuthRequestBody::SignIn { email: e, password: p } && e@ == email && p@
        == password
}

/// Whether a request is the one that asks for the session behind a cookie.
pub open spec fn asks_for_session(request: AuthRequest, base_url: Seq<char>, cookie: Seq<char>) -> bool {
    &&& !request.post
    &&& request.url@ == base_url + "/api/auth/get-session"@
    &&& request.cookie matches Some(sent) && sent@ == cookie
    &&& request.origin is None
    &&& request.body is Nothing
}

/// Whether a request is the one that revokes the session behind a cookie.
pub open spec fn asks_to_sign_out(
    request: AuthRequest,
    base_url: Seq<char>,
    cookie: Seq<char>,
    origin: Seq<char>,
) -> bool {
    &&& request.post
    &&& request.url@ == base_url + "/api/auth/sign-out"@
    &&& request.cookie matches Some(sent) && sent@ == cookie
    &&& request.origin matches Some(sent) && sent@ == origin
    &&& request.body is Nothing
}

/// The configured address of the service, if there is one.
pub open spec fn configured(setting: Option<&str>) -> Option<Seq<char>> {
    match setting {
        Some(url) => if text::trimmed(url@).len() > 0 {
            Some(without_end_slashes(url@))
        } else {
            None
        },
        None => None,
    }
}

impl AuthClient {
    /// Points the client at a base address, with or without slashes at its end.
    pub fn new(base_url: &str) -> (r: Self)
        ensures
            r.base_url@ == without_end_slashes(base_url@),
    {
        AuthClient { base_url: trim_end_slashes(base_url) }
    }

    /// The client for the configured address. Startup makes sure that there is
    /// one, so its absence is a defect here and not a client's mistake.
    pub fn from_env(setting: Option<&str>) -> (r: AppResult<Self>)
        ensures
            match configured(setting) {
                Some(url) => r matches Ok(client) && client.base_url@ == url,
                None => r matches Err(error) && error@ == AppErrorView::Internal,
            },
    {
        match setting {
            Some(url) => {
                let chars = text::chars_of(url);
                if text::trim(chars.as_slice()).len() > 0 {
                    Ok(AuthClient::new(url))
                } else {
                    Err(AppError::Internal)
                }
            },
            None => Err(AppError::Internal),
        }
    }

    /// The address of one of the service's endpoints.
    pub fn endpoint(&self, path: &str) -> (r: String)
        ensures
            r@ == self.base_url@ + path@,
    {
        let mut r = self.base_url.clone();
        r.append(path);
        r
    }

    /// Registers a user.
    pub fn sign_up(&self, name: &str, email: &str, password: &str) -> (r: AuthRequest)
        ensures
            asks_to_sign_up(r, self.base_url@, name@, email@, password@),
    {
        AuthRequest {
            post: true,
            url: self.endpoint("/api/auth/sign-up/email"),
            cookie: None,
            origin: None,
            body: AuthRequestBody::SignUp {
                name: name.to_owned(),
                email: email.to_owned(),
                password: password.to_owned(),
            },
        }
    }

    /// Exchanges credentials for a session cookie.
    pub fn sign_in(&self, email: &str, password: &str) -> (r: AuthRequest)
        ensures
            asks_to_sign_in(r, self.base_url@, email@, password@),
    {
        AuthRequest {
            post: true,
            url: self.endpoint("/api/auth/sign-in/email"),
            cookie: None,
            origin: None,
            body: AuthRequestBody::SignIn {
                email: email.to_owned(),
                password: password.to_owned(),
            },
        }
    }

    /// Revokes the session behind a cookie, in the name of the origin that was
    /// checked: the service refuses a request without one.
    pub fn sign_out(&self, cookie: &str, origin: &str) -> (r: AuthRequest)
        ensures
            asks_to_sign_out(r, self.base_url@, cookie@, origin@),
    {
        AuthRequest {
            post: true,
            url: self.endpoint("/api/auth/sign-out"),
            cookie: Some(cookie.to_owned()),
            origin: Some(origin.to_owned()),
            body: AuthRequestBody::Nothing,
        }
    }

    /// Asks whose session a cookie belongs to.
    pub fn get_session(&self, cookie: &str) -> (r: AuthRequest)
        ensures
            asks_for_session(r, self.base_url@, cookie@),
    {
        AuthRequest {
            post: false,
            url: self.endpoint("/api/auth/get-session"),
            cookie: Some(cookie.to_owned()),
            origin: None,
            body: AuthRequestBody::Nothing,
        }
    }
}

// ---------------------------------------------------------------------------
// Replies of the service
// ---------------------------------------------------------------------------

/// A reply of the service: its status, the cookies it wants set, and its body.
#[derive(Debug, Clone, PartialEq, Eq)]
pub struct RawReply {
    pub status: u16,
    pub cookies: Vec<String>,
    pub body: String,
}

/// What the service answered, with the cookies it wants set.
#[derive(Debug, Clone, PartialEq, Eq)]
pub struct AuthReply<T> {
    pub value: T,
    pub cookies: Vec<String>,
}

/// The body with which the service explains a failure.
#[derive(Debug, Clone, PartialEq, Eq)]
pub struct AuthErrorBody {
    pub code: Option<String>,
    pub message: Option<String>,
}

/// The code in a failure's body, if there is one.
pub open spec fn failure_code(body: Option<AuthErrorBody>) -> Option<Seq<char>> {
    match body {
        Some(body) => match body.code {
            Some(code) => Some(code@),
            None => None,
        },
        None => None,
    }
}

/// The message in a failure's body, if there is one that says something.
pub open spec fn failure_message(body: Option<AuthErrorBody>) -> Option<Seq<char>> {
    match body {
        Some(body) => match body.message {
            Some(message) => if text::trimmed(message@).len() > 0 {
                Some(message@)
            } else {
                None
            },
            None => None,
        },
        None => None,
    }
}

/// The error that a refusal of the service becomes, given what could be read of
/// its body.
///
/// A failure of the service is an outage. A refused origin is a mistake in how
/// this application is set up. Anything else is about the request, and the
/// service's own words say it best.
pub open spec fn failure_meaning(status: u16, body: Option<AuthErrorBody>) -> AppErrorView {
    let code = failure_code(body);
    if 500 <= status <= 599 {
        outage()
    } else if code == Some("MISSING_OR_NULL_ORIGIN"@) || code == Some("ORIGIN_NOT_ALLOWED"@) {
        AppErrorView::ForbiddenOrigin
    } else {
        match failure_message(body) {
            Some(message) => AppErrorView::AuthRejected(message),
            None => AppErrorView::AuthRejected("Those credentials were not accepted."@),
        }
    }
}

/// Turns a refusal of the service into the error that the user should see.
pub fn interpret_failure(status: u16, body: Option<AuthErrorBody>) -> (r: AppError)
    ensures
        r@ == failure_meaning(status, body),
{
    if 500 <= status && status <= 599 {
        return service_outage();
    }
    let mut message: Option<String> = None;
    if let Some(body) = body {
        if let Some(code) = &body.code {
            if text::same_text(code.as_str(), "MISSING_OR_NULL_ORIGIN") || text::same_text(
                code.as_str(),
                "ORIGIN_NOT_ALLOWED",
            ) {
                return AppError::ForbiddenOrigin;
            }
        }
        message = body.message;
    }
    match message {
        Some(message) => {
            let chars = text::chars_of(message.as_str());
            if text::trim(chars.as_slice()).len() > 0 {
                return AppError::AuthRejected(message);
            }
        },
        None => {},
    }
    AppError::AuthRejected("Those credentials were not accepted.".to_owned())
}

/// Whether a reply reports success.
pub open spec fn is_success(status: u16) -> bool {
    200 <= status <= 299
}

/// The answer to a sign-up or a sign-in, given the user or the failure that could
/// be read from the body. A success without a user is an outage.
pub fn user_reply(
    reply: RawReply,
    user: Option<AuthUser>,
    failure: Option<AuthErrorBody>,
) -> (r: AppResult<AuthReply<AuthUser>>)
    ensures
        match r {
            Ok(answer) => is_success(reply.status) && user == Some(answer.value) && answer.cookies
                == reply.cookies,
            Err(error) => if is_success(reply.status) {
                user is None && error@ == outage()
            } else {
                error@ == failure_meaning(reply.status, failure)
            },
        },
{
    if !(200 <= reply.status && reply.status <= 299) {
        return Err(interpret_failure(reply.status, failure));
    }
    match user {
        Some(value) => Ok(AuthReply { value, cookies: reply.cookies }),
        None => Err(service_outage()),
    }
}

/// The answer to a sign-out, given the failure that could be read from the body.
pub fn sign_out_reply(reply: RawReply, failure: Option<AuthErrorBody>) -> (r: AppResult<
    AuthReply<()>,
>)
    ensures
        match r {
            Ok(answer) => is_success(reply.status) && answer.cookies == reply.cookies,
            Err(error) => !is_success(reply.status) && error@ == failure_meaning(
                reply.status,
                failure,
            ),
        },
{
    if 200 <= reply.status && reply.status <= 299 {
        Ok(AuthReply { value: (), cookies: reply.cookies })
    } else {
        Err(interpret_failure(reply.status, failure))
    }
}

/// Whether the body of a session reply says that there is no session.
pub open spec fn says_no_session(body: Seq<char>) -> bool {
    text::trimmed(body).len() == 0 || text::trimmed(body) == "null"@ || text::trimmed(body) == "{}"@
}

/// Whether the body of a session reply says that there is no session.
pub fn no_session(body: &str) -> (r: bool)
    ensures
        r == says_no_session(body@),
{
    let shown = text::trimmed_string(body);
    let empty = text::chars_of(shown.as_str()).len() == 0;
    empty || text::same_text(shown.as_str(), "null") || text::same_text(shown.as_str(), "{}")
}

/// The answer to the question whose session a cookie belongs to, given the user
/// or the failure that could be read from the body.
///
/// An empty body, `null` and `{}` mean that there is no session. A success with any
/// other body that holds no user is an outage, and so is a failure of the service:
/// neither is ever "signed out".
pub fn session_reply(
    reply: RawReply,
    user: Option<AuthUser>,
    failure: Option<AuthErrorBody>,
) -> (r: AppResult<AuthReply<Option<AuthUser>>>)
    ensures
        match r {
            Ok(answer) => {
                &&& is_success(reply.status)
                &&& answer.cookies == reply.cookies
                &&& if says_no_session(reply.body@) {
                    answer.value is None
                } else {
                    answer.value is Some && answer.value == user
                }
            },
            Err(error) => if is_success(reply.status) {
                !says_no_session(reply.body@) && user is None && error@ == outage()
            } else {
                error@ == failure_meaning(reply.status, failure)
            },
        },
{
    if !(200 <= reply.status && reply.status <= 299) {
        return Err(interpret_failure(reply.status, failure));
    }
    if no_session(reply.body.as_str()) {
        return Ok(AuthReply { value: None, cookies: reply.cookies });
    }
    match user {
        Some(user) => Ok(AuthReply { value: Some(user), cookies: reply.cookies }),
        None => Err(service_outage()),
    }
}

// ---------------------------------------------------------------------------
// The caller
// ---------------------------------------------------------------------------

/// The identity behind a request, or the answer that there is none. Every
/// protected operation goes through here first.
pub fn require_user(user: Option<AuthUser>) -> (r: AppResult<AuthUser>)
    ensures
        match user {
            Some(user) => r == Ok::<AuthUser, AppError>(user),
            None => r matches Err(error) && error@ == AppErrorView::Unauthenticated,
        },
{
    match user {
        Some(user) => Ok(user),
        None => Err(AppError::Unauthenticated),
    }
}

/// A caller, with the cookies that were rotated while their session was confirmed.
#[derive(Debug, Clone, PartialEq, Eq)]
pub struct Caller {
    pub user: AuthUser,
    pub set_cookies: Vec<String>,
}

/// The caller behind an answer about a session.
pub fn caller(checked: AppResult<AuthReply<Option<AuthUser>>>) -> (r: AppResult<Caller>)
    ensures
        match checked {
            Ok(reply) => match reply.value {
                Some(user) => r == Ok::<Caller, AppError>(
                    Caller { user, set_cookies: reply.cookies },
                ),
                None => r matches Err(error) && error@ == AppErrorView::Unauthenticated,
            },
            Err(error) => r == Err::<Caller, AppError>(error),
        },
{
    match checked {
        Ok(reply) => match require_user(reply.value) {
            Ok(user) => Ok(Caller { user, set_cookies: reply.cookies }),
            Err(error) => Err(error),
        },
        Err(error) => Err(error),
    }
}

/// What it takes to find out who is asking: a question to the service, or none if
/// there is no request or no cookie, and so nobody signed in.
pub fn optional_user(head: Option<&RequestHead>, setting: Option<&str>) -> (r: AppResult<
    Option<AuthRequest>,
>)
    ensures
        match head {
            None => r matches Ok(None),
            Some(head) => match (http::header_value(head@.cookie), configured(setting)) {
                (None, _) => r matches Ok(None),
                (Some(_), None) => r matches Err(error) && error@ == AppErrorView::Internal,
                (Some(cookie), Some(base_url)) => r matches Ok(Some(request)) && asks_for_session(
                    request,
                    base_url,
                    cookie,
                ),
            },
        },
{
    let head = match head {
        Some(head) => head,
        None => {
            return Ok(None);
        },
    };
    match incoming_cookie(head) {
        Some(cookie) => match AuthClient::from_env(setting) {
            Ok(client) => Ok(Some(client.get_session(cookie.as_str()))),
            Err(error) => Err(error),
        },
        None => Ok(None),
    }
}

/// The request being served. There is always one while a user is served, so its
/// absence is a defect here.
pub fn incoming_parts<'a>(head: Option<&'a RequestHead>) -> (r: AppResult<&'a RequestHead>)
    ensures
        match head {
            Some(head) => r == Ok::<&RequestHead, AppError>(head),
            None => r matches Err(error) && error@ == AppErrorView::Internal,
        },
{
    match head {
        Some(head) => Ok(head),
        None => Err(AppError::Internal),
    }
}

/// The origin of a page that may change something, or why nothing may be changed.
pub open spec fn acting_origin(head: Option<&RequestHead>) -> Result<Seq<char>, AppErrorView> {
    match head {
        None => Err(AppErrorView::Internal),
        Some(head) => if from_own_page(head@) {
            Ok(own_origin(head@)->Some_0)
        } else {
            Err(AppErrorView::ForbiddenOrigin)
        },
    }
}

/// The origin of a page that may change something. Every action of a page goes
/// through here before any credential leaves the process.
fn check_page(head: Option<&RequestHead>) -> (r: AppResult<String>)
    ensures
        match r {
            Ok(origin) => acting_origin(head) == Ok::<Seq<char>, AppErrorView>(origin@),
            Err(error) => acting_origin(head) == Err::<Seq<char>, AppErrorView>(error@),
        },
{
    match incoming_parts(head) {
        Ok(head) => ensure_same_origin(head),
        Err(error) => Err(error),
    }
}

/// What registering takes. The white space around the name and the address is not
/// part of them; a password is sent as it is.
pub fn sign_up_plan(
    head: Option<&RequestHead>,
    setting: Option<&str>,
    name: &str,
    email: &str,
    password: &str,
) -> (r: AppResult<AuthRequest>)
    ensures
        match acting_origin(head) {
            Err(refusal) => r matches Err(error) && error@ == refusal,
            Ok(_) => match configured(setting) {
                None => r matches Err(error) && error@ == AppErrorView::Internal,
                Some(base_url) => r matches Ok(request) && asks_to_sign_up(
                    request,
                    base_url,
                    text::trimmed(name@),
                    text::trimmed(email@),
                    password@,
                ),
            },
        },
{
    if let Err(error) = check_page(head) {
        return Err(error);
    }
    match AuthClient::from_env(setting) {
        Ok(client) => Ok(
            client.sign_up(
                text::trimmed_string(name).as_str(),
                text::trimmed_string(email).as_str(),
                password,
            ),
        ),
        Err(error) => Err(error),
    }
}

/// What signing in takes. The white space around the address is not part of it; a
/// password is sent as it is.
pub fn sign_in_plan(
    head: Option<&RequestHead>,
    setting: Option<&str>,
    email: &str,
    password: &str,
) -> (r: AppResult<AuthRequest>)
    ensures
        match acting_origin(head) {
            Err(refusal) => r matches Err(error) && error@ == refusal,
            Ok(_) => match configured(setting) {
                None => r matches Err(error) && error@ == AppErrorView::Internal,
                Some(base_url) => r matches Ok(request) && asks_to_sign_in(
                    request,
                    base_url,
                    text::trimmed(email@),
                    password@,
                ),
            },
        },
{
    if let Err(error) = check_page(head) {
        return Err(error);
    }
    match AuthClient::from_env(setting) {
        Ok(client) => Ok(client.sign_in(text::trimmed_string(email).as_str(), password)),
        Err(error) => Err(error),
    }
}

/// What signing out takes: a request to the service in the name of the page's
/// origin, if there is a session to revoke. Signing out while signed out is no
/// error.
pub fn sign_out_plan(head: Option<&RequestHead>, setting: Option<&str>) -> (r: AppResult<
    Option<AuthRequest>,
>)
    ensures
        match acting_origin(head) {
            Err(refusal) => r matches Err(error) && error@ == refusal,
            Ok(origin) => match (http::header_value(head->Some_0@.cookie), configured(setting)) {
                (None, _) => r matches Ok(None),
                (Some(_), None) => r matches Err(error) && error@ == AppErrorView::Internal,
                (Some(cookie), Some(base_url)) => r matches Ok(Some(request)) && asks_to_sign_out(
                    request,
                    base_url,
                    cookie,
                    origin,
                ),
            },
        },
{
    let origin = match check_page(head) {
        Ok(origin) => origin,
        Err(error) => {
            return Err(error);
        },
    };
    let cookie = match head {
        Some(head) => incoming_cookie(head),
        None => None,
    };
    match cookie {
        Some(cookie) => match AuthClient::from_env(setting) {
            Ok(client) => Ok(Some(client.sign_out(cookie.as_str(), origin.as_str()))),
            Err(error) => Err(error),
        },
        None => Ok(None),
    }
}

/// What changing an order takes: the check on the page, and then the question who
/// is asking.
pub fn write_plan(head: Option<&RequestHead>, setting: Option<&str>) -> (r: AppResult<
    Option<AuthRequest>,
>)
    ensures
        match acting_origin(head) {
            Err(refusal) => r matches Err(error) && error@ == refusal,
            Ok(_) => match (http::header_value(head->Some_0@.cookie), configured(setting)) {
                (None, _) => r matches Ok(None),
                (Some(_), None) => r matches Err(error) && error@ == AppErrorView::Internal,
                (Some(cookie), Some(base_url)) => r matches Ok(Some(request)) && asks_for_session(
                    request,
                    base_url,
                    cookie,
                ),
            },
        },
{
    match check_page(head) {
        Ok(_) => optional_user(head, setting),
        Err(error) => Err(error),
    }
}

// ---------------------------------------------------------------------------
// What a visitor sees
// ---------------------------------------------------------------------------

/// What a protected page shows.
#[derive(Debug, Clone, PartialEq, Eq)]
pub enum Protected {
    /// The page itself.
    Page,
    /// The way to sign in, and why.
    SignInRequired(String),
}

/// The sentence shown in place of a protected page.
pub open spec fn sign_in_message(error: Option<AppErrorView>) -> Seq<char> {
    match error {
        None => "Sign in to see this page."@,
        Some(AppErrorView::Unauthenticated) => "Sign in to see this page."@,
        Some(error) => error::error_message(error),
    }
}

/// What a protected page shows: itself to a signed-in visitor, and otherwise
/// whether they are signed out or the service is down.
pub fn protected_page(user: &AppResult<Option<AuthUser>>) -> (r: Protected)
    ensures
        match *user {
            Ok(Some(_)) => r is Page,
            Ok(None) => r matches Protected::SignInRequired(message) && message@
                == sign_in_message(None),
            Err(error) => r matches Protected::SignInRequired(message) && message@
                == sign_in_message(Some(error@)),
        },
{
    match user {
        Ok(Some(_)) => Protected::Page,
        Ok(None) => Protected::SignInRequired("Sign in to see this page.".to_owned()),
        Err(AppError::Unauthenticated) => Protected::SignInRequired(
            "Sign in to see this page.".to_owned(),
        ),
        Err(error) => Protected::SignInRequired(error.to_string()),
    }
}

/// The address shown in the account controls, or none for a link to sign in.
pub fn account_nav(user: &AppResult<Option<AuthUser>>) -> (r: Option<String>)
    ensures
        match *user {
            Ok(Some(user)) => r matches Some(email) && email@ == user.email@,
            _ => r is None,
        },
{
    match user {
        Ok(Some(user)) => Some(user.email.clone()),
        _ => None,
    }
}

/// The sentence below a form whose last submission failed.
pub fn action_error(value: &Option<AppResult<()>>) -> (r: Option<String>)
    ensures
        match *value {
            Some(Err(error)) => r matches Some(message) && message@ == error::error_message(error@),
            _ => r is None,
        },
{
    match value {
        Some(Err(error)) => Some(error.to_string()),
        _ => None,
    }
}

// ---------------------------------------------------------------------------
// Laws
// ---------------------------------------------------------------------------

/// Whatever the check on pages lets through, the guard lets through as well, and
/// all it lets through beyond that is requests without an origin.
pub proof fn law_guard_is_the_weaker_check(head: RequestHeadView)
    ensures
        from_own_page(head) ==> passes_guard(head),
        passes_guard(head) && !from_own_page(head) ==> head.origin is None,
{
}

/// A page may act exactly if it is our own, and then it acts in the name of our own
/// origin.
pub proof fn law_only_our_own_pages_act(head: Option<&RequestHead>)
    ensures
        acting_origin(head) is Ok <==> head is Some && from_own_page(head->Some_0@),
        acting_origin(head) matches Ok(origin) ==> own_origin(head->Some_0@) == Some(origin),
{
}

/// The scheme of our own origin is always `http` or `https`, whatever a proxy or
/// a client claims.
pub proof fn law_only_web_schemes(head: RequestHeadView)
    ensures
        scheme_of(head) == "http"@ || scheme_of(head) == "https"@,
{
}

/// Only a page with our own scheme and our own host, the port included, is let
/// through.
pub proof fn law_scheme_host_and_port_must_agree(
    head: RequestHeadView,
    scheme: Seq<char>,
    host: Seq<char>,
)
    requires
        scheme == "http"@ || scheme == "https"@,
        http::header_value(head.origin) == Some(scheme + "://"@ + host),
        from_own_page(head),
    ensures
        scheme == scheme_of(head),
        host_of(head) matches Some(own) && same_ignoring_case(host, own),
{
    reveal_strlit("http");
    reveal_strlit("https");
    reveal_strlit("://");
    let own = host_of(head)->Some_0;
    let theirs = (scheme + "://"@ + host).map_values(|c: char| app::ascii_lower(c));
    let ours = (scheme_of(head) + "://"@ + own).map_values(|c: char| app::ascii_lower(c));
    assert(theirs == ours);
    assert("http"@.len() == 4 && "https"@.len() == 5 && "://"@.len() == 3);
    assert("https"@[4] == 's' && "://"@[0] == ':');
    if scheme != scheme_of(head) {
        assert(theirs[4] != ours[4]);
    }
    let skipped = (scheme.len() + 3) as int;
    assert(theirs.skip(skipped) =~= host.map_values(|c: char| app::ascii_lower(c)));
    assert(ours.skip(skipped) =~= own.map_values(|c: char| app::ascii_lower(c)));
}

/// A failure of the service is an outage, whatever its body says, and never a
/// rejected credential or a missing session.
pub proof fn law_failures_of_the_service_are_outages(status: u16, body: Option<AuthErrorBody>)
    requires
        500 <= status <= 599,
    ensures
        failure_meaning(status, body) == outage(),
        error::error_status(failure_meaning(status, body)) == 503,
        failure_meaning(status, body) != AppErrorView::Unauthenticated,
{
}

/// A refused request never says that the service is down.
pub proof fn law_refusals_are_not_outages(status: u16, body: Option<AuthErrorBody>)
    requires
        !(500 <= status <= 599),
    ensures
        error::error_status(failure_meaning(status, body)) == 400 || failure_meaning(status, body)
            == AppErrorView::ForbiddenOrigin,
{
}

/// Slashes at the end of the base address change no endpoint.
pub proof fn law_end_slashes_are_irrelevant(base: Seq<char>)
    ensures
        without_end_slashes(base.push('/')) == without_end_slashes(base),
        without_end_slashes(base).len() > 0 ==> without_end_slashes(base).last() != '/',
        base.len() > 0 && base.last() != '/' ==> without_end_slashes(base) == base,
        without_end_slashes(base).is_prefix_of(base),
    decreases base.len(),
{
    assert(base.push('/').drop_last() =~= base);
    if base.len() > 0 && base.last() == '/' {
        law_end_slashes_are_irrelevant(base.drop_last());
        let kept = without_end_slashes(base);
        assert(kept =~= base.subrange(0, kept.len() as int));
    } else {
        assert(base =~= base.subrange(0, base.len() as int));
    }
}

/// Whether two characters are the same letter in either case.
pub open spec fn same_letter(a: char, b: char) -> bool {
    ||| a == b
    ||| 65 <= a as int <= 90 && b as int == a as int + 32
    ||| 65 <= b as int <= 90 && a as int == b as int + 32
}

/// Texts that agree up to case are equally long and agree in every place.
pub proof fn law_agreeing_up_to_case(a: Seq<char>, b: Seq<char>)
    ensures
        same_ignoring_case(a, b) <==> a.len() == b.len() && forall|i: int|
            0 <= i < a.len() ==> same_letter(#[trigger] a[i], b[i]),
        same_ignoring_case(a, b) ==> forall|i: int|
            0 <= i < a.len() ==> #[trigger] a[i] == b[i] || 'A' <= a[i] <= 'Z' && b[i] as int
                - a[i] as int == 32 || 'A' <= b[i] <= 'Z' && a[i] as int - b[i] as int == 32,
        same_ignoring_case(a, a),
{
    let la = a.map_values(|c: char| app::ascii_lower(c));
    let lb = b.map_values(|c: char| app::ascii_lower(c));
    if same_ignoring_case(a, b) {
        assert(la.len() == lb.len());
        assert forall|i: int| 0 <= i < a.len() implies same_letter(#[trigger] a[i], b[i]) by {
            assert(la[i] == lb[i]);
        }
    }
    if a.len() == b.len() && forall|i: int| 0 <= i < a.len() ==> same_letter(#[trigger] a[i], b[i]) {
        assert forall|i: int| 0 <= i < a.len() implies la[i] == lb[i] by {
            assert(same_letter(a[i], b[i]));
        }
        assert(la =~= lb);
    }
}

/// Our own origin is the scheme that the client used and the host it asked for: the
/// one in the `Host` header, or else that of the address. Without a forwarded scheme
/// it is `http`, and with `https` first among the forwarded ones it is `https`.
pub proof fn law_own_origin_is_scheme_and_host(head: RequestHeadView, host: Seq<char>)
    requires
        http::header_value(head.host) == Some(host) || http::header_value(head.host) is None
            && head.authority == Some(host),
    ensures
        own_origin(head) == Some(scheme_of(head) + "://"@ + host),
        head.forwarded_proto is None ==> own_origin(head) == Some("http"@ + "://"@ + host),
        http::header_value(head.forwarded_proto) matches Some(schemes) ==> (text::trimmed(
            text::before(schemes, ','),
        ) == "https"@ <==> scheme_of(head) == "https"@),
{
    reveal_strlit("http");
    reveal_strlit("https");
    assert("http"@.len() == 4 && "https"@.len() == 5);
}

/// A page that names our own origin is let through, and one that names an origin that
/// differs from it in more than case is not. Without a host of our own nobody is.
pub proof fn law_our_own_pages_are_let_through(head: RequestHeadView, origin: Seq<char>)
    requires
        http::header_value(head.origin) == Some(origin),
    ensures
        own_origin(head) == Some(origin) ==> from_own_page(head),
        from_own_page(head) ==> (own_origin(head) matches Some(own) && own.len() == origin.len()
            && forall|i: int| 0 <= i < own.len() ==> same_letter(#[trigger] own[i], origin[i])),
        own_origin(head) is None ==> !from_own_page(head),
{
    if let Some(own) = own_origin(head) {
        law_agreeing_up_to_case(own, origin);
        law_agreeing_up_to_case(origin, own);
    }
}

/// A page that does not say where it came from is none of ours, but a request without
/// an origin passes the guard.
pub proof fn law_requests_without_an_origin(head: RequestHeadView)
    requires
        head.origin is None,
    ensures
        !from_own_page(head),
        passes_guard(head),
{
}

/// Credentials go to the service as they were given, and nothing else does: neither a
/// cookie nor an origin.
pub proof fn law_credentials_are_sent_as_given(
    request: AuthRequest,
    base_url: Seq<char>,
    email: Seq<char>,
    password: Seq<char>,
    name: Seq<char>,
)
    ensures
        asks_to_sign_in(request, base_url, email, password) ==> request.post && request.cookie is None
            && base_url.is_prefix_of(request.url@) && (
        request.body matches AuthRequestBody::SignIn { email: e, password: p } && e@ == email && p@
            == password),
        asks_to_sign_up(request, base_url, name, email, password) ==> request.post
            && request.cookie is None && base_url.is_prefix_of(request.url@) && (
        request.body matches AuthRequestBody::SignUp { name: n, email: e, password: p } && n@ == name
            && e@ == email && p@ == password),
{
    assert(base_url =~= (base_url + "/api/auth/sign-in/email"@).subrange(
        0,
        base_url.len() as int,
    ));
    assert(base_url =~= (base_url + "/api/auth/sign-up/email"@).subrange(
        0,
        base_url.len() as int,
    ));
}

/// A session is asked for and revoked by the browser's own cookie, and revoked in the
/// name of the origin that was checked.
pub proof fn law_sessions_go_by_the_cookie(
    request: AuthRequest,
    base_url: Seq<char>,
    cookie: Seq<char>,
    origin: Seq<char>,
)
    ensures
        asks_for_session(request, base_url, cookie) ==> !request.post && (
        request.cookie matches Some(sent) && sent@ == cookie) && request.body is Nothing,
        asks_to_sign_out(request, base_url, cookie, origin) ==> request.post && (
        request.cookie matches Some(sent) && sent@ == cookie) && (
        request.origin matches Some(sent) && sent@ == origin) && request.body is Nothing,
{
}

/// What the service says of a refusal reaches the user word for word, unless it says
/// nothing or is about the origin.
pub proof fn law_refusals_are_passed_on(status: u16, body: AuthErrorBody, message: Seq<char>)
    requires
        status < 500 || 600 <= status,
        body.message matches Some(words) && words@ == message,
    ensures
        text::trimmed(message).len() > 0 && body.code is None ==> failure_meaning(
            status,
            Some(body),
        ) == AppErrorView::AuthRejected(message),
        failure_meaning(status, Some(body)) matches AppErrorView::AuthRejected(words) ==> words
            == message || text::trimmed(message).len() == 0,
        failure_meaning(status, Some(body)) is ForbiddenOrigin <==> (
        body.code matches Some(code) && (code@ == "MISSING_OR_NULL_ORIGIN"@ || code@
            == "ORIGIN_NOT_ALLOWED"@)),
{
}

/// A reply of the service means that nobody is signed in exactly if its body is
/// `null`, an empty object or nothing, whatever white space is around it.
pub proof fn law_no_session_is_said_in_three_ways(
    a: Seq<char>,
    body: Seq<char>,
    b: Seq<char>,
)
    requires
        text::all_space(a),
        text::all_space(b),
    ensures
        says_no_session(a + "null"@ + b),
        says_no_session(a + "{}"@ + b),
        says_no_session(a + b),
        body.len() > 0 && !text::is_space(body[0]) && !text::is_space(body.last()) && body
            != "null"@ && body != "{}"@ ==> !says_no_session(a + body + b),
{
    reveal_strlit("null");
    reveal_strlit("{}");
    assert("null"@.len() == 4 && "{}"@.len() == 2);
    text::law_trimming_undoes_padding(a, "null"@, b);
    text::law_trimming_undoes_padding(a, "{}"@, b);
    if body.len() > 0 && !text::is_space(body[0]) && !text::is_space(body.last()) {
        text::law_trimming_undoes_padding(a, body, b);
    }
}

/// A reply is a success exactly if its status is in the two hundreds.
pub proof fn law_successes(status: u16)
    ensures
        is_success(status) <==> status / 100 == 2,
{
}

/// Nothing may act without a request, and a page of another origin is told that it is
/// one.
pub proof fn law_why_a_page_may_not_act(head: &RequestHead)
    ensures
        acting_origin(None) == Err::<Seq<char>, AppErrorView>(AppErrorView::Internal),
        !from_own_page(head@) ==> acting_origin(Some(head)) == Err::<Seq<char>, AppErrorView>(
            AppErrorView::ForbiddenOrigin,
        ),
{
}

/// The service is where the setting says, and nowhere if the setting says nothing.
pub proof fn law_the_service_is_where_the_setting_says(setting: &str)
    ensures
        configured(None) is None,
        text::trimmed(setting@).len() == 0 <==> configured(Some(setting)) is None,
        configured(Some(setting)) matches Some(url) ==> url.is_prefix_of(setting@) && (
        setting@.last() != '/' ==> url == setting@),
{
    law_end_slashes_are_irrelevant(setting@);
    if setting@.len() == 0 {
        assert(text::trimmed(setting@).len() == 0);
    }
}

/// A visitor who is signed out is asked to sign in, and one who cannot be recognised
/// is told why.
pub proof fn law_visitors_are_told_why(error: AppErrorView)
    ensures
        sign_in_message(None) == sign_in_message(Some(AppErrorView::Unauthenticated)),
        !(error is Unauthenticated) ==> sign_in_message(Some(error)) == error::error_message(error),
{
}

} // verus!
