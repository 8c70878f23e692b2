//! The programming interface over HTTP.
//!
//! A second surface over the same services. Every operation is four steps:
//! authenticate, check the origin, call the service, shape a response. There is
//! no rule here that the pages do not have.

use vstd::prelude::*;

use crate::auth;
use crate::auth::Caller;
use crate::error;
use crate::error::{AppError, AppErrorView, AppResult, ErrorBody, FieldError, FieldErrorView};
use crate::http;
use crate::http::{RequestHead, RequestHeadView};
use crate::ids;
use crate::orders::parse;
use crate::orders::service;
use crate::orders::status;
use crate::orders::status::{Dashboard, OrderSummary};
use crate::orders::store::{Stage, WorkView, WriteTransaction};
use crate::orders::validate;
use crate::orders::validate::NewOrderInput;
use crate::payments;
use crate::payments::NewPaymentInput;

verus! {

// ---------------------------------------------------------------------------
// Requests
// ---------------------------------------------------------------------------

/// The answer to a body that could not be read, in the words of whatever tried.
pub open spec fn bad_body(reason: Seq<char>) -> AppErrorView {
    AppErrorView::ValidationFailed(seq![FieldErrorView { field: "body"@, message: reason }])
}

/// Turns a body that could not be read into the shape of every other failure.
pub fn body<T>(result: Result<T, String>) -> (r: AppResult<T>)
    ensures
        match result {
            Ok(value) => r == Ok::<T, AppError>(value),
            Err(reason) => r matches Err(error) && error@ == bad_body(reason@),
        },
{
    match result {
        Ok(value) => Ok(value),
        Err(reason) => {
            let mut errors: Vec<FieldError> = Vec::new();
            errors.push(FieldError::new("body", reason.as_str()));
            let error = AppError::ValidationFailed(errors);
            assert(error@->ValidationFailed_0 =~= bad_body(reason@)->ValidationFailed_0);
            Err(error)
        },
    }
}

/// Why a state-changing request is refused before anything is asked of a service:
/// nobody is signed in, it came from another origin, its address names no order,
/// or its body cannot be read. Looked at in that order.
pub open spec fn refusal<T>(
    caller: AppResult<Caller>,
    head: RequestHeadView,
    id: Option<Option<u128>>,
    input: Result<T, String>,
) -> Option<AppErrorView> {
    match caller {
        Err(error) => Some(error@),
        Ok(_) => if !auth::passes_guard(head) {
            Some(AppErrorView::ForbiddenOrigin)
        } else if id == Some(None::<u128>) {
            Some(ids::bad_id())
        } else {
            match input {
                Ok(_) => None,
                Err(reason) => Some(bad_body(reason@)),
            }
        },
    }
}

/// Admits a request to create an order.
pub fn create_order(
    caller: AppResult<Caller>,
    head: &RequestHead,
    input: Result<NewOrderInput, String>,
) -> (r: AppResult<(Caller, WriteTransaction)>)
    ensures
        match refusal(caller, head@, None, input) {
            Some(refused) => r matches Err(error) && error@ == refused,
            None => match validate::order_meaning(
                input->Ok_0@,
                parse::due_date_meaning(
                    input->Ok_0@.due_date,
                    parse::found_date(input->Ok_0@.due_date),
                ),
            ) {
                Ok(order) => r matches Ok(admitted) && {
                    &&& caller == Ok::<Caller, AppError>(admitted.0)
                    &&& admitted.1@.stage == Stage::Begin
                    &&& ids::is_version_7(admitted.1@.work.order_id())
                    &&& admitted.1@.work == (WorkView::Create {
                        owner: admitted.0.user.id@,
                        order_id: admitted.1@.work.order_id(),
                        order,
                    })
                },
                Err(refused) => r matches Err(error) && error@ == refused,
            },
        },
{
    let caller = match caller {
        Ok(caller) => caller,
        Err(error) => {
            return Err(error);
        },
    };
    if let Err(error) = auth::guard_origin(head) {
        return Err(error);
    }
    let input = match body(input) {
        Ok(input) => input,
        Err(error) => {
            return Err(error);
        },
    };
    match service::create_order_service(caller.user.id.as_str(), &input) {
        Ok(tx) => Ok((caller, tx)),
        Err(error) => Err(error),
    }
}

/// Admits a request to read an order. A read needs no check of its origin: only
/// the origin that asked can see the answer.
pub fn get_order(caller: AppResult<Caller>, raw_id: &str) -> (r: AppResult<(Caller, u128)>)
    ensures
        match (caller, ids::parsed_id(raw_id@)) {
            (Err(error), _) => r == Err::<(Caller, u128), AppError>(error),
            (Ok(_), None) => r matches Err(error) && error@ == ids::bad_id(),
            (Ok(caller), Some(id)) => r == Ok::<(Caller, u128), AppError>((caller, id)),
        },
{
    let caller = match caller {
        Ok(caller) => caller,
        Err(error) => {
            return Err(error);
        },
    };
    match ids::parse_id(raw_id) {
        Ok(id) => Ok((caller, id)),
        Err(error) => Err(error),
    }
}

/// Admits a request to replace an order.
pub fn update_order(
    caller: AppResult<Caller>,
    head: &RequestHead,
    raw_id: &str,
    input: Result<NewOrderInput, String>,
) -> (r: AppResult<(Caller, WriteTransaction)>)
    ensures
        match refusal(caller, head@, Some(ids::parsed_id(raw_id@)), input) {
            Some(refused) => r matches Err(error) && error@ == refused,
            None => match validate::order_meaning(
                input->Ok_0@,
                parse::due_date_meaning(
                    input->Ok_0@.due_date,
                    parse::found_date(input->Ok_0@.due_date),
                ),
            ) {
                Ok(order) => r matches Ok(admitted) && {
                    &&& caller == Ok::<Caller, AppError>(admitted.0)
                    &&& admitted.1@.stage == Stage::Begin
                    &&& Some(admitted.1@.work.order_id()) == ids::parsed_id(raw_id@)
                    &&& admitted.1@.work == (WorkView::Replace {
                        owner: admitted.0.user.id@,
                        order_id: admitted.1@.work.order_id(),
                        order,
                    })
                },
                Err(refused) => r matches Err(error) && error@ == refused,
            },
        },
{
    let caller = match caller {
        Ok(caller) => caller,
        Err(error) => {
            return Err(error);
        },
    };
    if let Err(error) = auth::guard_origin(head) {
        return Err(error);
    }
    let id: u128 = match ids::parse_id(raw_id) {
        Ok(id) => id,
        Err(error) => {
            return Err(error);
        },
    };
    let input = match body(input) {
        Ok(input) => input,
        Err(error) => {
            return Err(error);
        },
    };
    match service::update_order_service(caller.user.id.as_str(), id, &input) {
        Ok(tx) => Ok((caller, tx)),
        Err(error) => Err(error),
    }
}

/// Admits a request to delete an order.
pub fn delete_order(caller: AppResult<Caller>, head: &RequestHead, raw_id: &str) -> (r: AppResult<
    (Caller, WriteTransaction),
>)
    ensures
        match refusal(caller, head@, Some(ids::parsed_id(raw_id@)), Ok::<(), String>(())) {
            Some(refused) => r matches Err(error) && error@ == refused,
            None => r matches Ok(admitted) && {
                &&& caller == Ok::<Caller, AppError>(admitted.0)
                &&& admitted.1@.stage == Stage::Begin
                &&& Some(admitted.1@.work.order_id()) == ids::parsed_id(raw_id@)
                &&& admitted.1@.work == (WorkView::Delete {
                    owner: admitted.0.user.id@,
                    order_id: admitted.1@.work.order_id(),
                })
            },
        },
{
    let caller = match caller {
        Ok(caller) => caller,
        Err(error) => {
            return Err(error);
        },
    };
    if let Err(error) = auth::guard_origin(head) {
        return Err(error);
    }
    match ids::parse_id(raw_id) {
        Ok(id) => {
            let tx = service::delete_order_service(caller.user.id.as_str(), id);
            Ok((caller, tx))
        },
        Err(error) => Err(error),
    }
}

/// Admits a request to record a payment.
pub fn record_payment(
    caller: AppResult<Caller>,
    head: &RequestHead,
    raw_id: &str,
    input: Result<NewPaymentInput, String>,
) -> (r: AppResult<(Caller, WriteTransaction)>)
    ensures
        match refusal(caller, head@, Some(ids::parsed_id(raw_id@)), input) {
            Some(refused) => r matches Err(error) && error@ == refused,
            None => match payments::payment_meaning(
                input->Ok_0@,
                parse::due_date_meaning(
                    input->Ok_0@.paid_on,
                    parse::found_date(input->Ok_0@.paid_on),
                ),
            ) {
                Ok(payment) => r matches Ok(admitted) && {
                    &&& caller == Ok::<Caller, AppError>(admitted.0)
                    &&& admitted.1@.stage == Stage::Begin
                    &&& Some(admitted.1@.work.order_id()) == ids::parsed_id(raw_id@)
                    &&& ids::is_version_7(admitted.1@.work.result_id())
                    &&& admitted.1@.work == (WorkView::Pay {
                        owner: admitted.0.user.id@,
                        order_id: admitted.1@.work.order_id(),
                        payment_id: admitted.1@.work.result_id(),
                        payment,
                    })
                },
                Err(refused) => r matches Err(error) && error@ == refused,
            },
        },
{
    let caller = match caller {
        Ok(caller) => caller,
        Err(error) => {
            return Err(error);
        },
    };
    if let Err(error) = auth::guard_origin(head) {
        return Err(error);
    }
    let id: u128 = match ids::parse_id(raw_id) {
        Ok(id) => id,
        Err(error) => {
            return Err(error);
        },
    };
    let input = match body(input) {
        Ok(input) => input,
        Err(error) => {
            return Err(error);
        },
    };
    match service::record_payment_service(caller.user.id.as_str(), id, &input) {
        Ok(tx) => Ok((caller, tx)),
        Err(error) => Err(error),
    }
}

// ---------------------------------------------------------------------------
// Responses
// ---------------------------------------------------------------------------

/// A response for the program to send: one `Set-Cookie` header for each cookie,
/// never joined.
#[derive(Debug, Clone, PartialEq, Eq)]
pub struct ApiResponse<T> {
    pub status: u16,
    pub location: Option<String>,
    pub set_cookies: Vec<String>,
    /// How many cookies cannot stand in a header and are left out.
    pub lost_cookies: usize,
    pub body: Option<T>,
}

/// The cookies that a response carries: those that can stand in a header, each as
/// it is and in order.
pub open spec fn carried(cookies: Seq<String>) -> Seq<Seq<char>> {
    http::texts(cookies).filter(|cookie: Seq<char>| http::encodable(cookie))
}

/// `200` with a value.
pub fn ok<T>(value: T, cookies: Vec<String>) -> (r: ApiResponse<T>)
    ensures
        r.status == 200,
        r.location is None,
        r.body == Some(value),
        http::texts(r.set_cookies@) == carried(cookies@),
        r.set_cookies@.len() + r.lost_cookies == cookies@.len(),
{
    let count: usize = cookies.len();
    let set_cookies = http::encodable_values(cookies);
    let lost_cookies: usize = count - set_cookies.len();
    ApiResponse { status: 200, location: None, set_cookies, lost_cookies, body: Some(value) }
}

/// The address of an order in this interface.
pub open spec fn api_order_path(id: u128) -> Seq<char> {
    "/api/orders/"@ + ids::id_text(id)
}

/// `201` with a value, and with the address of the order that was made or paid.
pub fn created<T>(order_id: u128, value: T, cookies: Vec<String>) -> (r: ApiResponse<T>)
    ensures
        r.status == 201,
        r.location matches Some(location) && location@ == api_order_path(order_id),
        r.body == Some(value),
        http::texts(r.set_cookies@) == carried(cookies@),
        r.set_cookies@.len() + r.lost_cookies == cookies@.len(),
{
    let mut location = "/api/orders/".to_owned();
    location.append(ids::id_to_string(order_id).as_str());
    let count: usize = cookies.len();
    let set_cookies = http::encodable_values(cookies);
    let lost_cookies: usize = count - set_cookies.len();
    ApiResponse { status: 201, location: Some(location), set_cookies, lost_cookies, body: Some(value) }
}

/// `204`, with nothing left to describe.
pub fn no_content(cookies: Vec<String>) -> (r: ApiResponse<()>)
    ensures
        r.status == 204,
        r.location is None,
        r.body is None,
        http::texts(r.set_cookies@) == carried(cookies@),
        r.set_cookies@.len() + r.lost_cookies == cookies@.len(),
{
    let count: usize = cookies.len();
    let set_cookies = http::encodable_values(cookies);
    let lost_cookies: usize = count - set_cookies.len();
    ApiResponse { status: 204, location: None, set_cookies, lost_cookies, body: None }
}

/// The response that reports an error.
pub fn failed(error: &AppError) -> (r: ApiResponse<ErrorBody>)
    ensures
        r.status == error::error_status(error@),
        r.location is None,
        r.set_cookies@.len() == 0,
        r.lost_cookies == 0,
        r.body matches Some(body) && {
            &&& body.error@ == error::error_code(error@)
            &&& body.message@ == error::error_message(error@)
            &&& error::field_views(body.fields@) == error::error_fields(error@)
        },
{
    ApiResponse {
        status: error.status_code(),
        location: None,
        set_cookies: Vec::new(),
        lost_cookies: 0,
        body: Some(ErrorBody::from(error)),
    }
}

/// The caller's orders with their totals, filtered by an optional `?status=`. An
/// unknown status is no filter, and the response says which one was applied.
pub fn list_orders(caller: AppResult<Caller>, raw_status: Option<&str>, all: Vec<OrderSummary>) -> (r:
    AppResult<ApiResponse<Dashboard>>)
    ensures
        match caller {
            Err(error) => r == Err::<ApiResponse<Dashboard>, AppError>(error),
            Ok(caller) => r matches Ok(response) && {
                &&& response.status == 200
                &&& response.location is None
                &&& http::texts(response.set_cookies@) == carried(caller.set_cookies@)
                &&& response.set_cookies@.len() + response.lost_cookies == caller.set_cookies@.len()
                &&& response.body matches Some(dashboard) && {
                    &&& status::totals_describe(dashboard.totals, all@)
                    &&& dashboard.filter == status::filter_named(
                        match raw_status {
                            Some(name) => Some(name@),
                            None => None,
                        },
                    )
                    &&& dashboard.orders@ == status::filtered(all@, dashboard.filter)
                }
            },
        },
{
    match caller {
        Ok(caller) => {
            let filter = status::requested_filter(raw_status);
            Ok(ok(status::list_orders(all, filter), caller.set_cookies))
        },
        Err(error) => Err(error),
    }
}

// ---------------------------------------------------------------------------
// Laws
// ---------------------------------------------------------------------------

/// Hexadecimal digits can stand in a header.
proof fn lemma_hex_is_encodable(n: nat, width: nat)
    ensures
        ids::hex_digits(n, width).len() == width,
        http::encodable(ids::hex_digits(n, width)),
    decreases width,
{
    if width > 0 {
        lemma_hex_is_encodable(n / 16, (width - 1) as nat);
        assert(http::is_header_char(ids::hex_digit(n % 16)));
    }
}

/// The address of an order can always stand in a header, so a created order is
/// always announced.
pub proof fn law_location_is_always_a_header(id: u128)
    ensures
        http::encodable(api_order_path(id)),
{
    reveal_strlit("/api/orders/");
    lemma_hex_is_encodable(id as nat, 32);
    let h = ids::hex_digits(id as nat, 32);
    assert forall|i: int| 0 <= i < ids::id_text(id).len() implies http::is_header_char(
        #[trigger] ids::id_text(id)[i],
    ) by {
        let k = if i < 8 {
            i
        } else if i < 13 {
            i - 1
        } else if i < 18 {
            i - 2
        } else if i < 23 {
            i - 3
        } else {
            i - 4
        };
        assert(ids::id_text(id)[i] == '-' || ids::id_text(id)[i] == h[k]);
    }
}

/// Whatever else is wrong with a request, nobody who is not signed in learns it,
/// and no page of another origin learns more than that it is one.
pub proof fn law_refusals_come_in_order<T>(
    caller: AppResult<Caller>,
    head: RequestHeadView,
    id: Option<Option<u128>>,
    input: Result<T, String>,
)
    ensures
        caller matches Err(error) ==> refusal(caller, head, id, input) == Some(error@),
        caller is Ok && !auth::passes_guard(head) ==> refusal(caller, head, id, input) == Some(
            AppErrorView::ForbiddenOrigin,
        ),
        refusal(caller, head, id, input) is None ==> caller is Ok && auth::passes_guard(head)
            && input is Ok,
{
}

/// A signed-in caller whose request passes the guard, names an order where it has to
/// and can be read is not refused. One that names no order is told so, and then one
/// that cannot be read.
pub proof fn law_proper_requests_are_not_refused<T>(
    caller: AppResult<Caller>,
    head: RequestHeadView,
    id: Option<Option<u128>>,
    input: Result<T, String>,
)
    requires
        caller is Ok,
        auth::passes_guard(head),
    ensures
        id == Some(None::<u128>) ==> refusal(caller, head, id, input) == Some(ids::bad_id()),
        id != Some(None::<u128>) && input is Ok ==> refusal(caller, head, id, input) is None,
        id != Some(None::<u128>) ==> (input matches Err(reason) ==> refusal(
            caller,
            head,
            id,
            input,
        ) == Some(
            AppErrorView::ValidationFailed(
                seq![FieldErrorView { field: "body"@, message: reason@ }],
            ),
        )),
{
}

/// Cookies that can be sent are all carried, in their order and as they are, and one
/// that cannot is left out without touching the others.
pub proof fn law_cookies_are_carried(cookies: Seq<String>, cookie: String)
    ensures
        carried(cookies.push(cookie)) == if http::encodable(cookie@) {
            carried(cookies).push(cookie@)
        } else {
            carried(cookies)
        },
        carried(Seq::<String>::empty()).len() == 0,
{
    reveal(Seq::filter);
    let all = http::texts(cookies.push(cookie));
    assert(all.drop_last() =~= http::texts(cookies));
    assert(all.last() == cookie@);
}

/// An order that was made or paid is announced at its own address.
pub proof fn law_address_names_the_order(id: u128)
    ensures
        api_order_path(id) == "/api/orders/"@ + ids::id_text(id),
        api_order_path(id).len() == "/api/orders/"@.len() + 36,
{
    ids::law_shape_of_an_identifier(id);
}

} // verus!
