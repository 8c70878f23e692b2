//! Every error a client is allowed to observe.
//!
//! The variants are coarse on purpose. Internal detail stays in the logs of the
//! program around this library and never reaches a value of this type.

use vstd::prelude::*;

use crate::app;
use crate::text;

verus! {

/// One field, one reason it was rejected.
///
/// `field` is a stable path, not a label: `customer`, `due_date`, or
/// `items[2].quantity`.
#[derive(Debug, PartialEq, Eq)]
pub struct FieldError {
    pub field: String,
    pub message: String,
}

/// What a [`FieldError`] says.
#[verifier::ext_equal]
pub struct FieldErrorView {
    pub field: Seq<char>,
    pub message: Seq<char>,
}

impl View for FieldError {
    type V = FieldErrorView;

    open spec fn view(&self) -> FieldErrorView {
        FieldErrorView { field: self.field@, message: self.message@ }
    }
}

impl Clone for FieldError {
    fn clone(&self) -> (r: Self)
        ensures
            r@ == self@,
    {
        FieldError { field: self.field.clone(), message: self.message.clone() }
    }
}

impl FieldError {
    /// Names a field and says what is wrong with it.
    pub fn new(field: &str, message: &str) -> (r: Self)
        ensures
            r@ == (FieldErrorView { field: field@, message: message@ }),
    {
        FieldError { field: field.to_owned(), message: message.to_owned() }
    }
}

/// What a list of field errors says.
pub open spec fn field_views(errors: Seq<FieldError>) -> Seq<FieldErrorView> {
    errors.map_values(|e: FieldError| e@)
}

/// The ways in which a request can fail.
#[derive(Debug, PartialEq, Eq)]
pub enum AppError {
    /// An unexpected failure. Detail stays in the logs.
    Internal,
    /// A dependency this request needs is not healthy or cannot be reached.
    DependencyUnavailable(String),
    /// No valid session accompanied the request.
    Unauthenticated,
    /// A state-changing request came from an origin other than this one.
    ForbiddenOrigin,
    /// The authentication service refused a credential, in its own words.
    AuthRejected(String),
    /// One or more submitted fields were not acceptable; all of them are here.
    ValidationFailed(Vec<FieldError>),
    /// A computed amount left the range of an `i64` count of cents.
    AmountOutOfRange,
    /// The record does not exist, or it belongs to somebody else.
    NotFound,
    /// The order has money recorded against it and can no longer be changed.
    OrderHasPayments,
    /// The payment would take the order past its total. `maximum_cents` is the
    /// largest payment that would be accepted, and zero for a settled order.
    PaymentExceedsAmountDue { maximum_cents: i64 },
    /// The framework failed before or after the application's code ran.
    Transport(String),
}

/// What an [`AppError`] says.
pub enum AppErrorView {
    Internal,
    DependencyUnavailable(Seq<char>),
    Unauthenticated,
    ForbiddenOrigin,
    AuthRejected(Seq<char>),
    ValidationFailed(Seq<FieldErrorView>),
    AmountOutOfRange,
    NotFound,
    OrderHasPayments,
    PaymentExceedsAmountDue { maximum_cents: int },
    Transport(Seq<char>),
}

impl View for AppError {
    type V = AppErrorView;

    open spec fn view(&self) -> AppErrorView {
        match self {
            AppError::Internal => AppErrorView::Internal,
            AppError::DependencyUnavailable(name) => AppErrorView::DependencyUnavailable(name@),
            AppError::Unauthenticated => AppErrorView::Unauthenticated,
            AppError::ForbiddenOrigin => AppErrorView::ForbiddenOrigin,
            AppError::AuthRejected(message) => AppErrorView::AuthRejected(message@),
            AppError::ValidationFailed(errors) => AppErrorView::ValidationFailed(
                field_views(errors@),
            ),
            AppError::AmountOutOfRange => AppErrorView::AmountOutOfRange,
            AppError::NotFound => AppErrorView::NotFound,
            AppError::OrderHasPayments => AppErrorView::OrderHasPayments,
            AppError::PaymentExceedsAmountDue { maximum_cents } =>
                AppErrorView::PaymentExceedsAmountDue { maximum_cents: *maximum_cents as int },
            AppError::Transport(detail) => AppErrorView::Transport(detail@),
        }
    }
}

impl Clone for AppError {
    fn clone(&self) -> (r: Self)
        ensures
            r@ == self@,
    {
        match self {
            AppError::Internal => AppError::Internal,
            AppError::DependencyUnavailable(name) => AppError::DependencyUnavailable(name.clone()),
            AppError::Unauthenticated => AppError::Unauthenticated,
            AppError::ForbiddenOrigin => AppError::ForbiddenOrigin,
            AppError::AuthRejected(message) => AppError::AuthRejected(message.clone()),
            AppError::ValidationFailed(errors) => AppError::ValidationFailed(
                clone_field_errors(errors.as_slice()),
            ),
            AppError::AmountOutOfRange => AppError::AmountOutOfRange,
            AppError::NotFound => AppError::NotFound,
            AppError::OrderHasPayments => AppError::OrderHasPayments,
            AppError::PaymentExceedsAmountDue { maximum_cents } =>
                AppError::PaymentExceedsAmountDue { maximum_cents: *maximum_cents },
            AppError::Transport(detail) => AppError::Transport(detail.clone()),
        }
    }
}

/// A copy of a list of field errors.
fn clone_field_errors(errors: &[FieldError]) -> (r: Vec<FieldError>)
    ensures
        field_views(r@) == field_views(errors@),
{
    let mut r: Vec<FieldError> = Vec::new();
    let mut i: usize = 0;
    while i < errors.len()
        invariant
            i <= errors@.len(),
            field_views(r@) == field_views(errors@).take(i as int),
        decreases errors@.len() - i,
    {
        let ghost copied = r@;
        r.push(errors[i].clone());
        assert(field_views(r@) =~= field_views(copied).push(errors@[i as int]@));
        assert(field_views(errors@).take(i + 1) =~= field_views(errors@).take(i as int).push(
            errors@[i as int]@,
        ));
        i = i + 1;
    }
    assert(field_views(errors@).take(errors@.len() as int) =~= field_views(errors@));
    r
}

/// Result alias used throughout the library.
pub type AppResult<T> = Result<T, AppError>;

/// Whether an answer is the one that `meaning` describes.
pub open spec fn answers<T: View>(answer: AppResult<T>, meaning: Result<T::V, AppErrorView>) -> bool {
    match answer {
        Ok(value) => meaning == Ok::<T::V, AppErrorView>(value@),
        Err(error) => meaning == Err::<T::V, AppErrorView>(error@),
    }
}

// ---------------------------------------------------------------------------
// Codes and statuses
// ---------------------------------------------------------------------------

/// The stable code of an error.
pub open spec fn error_code(error: AppErrorView) -> Seq<char> {
    match error {
        AppErrorView::Internal => "INTERNAL"@,
        AppErrorView::DependencyUnavailable(_) => "DEPENDENCY_UNAVAILABLE"@,
        AppErrorView::Unauthenticated => "UNAUTHENTICATED"@,
        AppErrorView::ForbiddenOrigin => "FORBIDDEN_ORIGIN"@,
        AppErrorView::AuthRejected(_) => "AUTH_REJECTED"@,
        AppErrorView::ValidationFailed(_) => "VALIDATION_FAILED"@,
        AppErrorView::AmountOutOfRange => "AMOUNT_OUT_OF_RANGE"@,
        AppErrorView::NotFound => "NOT_FOUND"@,
        AppErrorView::OrderHasPayments => "ORDER_HAS_PAYMENTS"@,
        AppErrorView::PaymentExceedsAmountDue { .. } => "PAYMENT_EXCEEDS_AMOUNT_DUE"@,
        AppErrorView::Transport(_) => "TRANSPORT"@,
    }
}

/// The HTTP status of an error.
pub open spec fn error_status(error: AppErrorView) -> int {
    match error {
        AppErrorView::AuthRejected(_) => 400,
        AppErrorView::ValidationFailed(_) => 400,
        AppErrorView::AmountOutOfRange => 400,
        AppErrorView::Unauthenticated => 401,
        AppErrorView::ForbiddenOrigin => 403,
        AppErrorView::NotFound => 404,
        AppErrorView::OrderHasPayments => 409,
        AppErrorView::PaymentExceedsAmountDue { .. } => 409,
        AppErrorView::Internal => 500,
        AppErrorView::Transport(_) => 500,
        AppErrorView::DependencyUnavailable(_) => 503,
    }
}

/// The field errors that an error carries.
pub open spec fn error_fields(error: AppErrorView) -> Seq<FieldErrorView> {
    match error {
        AppErrorView::ValidationFailed(errors) => errors,
        _ => Seq::empty(),
    }
}

/// The message of the first error about `field`.
pub open spec fn first_message(errors: Seq<FieldErrorView>, field: Seq<char>) -> Option<Seq<char>>
    decreases errors.len(),
{
    if errors.len() == 0 {
        None
    } else if errors[0].field == field {
        Some(errors[0].message)
    } else {
        first_message(errors.skip(1), field)
    }
}

// ---------------------------------------------------------------------------
// Messages
// ---------------------------------------------------------------------------

/// The parts with `separator` between each two of them.
pub open spec fn joined(parts: Seq<Seq<char>>, separator: Seq<char>) -> Seq<char>
    decreases parts.len(),
{
    if parts.len() == 0 {
        Seq::empty()
    } else if parts.len() == 1 {
        parts[0]
    } else {
        joined(parts.drop_last(), separator) + separator + parts.last()
    }
}

/// The names of the fields that a list of errors mentions.
pub open spec fn field_names(errors: Seq<FieldErrorView>) -> Seq<Seq<char>> {
    errors.map_values(|e: FieldErrorView| e.field)
}

/// A list of field errors as one sentence.
pub open spec fn summary_text(errors: Seq<FieldErrorView>) -> Seq<char> {
    if errors.len() == 0 {
        "The submitted values were not accepted."@
    } else if errors.len() == 1 {
        errors[0].message
    } else {
        text::decimal(errors.len()) + " fields need attention: "@ + joined(
            field_names(errors),
            ", "@,
        )
    }
}

/// What can still be paid, as a sentence.
pub open spec fn overpayment_text(maximum_cents: int) -> Seq<char> {
    if maximum_cents <= 0 {
        "This order is already paid in full."@
    } else {
        "That is more than is still owed. The most you can pay is "@ + app::money_text(
            maximum_cents,
        ) + "."@
    }
}

/// The sentence that a person is shown for an error.
pub open spec fn error_message(error: AppErrorView) -> Seq<char> {
    match error {
        AppErrorView::Internal => "The request could not be completed."@,
        AppErrorView::DependencyUnavailable(name) => name + " is temporarily unavailable."@,
        AppErrorView::Unauthenticated => "You need to sign in to do that."@,
        AppErrorView::ForbiddenOrigin => "This request did not come from a trusted origin."@,
        AppErrorView::AuthRejected(message) => message,
        AppErrorView::ValidationFailed(errors) => summary_text(errors),
        AppErrorView::AmountOutOfRange =>
            "That amount is too large. Keep the order total below $92,233,720,368,547,758."@,
        AppErrorView::NotFound => "That order does not exist, or it is not yours."@,
        AppErrorView::OrderHasPayments =>
            "This order has payments recorded against it and can no longer be changed."@,
        AppErrorView::PaymentExceedsAmountDue { maximum_cents } => overpayment_text(maximum_cents),
        AppErrorView::Transport(detail) => detail,
    }
}

/// Renders a list of field errors as one sentence, for the places that can only
/// show a single string.
pub fn validation_summary(errors: &[FieldError]) -> (r: String)
    ensures
        r@ == summary_text(field_views(errors@)),
{
    let ghost views = field_views(errors@);
    if errors.len() == 0 {
        return "The submitted values were not accepted.".to_owned();
    }
    if errors.len() == 1 {
        return errors[0].message.clone();
    }
    let mut names = errors[0].field.clone();
    let mut i: usize = 1;
    assert(field_names(views.take(1)) =~= seq![errors@[0].field@]);
    while i < errors.len()
        invariant
            1 <= i <= errors@.len(),
            views == field_views(errors@),
            names@ == joined(field_names(views.take(i as int)), ", "@),
        decreases errors@.len() - i,
    {
        names.append(", ");
        names.append(errors[i].field.as_str());
        proof {
            let next = field_names(views.take(i + 1));
            assert(next.drop_last() =~= field_names(views.take(i as int)));
            assert(next.last() == errors@[i as int].field@);
        }
        i = i + 1;
    }
    assert(views.take(views.len() as int) =~= views);
    let mut r = text::decimal_text(errors.len() as u64);
    r.append(" fields need attention: ");
    r.append(names.as_str());
    r
}

/// Says what the caller can still pay. A settled order gets its own sentence.
pub fn overpayment_message(maximum_cents: i64) -> (r: String)
    ensures
        r@ == overpayment_text(maximum_cents as int),
{
    if maximum_cents <= 0 {
        return "This order is already paid in full.".to_owned();
    }
    let mut r = "That is more than is still owed. The most you can pay is ".to_owned();
    r.append(app::format_cents(maximum_cents).as_str());
    r.append(".");
    r
}

impl AppError {
    /// The stable code that a client matches on.
    pub fn code(&self) -> (r: &'static str)
        ensures
            r@ == error_code(self@),
    {
        match self {
            AppError::Internal => "INTERNAL",
            AppError::DependencyUnavailable(_) => "DEPENDENCY_UNAVAILABLE",
            AppError::Unauthenticated => "UNAUTHENTICATED",
            AppError::ForbiddenOrigin => "FORBIDDEN_ORIGIN",
            AppError::AuthRejected(_) => "AUTH_REJECTED",
            AppError::ValidationFailed(_) => "VALIDATION_FAILED",
            AppError::AmountOutOfRange => "AMOUNT_OUT_OF_RANGE",
            AppError::NotFound => "NOT_FOUND",
            AppError::OrderHasPayments => "ORDER_HAS_PAYMENTS",
            AppError::PaymentExceedsAmountDue { .. } => "PAYMENT_EXCEEDS_AMOUNT_DUE",
            AppError::Transport(_) => "TRANSPORT",
        }
    }

    /// The HTTP status of the response that carries this error.
    pub fn status_code(&self) -> (r: u16)
        ensures
            r == error_status(self@),
    {
        match self {
            AppError::Internal | AppError::Transport(_) => 500,
            AppError::DependencyUnavailable(_) => 503,
            AppError::Unauthenticated => 401,
            AppError::ForbiddenOrigin => 403,
            AppError::AuthRejected(_) | AppError::ValidationFailed(_)
            | AppError::AmountOutOfRange => 400,
            AppError::NotFound => 404,
            AppError::OrderHasPayments | AppError::PaymentExceedsAmountDue { .. } => 409,
        }
    }

    /// The failures behind a [`AppError::ValidationFailed`]; none otherwise.
    pub fn field_errors(&self) -> (r: &[FieldError])
        ensures
            field_views(r@) == error_fields(self@),
    {
        match self {
            AppError::ValidationFailed(errors) => errors.as_slice(),
            _ => &[],
        }
    }

    /// The message for one field, if this error mentions it.
    pub fn message_for(&self, field: &str) -> (r: Option<&str>)
        ensures
            match r {
                Some(message) => first_message(error_fields(self@), field@) == Some(message@),
                None => first_message(error_fields(self@), field@) is None,
            },
    {
        let errors = self.field_errors();
        let ghost views = error_fields(self@);
        let mut i: usize = 0;
        assert(views.skip(0) =~= views);
        while i < errors.len()
            invariant
                i <= errors@.len(),
                views == field_views(errors@),
                views == error_fields(self@),
                first_message(views.skip(i as int), field@) == first_message(views, field@),
            decreases errors@.len() - i,
        {
            assert(views.skip(i as int)[0] == errors@[i as int]@);
            if text::same_text(errors[i].field.as_str(), field) {
                return Some(errors[i].message.as_str());
            }
            assert(views.skip(i as int).skip(1) =~= views.skip(i + 1));
            i = i + 1;
        }
        None
    }

    /// The sentence that a person is shown.
    pub fn to_string(&self) -> (r: String)
        ensures
            r@ == error_message(self@),
    {
        match self {
            AppError::Internal => "The request could not be completed.".to_owned(),
            AppError::DependencyUnavailable(name) => {
                let mut r = name.clone();
                r.append(" is temporarily unavailable.");
                r
            },
            AppError::Unauthenticated => "You need to sign in to do that.".to_owned(),
            AppError::ForbiddenOrigin =>
                "This request did not come from a trusted origin.".to_owned(),
            AppError::AuthRejected(message) => message.clone(),
            AppError::ValidationFailed(errors) => validation_summary(errors.as_slice()),
            AppError::AmountOutOfRange =>
                "That amount is too large. Keep the order total below $92,233,720,368,547,758.".to_owned(),
            AppError::NotFound => "That order does not exist, or it is not yours.".to_owned(),
            AppError::OrderHasPayments =>
                "This order has payments recorded against it and can no longer be changed.".to_owned(),
            AppError::PaymentExceedsAmountDue { maximum_cents } => overpayment_message(
                *maximum_cents,
            ),
            AppError::Transport(detail) => detail.clone(),
        }
    }
}

// ---------------------------------------------------------------------------
// Responses
// ---------------------------------------------------------------------------

/// The body of every JSON error response.
///
/// `fields` is empty unless the failure is about specific inputs, and an empty
/// list is left out of the rendered body.
#[derive(Debug)]
pub struct ErrorBody {
    pub error: &'static str,
    pub message: String,
    pub fields: Vec<FieldError>,
}

impl ErrorBody {
    /// The body that describes an error.
    pub fn from(error: &AppError) -> (r: Self)
        ensures
            r.error@ == error_code(error@),
            r.message@ == error_message(error@),
            field_views(r.fields@) == error_fields(error@),
    {
        ErrorBody {
            error: error.code(),
            message: error.to_string(),
            fields: clone_field_errors(error.field_errors()),
        }
    }
}

/// The HTTP status to put on a finished response: the error's own, and nothing
/// to change for a success.
pub fn report<T>(result: &AppResult<T>) -> (r: Option<u16>)
    ensures
        match *result {
            Ok(_) => r is None,
            Err(error) => r matches Some(status) && status == error_status(error@),
        },
{
    match result {
        Ok(_) => None,
        Err(error) => Some(error.status_code()),
    }
}

/// How the server function framework can fail around the application's code.
#[derive(Debug)]
pub enum ServerFnErrorErr {
    Registration(String),
    UnsupportedRequestMethod(String),
    Request(String),
    ServerError(String),
    MiddlewareError(String),
    Deserialization(String),
    Serialization(String),
    Args(String),
    MissingArg(String),
    Response(String),
}

impl AppError {
    /// What the caller sees of a framework failure.
    ///
    /// A failure in the browser has no log to look up, so its description is
    /// passed on. Everything else is a defect here and is shown as such.
    pub fn from_server_fn_error(value: ServerFnErrorErr) -> (r: Self)
        ensures
            r@ == match value {
                ServerFnErrorErr::Request(detail) => AppErrorView::Transport(detail@),
                ServerFnErrorErr::UnsupportedRequestMethod(detail) => AppErrorView::Transport(
                    detail@,
                ),
                ServerFnErrorErr::Serialization(detail) => AppErrorView::Transport(detail@),
                ServerFnErrorErr::Deserialization(detail) => AppErrorView::Transport(detail@),
                _ => AppErrorView::Internal,
            },
    {
        match value {
            ServerFnErrorErr::Request(detail)
            | ServerFnErrorErr::UnsupportedRequestMethod(detail)
            | ServerFnErrorErr::Serialization(detail)
            | ServerFnErrorErr::Deserialization(detail) => AppError::Transport(detail),
            _ => AppError::Internal,
        }
    }
}

/// What a failed database operation looks like from here.
#[derive(Debug, Clone, Copy, PartialEq, Eq, Structural)]
pub enum DatabaseFailure {
    /// No connection could be had.
    Unreachable,
    /// The database answered, and the answer was a failure.
    Rejected,
}

/// The error that a database failure becomes.
pub open spec fn database_error(failure: DatabaseFailure) -> AppErrorView {
    match failure {
        DatabaseFailure::Unreachable => AppErrorView::DependencyUnavailable("PostgreSQL"@),
        DatabaseFailure::Rejected => AppErrorView::Internal,
    }
}

impl AppError {
    /// Reduces a database failure to what a client may see: that the database
    /// cannot be reached, or nothing at all.
    pub fn from_database(failure: DatabaseFailure) -> (r: Self)
        ensures
            r@ == database_error(failure),
    {
        match failure {
            DatabaseFailure::Unreachable => AppError::DependencyUnavailable(
                "PostgreSQL".to_owned(),
            ),
            DatabaseFailure::Rejected => AppError::Internal,
        }
    }
}

// ---------------------------------------------------------------------------
// Laws
// ---------------------------------------------------------------------------

/// Two errors of the same kind, whatever they carry.
pub open spec fn same_kind(a: AppErrorView, b: AppErrorView) -> bool {
    match a {
        AppErrorView::Internal => b is Internal,
        AppErrorView::DependencyUnavailable(_) => b is DependencyUnavailable,
        AppErrorView::Unauthenticated => b is Unauthenticated,
        AppErrorView::ForbiddenOrigin => b is ForbiddenOrigin,
        AppErrorView::AuthRejected(_) => b is AuthRejected,
        AppErrorView::ValidationFailed(_) => b is ValidationFailed,
        AppErrorView::AmountOutOfRange => b is AmountOutOfRange,
        AppErrorView::NotFound => b is NotFound,
        AppErrorView::OrderHasPayments => b is OrderHasPayments,
        AppErrorView::PaymentExceedsAmountDue { .. } => b is PaymentExceedsAmountDue,
        AppErrorView::Transport(_) => b is Transport,
    }
}

/// A code names one kind of error and no other.
pub proof fn law_codes_are_distinct(a: AppErrorView, b: AppErrorView)
    ensures
        error_code(a) == error_code(b) <==> same_kind(a, b),
{
    reveal_strlit("INTERNAL");
    reveal_strlit("DEPENDENCY_UNAVAILABLE");
    reveal_strlit("UNAUTHENTICATED");
    reveal_strlit("FORBIDDEN_ORIGIN");
    reveal_strlit("AUTH_REJECTED");
    reveal_strlit("VALIDATION_FAILED");
    reveal_strlit("AMOUNT_OUT_OF_RANGE");
    reveal_strlit("NOT_FOUND");
    reveal_strlit("ORDER_HAS_PAYMENTS");
    reveal_strlit("PAYMENT_EXCEEDS_AMOUNT_DUE");
    reveal_strlit("TRANSPORT");
    assert("INTERNAL"@.len() == 8);
    assert("DEPENDENCY_UNAVAILABLE"@.len() == 22);
    assert("UNAUTHENTICATED"@.len() == 15);
    assert("FORBIDDEN_ORIGIN"@.len() == 16);
    assert("AUTH_REJECTED"@.len() == 13);
    assert("VALIDATION_FAILED"@.len() == 17);
    assert("AMOUNT_OUT_OF_RANGE"@.len() == 19);
    assert("NOT_FOUND"@.len() == 9);
    assert("ORDER_HAS_PAYMENTS"@.len() == 18);
    assert("PAYMENT_EXCEEDS_AMOUNT_DUE"@.len() == 26);
    assert("TRANSPORT"@.len() == 9);
    assert("NOT_FOUND"@[0] == 'N');
    assert("TRANSPORT"@[0] == 'T');
}

/// Being signed out and the authentication service being down are never the
/// same answer: neither the code nor the status agrees.
pub proof fn law_signed_out_is_not_an_outage(name: Seq<char>)
    ensures
        error_code(AppErrorView::Unauthenticated) != error_code(
            AppErrorView::DependencyUnavailable(name),
        ),
        error_status(AppErrorView::Unauthenticated) != error_status(
            AppErrorView::DependencyUnavailable(name),
        ),
{
    law_codes_are_distinct(
        AppErrorView::Unauthenticated,
        AppErrorView::DependencyUnavailable(name),
    );
}

/// The message for a field is that of the first error about it, and there is none
/// exactly if no error is about it.
pub proof fn law_first_message(errors: Seq<FieldErrorView>, field: Seq<char>)
    ensures
        match first_message(errors, field) {
            Some(message) => exists|i: int|
                0 <= i < errors.len() && (#[trigger] errors[i]).field == field && errors[i].message
                    == message && forall|j: int|
                    0 <= j < i ==> (#[trigger] errors[j]).field != field,
            None => forall|i: int| 0 <= i < errors.len() ==> (#[trigger] errors[i]).field != field,
        },
    decreases errors.len(),
{
    if errors.len() > 0 && errors[0].field != field {
        let rest = errors.skip(1);
        law_first_message(rest, field);
        if let Some(message) = first_message(rest, field) {
            let k = choose|i: int|
                0 <= i < rest.len() && (#[trigger] rest[i]).field == field && rest[i].message
                    == message && forall|j: int| 0 <= j < i ==> (#[trigger] rest[j]).field != field;
            assert(errors[k + 1] == rest[k]);
            assert forall|j: int| 0 <= j < k + 1 implies (#[trigger] errors[j]).field != field by {
                if j > 0 {
                    assert(rest[j - 1].field != field);
                }
            }
        } else {
            assert forall|i: int| 0 <= i < errors.len() implies (#[trigger] errors[i]).field
                != field by {
                if i > 0 {
                    assert(rest[i - 1].field != field);
                }
            }
        }
    } else if errors.len() > 0 {
        assert(errors[0].field == field);
    }
}

/// A status says whose mistake it was: the caller's below 500, and ours or a
/// dependency's from there on. Signing in, another origin, a missing order and an
/// outage each have a status of their own.
pub proof fn law_statuses_say_whose_mistake(error: AppErrorView)
    ensures
        500 <= error_status(error) <= 599 <==> error is Internal || error is Transport
            || error is DependencyUnavailable,
        400 <= error_status(error) <= 599,
        error_status(error) == 401 <==> error is Unauthenticated,
        error_status(error) == 403 <==> error is ForbiddenOrigin,
        error_status(error) == 404 <==> error is NotFound,
        error_status(error) == 409 <==> error is OrderHasPayments
            || error is PaymentExceedsAmountDue,
        error_status(error) == 503 <==> error is DependencyUnavailable,
        error is ValidationFailed ==> error_status(error) == 400,
        error_fields(error).len() > 0 ==> error is ValidationFailed,
{
}

/// An answer is the one that is described only if it is that value or that error and
/// no other.
pub proof fn law_answers_are_exact<T: View>(answer: AppResult<T>, meaning: Result<T::V, AppErrorView>)
    requires
        answers(answer, meaning),
    ensures
        answer is Ok <==> meaning is Ok,
        answer matches Ok(value) ==> meaning->Ok_0 == value@,
        answer matches Err(error) ==> meaning->Err_0 == error@,
{
}

/// A list of field errors says what each of them says, in order, and nothing else.
pub proof fn law_every_field_error_is_said(errors: Seq<FieldError>, i: int)
    requires
        0 <= i < errors.len(),
    ensures
        field_views(errors).len() == errors.len(),
        field_views(errors)[i].field == errors[i].field@,
        field_views(errors)[i].message == errors[i].message@,
{
}

/// What an error carries is what it says: the name, the words, the fields or the
/// amount it was made with.
pub proof fn law_errors_say_what_they_carry(error: AppError)
    ensures
        error matches AppError::PaymentExceedsAmountDue { maximum_cents } ==> (
        error@ matches AppErrorView::PaymentExceedsAmountDue { maximum_cents: said } && said
            == maximum_cents),
        error matches AppError::ValidationFailed(errors) ==> error_fields(error@) == field_views(
            errors@,
        ),
        error matches AppError::AuthRejected(words) ==> error_message(error@) == words@,
        error matches AppError::Transport(words) ==> error_message(error@) == words@,
        error matches AppError::DependencyUnavailable(name) ==> name@.is_prefix_of(
            error_message(error@),
        ),
        error is NotFound <==> error@ is NotFound,
        error is OrderHasPayments <==> error@ is OrderHasPayments,
        error is Unauthenticated <==> error@ is Unauthenticated,
        error is ForbiddenOrigin <==> error@ is ForbiddenOrigin,
        error is Internal <==> error@ is Internal,
        error is AmountOutOfRange <==> error@ is AmountOutOfRange,
{
    if let AppError::DependencyUnavailable(name) = error {
        let said = error_message(error@);
        assert(name@ =~= said.subrange(0, name@.len() as int));
    }
}

/// A refused overpayment is told the amount that can still be paid, as it is shown
/// everywhere, and a settled order that it is settled.
pub proof fn law_overpayment_is_told_the_amount(maximum_cents: int)
    ensures
        maximum_cents > 0 ==> {
            let said = overpayment_text(maximum_cents);
            let amount = app::money_text(maximum_cents);
            &&& said.len() > amount.len()
            &&& said.subrange(said.len() - 1 - amount.len(), said.len() - 1) == amount
        },
        maximum_cents <= 0 ==> overpayment_text(maximum_cents) == overpayment_text(0),
{
    if maximum_cents > 0 {
        let said = overpayment_text(maximum_cents);
        let amount = app::money_text(maximum_cents);
        reveal_strlit(".");
        assert("."@.len() == 1);
        assert(said.subrange(said.len() - 1 - amount.len(), said.len() - 1) =~= amount);
    }
}

/// One problem is told in its own words. Several are counted and named, each field in
/// its place.
pub proof fn law_summary_counts_and_names(errors: Seq<FieldErrorView>, last: FieldErrorView)
    ensures
        summary_text(seq![last]) == last.message,
        errors.len() >= 2 ==> summary_text(errors.push(last)) == text::decimal(errors.len() + 1)
            + " fields need attention: "@ + (joined(field_names(errors), ", "@) + ", "@
            + last.field),
        errors.len() == 1 ==> summary_text(errors.push(last)) == text::decimal(2)
            + " fields need attention: "@ + (errors[0].field + ", "@ + last.field),
{
    let names = field_names(errors.push(last));
    assert(names.drop_last() =~= field_names(errors));
    if errors.len() > 0 {
        assert(names.last() == last.field);
    }
    if errors.len() == 1 {
        assert(field_names(errors)[0] == errors[0].field);
    }
}

/// A client learns of a failed database that it cannot be reached, and otherwise
/// nothing.
pub proof fn law_what_is_told_of_the_database(failure: DatabaseFailure)
    ensures
        database_error(failure) == if failure == DatabaseFailure::Unreachable {
            AppErrorView::DependencyUnavailable("PostgreSQL"@)
        } else {
            AppErrorView::Internal
        },
{
}

} // verus!
