//! Payments recorded against an order.
//!
//! One rule is what this module is for: the payments against an order never
//! exceed its total. The decision is taken by [`decide_payment`], from a total
//! and a sum that were both read behind the lock on the order's row.

use vstd::prelude::*;

use crate::app;
use crate::app::MoneyText;
use crate::cents;
use crate::date::CalendarDate;
use crate::error;
use crate::error::{AppError, AppErrorView, AppResult, FieldError, FieldErrorView};
use crate::orders::parse;
use crate::orders::validate;
use crate::text;

verus! {

// ---------------------------------------------------------------------------
// Types
// ---------------------------------------------------------------------------

/// A payment as submitted.
#[derive(Debug, Clone, PartialEq, Eq)]
pub struct NewPaymentInput {
    pub amount: String,
    pub paid_on: String,
}

/// A payment that has survived validation.
#[derive(Debug, Clone, Copy, PartialEq, Eq, Structural)]
pub struct ValidatedPayment {
    pub amount_cents: i64,
    pub paid_on: CalendarDate,
}

/// One payment as it is read back.
#[derive(Debug, Clone, Copy, PartialEq, Eq, Structural)]
pub struct PaymentRecord {
    pub id: u128,
    pub amount_cents: i64,
    pub paid_on: CalendarDate,
}

/// What a [`NewPaymentInput`] holds.
#[verifier::ext_equal]
pub struct NewPaymentInputView {
    pub amount: Seq<char>,
    pub paid_on: Seq<char>,
}

impl View for NewPaymentInput {
    type V = NewPaymentInputView;

    open spec fn view(&self) -> NewPaymentInputView {
        NewPaymentInputView { amount: self.amount@, paid_on: self.paid_on@ }
    }
}

impl Default for NewPaymentInput {
    /// A payment with nothing filled in.
    fn default() -> (r: Self)
        ensures
            r@ == (NewPaymentInputView { amount: Seq::empty(), paid_on: Seq::empty() }),
    {
        NewPaymentInput { amount: String::new(), paid_on: String::new() }
    }
}

impl View for ValidatedPayment {
    type V = ValidatedPayment;

    open spec fn view(&self) -> ValidatedPayment {
        *self
    }
}

impl ValidatedPayment {
    /// What holds of every payment that has survived validation.
    pub open spec fn wf(self) -> bool {
        self.amount_cents > 0 && self.paid_on.wf()
    }
}

// ---------------------------------------------------------------------------
// What can be paid
// ---------------------------------------------------------------------------

/// The largest payment that an order can still accept.
pub open spec fn maximum_payment(total_cents: int, paid_cents: int) -> int {
    let due = cents::clamped(total_cents - paid_cents);
    if due < 0 { 0 } else { due }
}

/// The largest payment that an order can still accept. An order that was paid
/// past its total accepts nothing more.
pub fn calculate_maximum_payment_cents(total_cents: i64, paid_cents: i64) -> (r: i64)
    ensures
        r == maximum_payment(total_cents as int, paid_cents as int),
{
    let due: i64 = cents::saturating_difference(total_cents, paid_cents);
    if due < 0 { 0 } else { due }
}

/// The answer to a payment: none if it is accepted, a refusal otherwise.
pub open spec fn payment_refusal(total_cents: int, paid_cents: int, amount_cents: int) -> Option<
    AppErrorView,
> {
    let maximum_cents = maximum_payment(total_cents, paid_cents);
    if amount_cents > maximum_cents {
        Some(AppErrorView::PaymentExceedsAmountDue { maximum_cents })
    } else {
        None
    }
}

/// Accepts a payment, or refuses it with the largest one that would be accepted.
pub fn decide_payment(total_cents: i64, paid_cents: i64, amount_cents: i64) -> (r: AppResult<()>)
    ensures
        match payment_refusal(total_cents as int, paid_cents as int, amount_cents as int) {
            Some(refusal) => r matches Err(error) && error@ == refusal,
            None => r is Ok,
        },
{
    let maximum_cents: i64 = calculate_maximum_payment_cents(total_cents, paid_cents);
    if amount_cents > maximum_cents {
        Err(AppError::PaymentExceedsAmountDue { maximum_cents })
    } else {
        Ok(())
    }
}

// ---------------------------------------------------------------------------
// Validation
// ---------------------------------------------------------------------------

/// What is wrong with the amount of a payment.
pub open spec fn amount_problems(amount: Seq<char>) -> Seq<FieldErrorView> {
    match parse::money_meaning(amount) {
        Ok(cents) => if cents == 0 {
            validate::problem("amount"@, "Enter an amount greater than zero."@)
        } else {
            Seq::empty()
        },
        Err(message) => validate::problem("amount"@, message),
    }
}

/// What a submitted payment whose date means `paid_on` amounts to.
pub open spec fn payment_meaning(
    input: NewPaymentInputView,
    paid_on: Result<CalendarDate, Seq<char>>,
) -> Result<ValidatedPayment, AppErrorView> {
    let problems = amount_problems(input.amount) + validate::meaning_problems("paid_on"@, paid_on);
    if problems.len() > 0 {
        Err(AppErrorView::ValidationFailed(problems))
    } else {
        Ok(
            ValidatedPayment {
                amount_cents: parse::money_meaning(input.amount)->Ok_0 as i64,
                paid_on: paid_on->Ok_0,
            },
        )
    }
}

/// Checks a submitted payment whose date was judged already.
pub fn assemble_payment(
    input: &NewPaymentInput,
    paid_on: Result<CalendarDate, &'static str>,
) -> (r: AppResult<ValidatedPayment>)
    ensures
        match paid_on {
            Ok(date) => error::answers(r, payment_meaning(input@, Ok(date))),
            Err(message) => error::answers(r, payment_meaning(input@, Err(message@))),
        },
        r matches Ok(payment) ==> parse::money_meaning(input@.amount) == Ok::<int, Seq<char>>(
            payment.amount_cents as int,
        ) && paid_on == Ok::<CalendarDate, &'static str>(payment.paid_on),
{
    let ghost date_meaning: Result<CalendarDate, Seq<char>> = match paid_on {
        Ok(date) => Ok(date),
        Err(message) => Err(message@),
    };
    let mut errors: Vec<FieldError> = Vec::new();
    assert(error::field_views(errors@) =~= Seq::<FieldErrorView>::empty());
    let mut amount_cents: i64 = 0;
    match parse::parse_money_to_cents(input.amount.as_str()) {
        Ok(0) => {
            validate::complain(&mut errors, "amount", "Enter an amount greater than zero.");
        },
        Ok(cents) => {
            amount_cents = cents;
        },
        Err(message) => {
            validate::complain(&mut errors, "amount", message);
        },
    }
    assert(error::field_views(errors@) =~= amount_problems(input.amount@));
    if let Err(message) = paid_on {
        validate::complain(&mut errors, "paid_on", message);
    }
    assert(error::field_views(errors@) =~= amount_problems(input.amount@)
        + validate::meaning_problems("paid_on"@, date_meaning));
    match paid_on {
        Ok(paid_on) if errors.len() == 0 => Ok(ValidatedPayment { amount_cents, paid_on }),
        _ => Err(AppError::ValidationFailed(errors)),
    }
}

/// Checks a submitted payment, reporting every problem at once. A payment of
/// nothing is refused: it would sit in the history claiming that something
/// happened.
pub fn validate_payment(input: &NewPaymentInput) -> (r: AppResult<ValidatedPayment>)
    ensures
        error::answers(
            r,
            payment_meaning(
                input@,
                parse::due_date_meaning(input@.paid_on, parse::found_date(input@.paid_on)),
            ),
        ),
        r matches Ok(payment) ==> payment.wf() && parse::money_meaning(input@.amount) == Ok::<
            int,
            Seq<char>,
        >(payment.amount_cents as int),
        forall|date: CalendarDate|
            date.wf() && text::trimmed(input@.paid_on) == #[trigger] date.text()
                ==> error::answers(r, payment_meaning(input@, Ok(date))),
{
    assemble_payment(input, parse::parse_due_date(input.paid_on.as_str()))
}

// ---------------------------------------------------------------------------
// The payment form
// ---------------------------------------------------------------------------

/// The state of the form for recording a payment.
#[derive(Debug, Clone, PartialEq, Eq)]
pub struct PaymentForm {
    pub amount: String,
    pub paid_on: String,
    /// Whether anything was typed since the last submission.
    pub edited: bool,
}

impl PaymentForm {
    /// An empty amount, and today as the server sees it.
    pub fn new(today: CalendarDate) -> (r: Self)
        requires
            today.wf(),
        ensures
            r.amount@ == Seq::<char>::empty(),
            r.paid_on@ == today.text(),
            !r.edited,
    {
        PaymentForm { amount: String::new(), paid_on: today.to_string(), edited: false }
    }

    /// The amount was typed.
    pub fn type_amount(&mut self, typed: String)
        ensures
            *final(self) == (PaymentForm { amount: typed, edited: true, ..*old(self) }),
    {
        self.amount = typed;
        self.edited = true;
    }

    /// The date was typed.
    pub fn type_paid_on(&mut self, typed: String)
        ensures
            *final(self) == (PaymentForm { paid_on: typed, edited: true, ..*old(self) }),
    {
        self.paid_on = typed;
        self.edited = true;
    }

    /// Submits what the form says, and forgets that anything was typed.
    pub fn submit(&mut self) -> (r: NewPaymentInput)
        ensures
            *final(self) == (PaymentForm { edited: false, ..*old(self) }),
            r@ == (NewPaymentInputView { amount: old(self).amount@, paid_on: old(self).paid_on@ }),
    {
        self.edited = false;
        NewPaymentInput { amount: self.amount.clone(), paid_on: self.paid_on.clone() }
    }

    /// The verdict to show: that of the last submission, until something is typed.
    pub fn failure<'a>(&self, recorded: &'a Option<AppResult<()>>) -> (r: Option<&'a AppError>)
        ensures
            match r {
                Some(error) => !self.edited && *recorded == Some(Err::<(), AppError>(*error)),
                None => self.edited || !(*recorded matches Some(Err(_))),
            },
    {
        if self.edited {
            return None;
        }
        match recorded {
            Some(Err(error)) => Some(error),
            _ => None,
        }
    }
}

/// The message beside a field of the payment form. A refused overpayment is about
/// the amount, although it names no field.
pub open spec fn form_message(error: AppErrorView, field: Seq<char>) -> Option<Seq<char>> {
    if error is PaymentExceedsAmountDue && field == "amount"@ {
        Some(error::error_message(error))
    } else {
        error::first_message(error::error_fields(error), field)
    }
}

/// The message beside a field of the payment form.
pub fn message_for(failure: Option<&AppError>, field: &str) -> (r: Option<String>)
    ensures
        match failure {
            Some(error) => match r {
                Some(message) => form_message(error@, field@) == Some(message@),
                None => form_message(error@, field@) is None,
            },
            None => r is None,
        },
{
    match failure {
        Some(error) => {
            if let AppError::PaymentExceedsAmountDue { .. } = error {
                if text::same_text(field, "amount") {
                    return Some(error.to_string());
                }
            }
            match error.message_for(field) {
                Some(message) => Some(message.to_owned()),
                None => None,
            }
        },
        None => None,
    }
}

/// The sentence below the form, for a failure that no field of it is about.
pub fn other_failure(failure: Option<&AppError>) -> (r: Option<String>)
    ensures
        match failure {
            Some(error) => if error@ is ValidationFailed || error@ is PaymentExceedsAmountDue {
                r is None
            } else {
                r matches Some(message) && message@ == error::error_message(error@)
            },
            None => r is None,
        },
{
    match failure {
        Some(AppError::ValidationFailed(_)) => None,
        Some(AppError::PaymentExceedsAmountDue { .. }) => None,
        Some(error) => Some(error.to_string()),
        None => None,
    }
}

/// The hint above the form.
pub fn payment_hint(maximum_cents: i64) -> (r: String)
    ensures
        r@ == "Up to "@ + app::money_text(maximum_cents as int) + " is still owed."@,
{
    let mut r = "Up to ".to_owned();
    r.append(app::format_cents(maximum_cents).as_str());
    r.append(" is still owed.");
    r
}

// ---------------------------------------------------------------------------
// The payment history
// ---------------------------------------------------------------------------

/// One row of the history.
#[derive(Debug, Clone, PartialEq, Eq)]
pub struct PaymentHistoryRow {
    pub paid_on: String,
    pub amount: MoneyText,
}

/// Every payment against one order, ending in what they add up to.
#[derive(Debug, Clone, PartialEq, Eq)]
pub struct PaymentHistory {
    pub rows: Vec<PaymentHistoryRow>,
    pub count: String,
    pub paid: MoneyText,
}

/// Whether a payment stands above another in a history: it was made on a later
/// day, or on the same day under a greater identifier.
pub open spec fn stands_above(a: PaymentRecord, b: PaymentRecord) -> bool {
    b.paid_on.precedes(a.paid_on) || a.paid_on == b.paid_on && a.id > b.id
}

/// Whether payments are listed newest first.
pub open spec fn newest_first(payments: Seq<PaymentRecord>) -> bool {
    forall|i: int, j: int|
        0 <= i < j < payments.len() ==> stands_above(
            #[trigger] payments[i],
            #[trigger] payments[j],
        )
}

/// How many payments there are, in words.
pub open spec fn count_text(count: nat) -> Seq<char> {
    if count == 1 {
        "1 payment"@
    } else {
        text::decimal(count) + " payments"@
    }
}

/// Whether a row of the history shows a payment.
pub open spec fn shows_payment(row: PaymentHistoryRow, payment: PaymentRecord) -> bool {
    &&& row.paid_on@ == payment.paid_on.text()
    &&& app::shows_money(row.amount, payment.amount_cents as int)
}

impl PaymentHistory {
    /// The history of an order, and nothing at all for an order without payments.
    pub fn new(payments: &[PaymentRecord], paid_cents: i64) -> (r: Option<Self>)
        requires
            forall|i: int| 0 <= i < payments@.len() ==> (#[trigger] payments@[i]).paid_on.wf(),
        ensures
            match r {
                Some(history) => {
                    &&& payments@.len() > 0
                    &&& history.rows@.len() == payments@.len()
                    &&& forall|i: int|
                        0 <= i < payments@.len() ==> shows_payment(
                            #[trigger] history.rows@[i],
                            payments@[i],
                        )
                    &&& history.count@ == count_text(payments@.len())
                    &&& app::shows_money(history.paid, paid_cents as int)
                },
                None => payments@.len() == 0,
            },
    {
        if payments.len() == 0 {
            return None;
        }
        let mut rows: Vec<PaymentHistoryRow> = Vec::new();
        let mut i: usize = 0;
        while i < payments.len()
            invariant
                i <= payments@.len(),
                rows@.len() == i,
                forall|j: int| 0 <= j < payments@.len() ==> (#[trigger] payments@[j]).paid_on.wf(),
                forall|j: int| 0 <= j < i ==> shows_payment(#[trigger] rows@[j], payments@[j]),
            decreases payments@.len() - i,
        {
            let payment = payments[i];
            rows.push(
                PaymentHistoryRow {
                    paid_on: payment.paid_on.to_string(),
                    amount: MoneyText::new(payment.amount_cents),
                },
            );
            i = i + 1;
        }
        let count = if payments.len() == 1 {
            "1 payment".to_owned()
        } else {
            let mut count = text::decimal_text(payments.len() as u64);
            count.append(" payments");
            count
        };
        Some(PaymentHistory { rows, count, paid: MoneyText::new(paid_cents) })
    }
}

// ---------------------------------------------------------------------------
// Laws
// ---------------------------------------------------------------------------

/// A payment is accepted exactly when it leaves the order at or below its total,
/// and the largest accepted payment settles the order.
pub proof fn law_accepted_payments_fit(total_cents: int, paid_cents: int, amount_cents: int)
    requires
        0 <= paid_cents <= total_cents <= i64::MAX,
        0 < amount_cents,
    ensures
        payment_refusal(total_cents, paid_cents, amount_cents) is None <==> paid_cents
            + amount_cents <= total_cents,
        paid_cents + maximum_payment(total_cents, paid_cents) == total_cents,
{
}

/// A settled order, or one paid past its total, accepts no payment, and says so
/// with a maximum of zero.
pub proof fn law_settled_orders_accept_nothing(
    total_cents: int,
    paid_cents: int,
    amount_cents: int,
)
    requires
        total_cents <= paid_cents,
        0 < amount_cents,
    ensures
        payment_refusal(total_cents, paid_cents, amount_cents) == Some(
            AppErrorView::PaymentExceedsAmountDue { maximum_cents: 0 },
        ),
{
}

/// Whatever was paid so far, a payment of something is refused exactly if it is more
/// than what is left, and the refusal names what is left: the total less what was
/// paid, and nothing for an order that was paid past its total.
pub proof fn law_refusal_names_what_is_left(total_cents: i64, paid_cents: i64, amount_cents: i64)
    requires
        0 < amount_cents,
        total_cents - paid_cents <= i64::MAX,
    ensures
        payment_refusal(total_cents as int, paid_cents as int, amount_cents as int) is None
            <==> paid_cents + amount_cents <= total_cents,
        payment_refusal(total_cents as int, paid_cents as int, amount_cents as int) matches Some(
            refusal,
        ) ==> (refusal matches AppErrorView::PaymentExceedsAmountDue { maximum_cents }
            && maximum_cents >= 0 && (paid_cents < total_cents ==> paid_cents + maximum_cents
            == total_cents) && (paid_cents >= total_cents ==> maximum_cents == 0)),
        0 <= maximum_payment(total_cents as int, paid_cents as int),
        paid_cents < total_cents ==> paid_cents + maximum_payment(
            total_cents as int,
            paid_cents as int,
        ) == total_cents,
        paid_cents >= total_cents ==> maximum_payment(total_cents as int, paid_cents as int) == 0,
{
}

/// A payment is accepted exactly if its amount means something more than zero and
/// its date is one, and it is then of exactly that amount on exactly that day.
pub proof fn law_accepted_payment_is_the_submitted_one(
    input: NewPaymentInputView,
    paid_on: Result<CalendarDate, Seq<char>>,
    cents: int,
    day: CalendarDate,
)
    requires
        0 < cents <= i64::MAX,
    ensures
        payment_meaning(input, paid_on) == Ok::<ValidatedPayment, AppErrorView>(
            ValidatedPayment { amount_cents: cents as i64, paid_on: day },
        ) <==> parse::money_meaning(input.amount) == Ok::<int, Seq<char>>(cents) && paid_on == Ok::<
            CalendarDate,
            Seq<char>,
        >(day),
        payment_meaning(input, paid_on) matches Ok(payment) ==> payment.amount_cents > 0,
        parse::money_meaning(input.amount) == Ok::<int, Seq<char>>(0) ==> payment_meaning(
            input,
            paid_on,
        ) is Err,
{
    if let Ok(payment) = payment_meaning(input, paid_on) {
        assert(amount_problems(input.amount).len() == 0);
        assert(validate::meaning_problems("paid_on"@, paid_on).len() == 0);
        lemma_amounts_are_in_range(input.amount);
    }
    if parse::money_meaning(input.amount) == Ok::<int, Seq<char>>(cents) && paid_on is Ok {
        assert(amount_problems(input.amount) + validate::meaning_problems("paid_on"@, paid_on)
            =~= Seq::<FieldErrorView>::empty());
    }
    assert(parse::money_meaning(input.amount) == Ok::<int, Seq<char>>(0) ==> amount_problems(
        input.amount,
    ).len() == 1);
}

/// What an amount means can be held, and is not negative.
proof fn lemma_amounts_are_in_range(raw: Seq<char>)
    ensures
        parse::money_meaning(raw) matches Ok(cents) ==> 0 <= cents <= i64::MAX,
{
}

/// An amount that is submitted as it is shown, or as a form is prefilled with it, is
/// recorded to the cent.
pub proof fn law_shown_amount_is_recorded(cents: int, day: CalendarDate, paid_on: Seq<char>)
    requires
        0 < cents <= i64::MAX,
    ensures
        payment_meaning(
            NewPaymentInputView { amount: parse::plain_money_text(cents), paid_on },
            Ok(day),
        ) == Ok::<ValidatedPayment, AppErrorView>(
            ValidatedPayment { amount_cents: cents as i64, paid_on: day },
        ),
        payment_meaning(
            NewPaymentInputView { amount: app::money_text(cents), paid_on },
            Ok(day),
        ) == Ok::<ValidatedPayment, AppErrorView>(
            ValidatedPayment { amount_cents: cents as i64, paid_on: day },
        ),
{
    let plain = NewPaymentInputView { amount: parse::plain_money_text(cents), paid_on };
    let shown = NewPaymentInputView { amount: app::money_text(cents), paid_on };
    parse::law_input_amount_reads_back(cents);
    parse::law_shown_amount_reads_back(cents);
    law_accepted_payment_is_the_submitted_one(plain, Ok(day), cents, day);
    law_accepted_payment_is_the_submitted_one(shown, Ok(day), cents, day);
}

/// Whether a list of problems names the amount exactly if it means nothing or zero,
/// and the date exactly if it is none, each in the words about it.
pub open spec fn names_every_problem(
    problems: Seq<FieldErrorView>,
    amount: Result<int, Seq<char>>,
    paid_on: Result<CalendarDate, Seq<char>>,
) -> bool {
    &&& (exists|k: int| 0 <= k < problems.len() && (#[trigger] problems[k]).field == "amount"@)
        <==> (amount is Err || amount == Ok::<int, Seq<char>>(0))
    &&& (exists|k: int| 0 <= k < problems.len() && (#[trigger] problems[k]).field == "paid_on"@)
        <==> paid_on is Err
    &&& amount matches Err(message) ==> problems.contains(
        FieldErrorView { field: "amount"@, message },
    )
    &&& paid_on matches Err(message) ==> problems.contains(
        FieldErrorView { field: "paid_on"@, message },
    )
    &&& problems.len() <= 2
}

/// A refused payment names everything that is wrong with it: the amount if it means
/// nothing or zero, the date if it is none, and both if both are wrong.
pub proof fn law_refused_payment_names_every_problem(
    input: NewPaymentInputView,
    paid_on: Result<CalendarDate, Seq<char>>,
)
    ensures
        payment_meaning(input, paid_on) matches Err(error) ==> (
        error matches AppErrorView::ValidationFailed(problems) && names_every_problem(
            problems,
            parse::money_meaning(input.amount),
            paid_on,
        )),
{
    reveal_strlit("amount");
    reveal_strlit("paid_on");
    assert("amount"@.len() == 6 && "paid_on"@.len() == 7);
    let a = amount_problems(input.amount);
    let b = validate::meaning_problems("paid_on"@, paid_on);
    let problems = a + b;
    assert(forall|k: int| 0 <= k < a.len() ==> (#[trigger] problems[k]).field == "amount"@);
    assert(forall|k: int|
        a.len() <= k < problems.len() ==> (#[trigger] problems[k]).field == "paid_on"@);
    if a.len() > 0 {
        assert(problems[0] == a[0]);
        assert(problems.contains(a[0]));
    }
    if b.len() > 0 {
        assert(problems[a.len() as int] == b[0]);
        assert(problems.contains(b[0]));
    }
    assert(names_every_problem(problems, parse::money_meaning(input.amount), paid_on));
}

/// What is said of a submitted payment is said of the texts it holds, and what is said
/// of a validated one of the values it holds.
pub proof fn law_payment_values(input: NewPaymentInput, payment: ValidatedPayment)
    ensures
        input@.amount == input.amount@,
        input@.paid_on == input.paid_on@,
        payment@.amount_cents == payment.amount_cents,
        payment@.paid_on == payment.paid_on,
        payment.wf() <==> payment.amount_cents > 0 && payment.paid_on.wf(),
{
}

/// Beside the amount stands the refusal of an overpayment, and beside any other field
/// nothing of it. Other errors stand beside the fields they name.
pub proof fn law_messages_stand_beside_their_field(error: AppErrorView, field: Seq<char>)
    ensures
        error is PaymentExceedsAmountDue ==> form_message(error, "amount"@) == Some(
            error::error_message(error),
        ),
        error is PaymentExceedsAmountDue && field != "amount"@ ==> form_message(error, field) is None,
        !(error is PaymentExceedsAmountDue) ==> form_message(error, field)
            == error::first_message(error::error_fields(error), field),
{
}

/// A history says how many payments it lists.
pub proof fn law_history_counts_its_rows(count: nat)
    ensures
        text::decimal(count).is_prefix_of(count_text(count)),
        count_text(count).skip(text::decimal(count).len() as int) == if count == 1 {
            " payment"@
        } else {
            " payments"@
        },
{
    reveal_strlit("1 payment");
    reveal_strlit(" payment");
    reveal_strlit(" payments");
    let said = count_text(count);
    let number = text::decimal(count);
    assert(number =~= said.subrange(0, number.len() as int));
    assert(said.skip(number.len() as int) =~= if count == 1 {
        " payment"@
    } else {
        " payments"@
    });
}

} // verus!
