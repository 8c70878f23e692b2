//! Checking a submitted order, and adding it up.
//!
//! Everything a browser submits is text, the numbers included, and stays text
//! until it is judged here. All problems are collected before an answer is
//! given, so that nobody has to discover them one at a time.

use vstd::prelude::*;

use crate::cents;
use crate::date::CalendarDate;
use crate::error;
use crate::error::{AppError, AppErrorView, AppResult, FieldError, FieldErrorView};
use crate::orders::parse;
use crate::text;

verus! {

/// The most line items that one order can hold.
pub const MAX_ITEMS: usize = 100;

/// The longest accepted customer name.
pub const MAX_CUSTOMER_LEN: usize = 200;

/// The longest accepted description of a line item.
pub const MAX_DESCRIPTION_LEN: usize = 500;

// ---------------------------------------------------------------------------
// Types
// ---------------------------------------------------------------------------

/// One line item as submitted.
#[derive(Debug, Clone, PartialEq, Eq)]
pub struct OrderItemInput {
    pub description: String,
    pub quantity: String,
    pub unit_price: String,
}

/// A whole order as submitted.
#[derive(Debug, Clone, PartialEq, Eq)]
pub struct NewOrderInput {
    pub customer: String,
    pub due_date: String,
    pub items: Vec<OrderItemInput>,
}

/// A line item that has survived validation.
#[derive(Debug, Clone, PartialEq, Eq)]
pub struct ValidatedItem {
    pub description: String,
    pub quantity: i64,
    pub unit_price_cents: i64,
    pub line_total_cents: i64,
}

/// An order that has survived validation and is safe to persist.
#[derive(Debug, Clone, PartialEq, Eq)]
pub struct ValidatedOrder {
    pub customer: String,
    pub due_date: CalendarDate,
    pub total_cents: i64,
    pub items: Vec<ValidatedItem>,
}

/// What an [`OrderItemInput`] holds.
#[verifier::ext_equal]
pub struct OrderItemInputView {
    pub description: Seq<char>,
    pub quantity: Seq<char>,
    pub unit_price: Seq<char>,
}

/// What a [`NewOrderInput`] holds.
#[verifier::ext_equal]
pub struct NewOrderInputView {
    pub customer: Seq<char>,
    pub due_date: Seq<char>,
    pub items: Seq<OrderItemInputView>,
}

/// What a [`ValidatedItem`] holds.
#[verifier::ext_equal]
pub struct ValidatedItemView {
    pub description: Seq<char>,
    pub quantity: int,
    pub unit_price_cents: int,
    pub line_total_cents: int,
}

/// What a [`ValidatedOrder`] holds.
#[verifier::ext_equal]
pub struct ValidatedOrderView {
    pub customer: Seq<char>,
    pub due_date: CalendarDate,
    pub total_cents: int,
    pub items: Seq<ValidatedItemView>,
}

impl View for OrderItemInput {
    type V = OrderItemInputView;

    open spec fn view(&self) -> OrderItemInputView {
        OrderItemInputView {
            description: self.description@,
            quantity: self.quantity@,
            unit_price: self.unit_price@,
        }
    }
}

impl View for NewOrderInput {
    type V = NewOrderInputView;

    open spec fn view(&self) -> NewOrderInputView {
        NewOrderInputView {
            customer: self.customer@,
            due_date: self.due_date@,
            items: self.items@.map_values(|item: OrderItemInput| item@),
        }
    }
}

impl Default for OrderItemInput {
    /// A line item with nothing filled in.
    fn default() -> (r: Self)
        ensures
            r@ == (OrderItemInputView {
                description: Seq::empty(),
                quantity: Seq::empty(),
                unit_price: Seq::empty(),
            }),
    {
        OrderItemInput {
            description: String::new(),
            quantity: String::new(),
            unit_price: String::new(),
        }
    }
}

impl Default for NewOrderInput {
    /// An order with nothing filled in.
    fn default() -> (r: Self)
        ensures
            r@ == (NewOrderInputView {
                customer: Seq::empty(),
                due_date: Seq::empty(),
                items: Seq::empty(),
            }),
    {
        let input = NewOrderInput {
            customer: String::new(),
            due_date: String::new(),
            items: Vec::new(),
        };
        assert(input@.items =~= Seq::<OrderItemInputView>::empty());
        input
    }
}

impl View for ValidatedItem {
    type V = ValidatedItemView;

    open spec fn view(&self) -> ValidatedItemView {
        ValidatedItemView {
            description: self.description@,
            quantity: self.quantity as int,
            unit_price_cents: self.unit_price_cents as int,
            line_total_cents: self.line_total_cents as int,
        }
    }
}

/// What a list of validated items holds.
pub open spec fn item_views(items: Seq<ValidatedItem>) -> Seq<ValidatedItemView> {
    items.map_values(|item: ValidatedItem| item@)
}

impl View for ValidatedOrder {
    type V = ValidatedOrderView;

    open spec fn view(&self) -> ValidatedOrderView {
        ValidatedOrderView {
            customer: self.customer@,
            due_date: self.due_date,
            total_cents: self.total_cents as int,
            items: item_views(self.items@),
        }
    }
}

impl ValidatedItemView {
    /// What holds of every line item that has survived validation.
    pub open spec fn wf(self) -> bool {
        &&& 1 <= self.description.len() <= MAX_DESCRIPTION_LEN
        &&& self.description == text::trimmed(self.description)
        &&& 1 <= self.quantity <= i64::MAX
        &&& 0 <= self.unit_price_cents <= i64::MAX
        &&& self.line_total_cents == self.quantity * self.unit_price_cents
        &&& 0 <= self.line_total_cents <= i64::MAX
    }
}

impl ValidatedOrderView {
    /// What holds of every order that has survived validation.
    pub open spec fn wf(self) -> bool {
        &&& 1 <= self.customer.len() <= MAX_CUSTOMER_LEN
        &&& self.customer == text::trimmed(self.customer)
        &&& self.due_date.wf()
        &&& 1 <= self.items.len() <= MAX_ITEMS
        &&& forall|i: int| 0 <= i < self.items.len() ==> (#[trigger] self.items[i]).wf()
        &&& self.total_cents == sum_of_lines(self.items)
        &&& 0 <= self.total_cents <= i64::MAX
    }
}

// ---------------------------------------------------------------------------
// Arithmetic
// ---------------------------------------------------------------------------

/// The sum of the line totals.
pub open spec fn sum_of_lines(items: Seq<ValidatedItemView>) -> int
    decreases items.len(),
{
    if items.len() == 0 {
        0
    } else {
        sum_of_lines(items.drop_last()) + items.last().line_total_cents
    }
}

/// Whether the line totals can be added up, one after the other, without leaving
/// the range of an `i64`.
pub open spec fn sums_in_range(items: Seq<ValidatedItemView>) -> bool {
    forall|k: int| 0 <= k <= items.len() ==> cents::in_range(sum_of_lines(#[trigger] items.take(k)))
}

/// `quantity × unit price`, in cents.
pub fn calculate_line_total_cents(quantity: i64, unit_price_cents: i64) -> (r: AppResult<i64>)
    ensures
        match r {
            Ok(total) => total == quantity * unit_price_cents,
            Err(error) => error@ == AppErrorView::AmountOutOfRange && !cents::in_range(
                quantity * unit_price_cents,
            ),
        },
{
    match quantity.checked_mul(unit_price_cents) {
        Some(total) => Ok(total),
        None => Err(AppError::AmountOutOfRange),
    }
}

/// The sum of every line total, in cents.
pub fn calculate_order_total_cents(items: &[ValidatedItem]) -> (r: AppResult<i64>)
    ensures
        match r {
            Ok(total) => total == sum_of_lines(item_views(items@)) && sums_in_range(
                item_views(items@),
            ),
            Err(error) => error@ == AppErrorView::AmountOutOfRange && !sums_in_range(
                item_views(items@),
            ),
        },
{
    let ghost views = item_views(items@);
    let mut total: i64 = 0;
    let mut i: usize = 0;
    while i < items.len()
        invariant
            i <= items@.len(),
            views == item_views(items@),
            total == sum_of_lines(views.take(i as int)),
            forall|k: int| 0 <= k <= i ==> cents::in_range(sum_of_lines(#[trigger] views.take(k))),
        decreases items@.len() - i,
    {
        assert(views.take(i + 1).drop_last() =~= views.take(i as int));
        match total.checked_add(items[i].line_total_cents) {
            Some(next) => {
                total = next;
            },
            None => {
                assert(!cents::in_range(sum_of_lines(views.take(i + 1))));
                return Err(AppError::AmountOutOfRange);
            },
        }
        i = i + 1;
    }
    assert(views.take(views.len() as int) =~= views);
    Ok(total)
}

// ---------------------------------------------------------------------------
// One line item
// ---------------------------------------------------------------------------

/// One problem, as a list.
pub open spec fn problem(field: Seq<char>, message: Seq<char>) -> Seq<FieldErrorView> {
    seq![FieldErrorView { field, message }]
}

/// The path of a field of the line item at `index`.
pub open spec fn item_field(index: nat, name: Seq<char>) -> Seq<char> {
    "items["@ + text::decimal(index) + "]."@ + name
}

/// What is wrong with a description.
pub open spec fn description_problems(index: nat, description: Seq<char>) -> Seq<FieldErrorView> {
    let shown = text::trimmed(description);
    if shown.len() == 0 {
        problem(item_field(index, "description"@), "Describe this line item."@)
    } else if shown.len() > MAX_DESCRIPTION_LEN {
        problem(
            item_field(index, "description"@),
            "Keep the description under "@ + text::decimal(MAX_DESCRIPTION_LEN as nat)
                + " characters."@,
        )
    } else {
        Seq::empty()
    }
}

/// What is wrong with a field, given what its text means.
pub open spec fn meaning_problems<T>(field: Seq<char>, meaning: Result<T, Seq<char>>) -> Seq<
    FieldErrorView,
> {
    match meaning {
        Ok(_) => Seq::empty(),
        Err(message) => problem(field, message),
    }
}

/// What is wrong with a quantity and a price that are each acceptable.
pub open spec fn product_problems(index: nat, item: OrderItemInputView) -> Seq<FieldErrorView> {
    match (parse::quantity_meaning(item.quantity), parse::money_meaning(item.unit_price)) {
        (Ok(quantity), Ok(price)) => if cents::in_range(quantity * price) {
            Seq::empty()
        } else {
            problem(
                item_field(index, "unit_price"@),
                "That quantity and price multiply to more than this system can hold."@,
            )
        },
        _ => Seq::empty(),
    }
}

/// Everything that is wrong with the line item at `index`.
pub open spec fn item_problems(index: nat, item: OrderItemInputView) -> Seq<FieldErrorView> {
    description_problems(index, item.description) + meaning_problems(
        item_field(index, "quantity"@),
        parse::quantity_meaning(item.quantity),
    ) + meaning_problems(
        item_field(index, "unit_price"@),
        parse::money_meaning(item.unit_price),
    ) + product_problems(index, item)
}

/// What a line item amounts to once its numbers can be read and multiplied and
/// its description is not empty.
pub open spec fn item_meaning(item: OrderItemInputView) -> Option<ValidatedItemView> {
    match (parse::quantity_meaning(item.quantity), parse::money_meaning(item.unit_price)) {
        (Ok(quantity), Ok(price)) => if cents::in_range(quantity * price) && text::trimmed(
            item.description,
        ).len() > 0 {
            Some(
                ValidatedItemView {
                    description: text::trimmed(item.description),
                    quantity,
                    unit_price_cents: price,
                    line_total_cents: quantity * price,
                },
            )
        } else {
            None
        },
        _ => None,
    }
}

/// The path of a field of the line item at `index`.
pub fn item_field_name(index: usize, name: &str) -> (r: String)
    ensures
        r@ == item_field(index as nat, name@),
{
    let mut r = "items[".to_owned();
    r.append(text::decimal_text(index as u64).as_str());
    r.append("].");
    r.append(name);
    r
}

/// Adds one problem to a list.
pub(crate) fn complain(errors: &mut Vec<FieldError>, field: &str, message: &str)
    ensures
        error::field_views(final(errors)@) == error::field_views(old(errors)@) + problem(
            field@,
            message@,
        ),
{
    errors.push(FieldError::new(field, message));
    assert(error::field_views(errors@) =~= error::field_views(old(errors)@) + problem(
        field@,
        message@,
    ));
}

/// `before N characters.` with the limit filled in.
fn limit_message(before: &str, limit: usize, after: &str) -> (r: String)
    ensures
        r@ == before@ + text::decimal(limit as nat) + after@,
{
    let mut r = before.to_owned();
    r.append(text::decimal_text(limit as u64).as_str());
    r.append(after);
    r
}

/// Checks one line item, adding every problem under `items[N].<field>`.
///
/// An overflowing line has one row to blame, so it is a problem of that row
/// rather than of the whole order.
pub fn validate_item(index: usize, item: &OrderItemInput, errors: &mut Vec<FieldError>) -> (r: Option<
    ValidatedItem,
>)
    ensures
        error::field_views(final(errors)@) == error::field_views(old(errors)@) + item_problems(
            index as nat,
            item@,
        ),
        match r {
            Some(line) => item_meaning(item@) == Some(line@),
            None => item_meaning(item@) is None,
        },
{
    let ghost start = error::field_views(errors@);
    let description = text::trimmed_string(item.description.as_str());
    let length: usize = text::chars_of(description.as_str()).len();
    if length == 0 {
        complain(
            errors,
            item_field_name(index, "description").as_str(),
            "Describe this line item.",
        );
    } else if length > MAX_DESCRIPTION_LEN {
        complain(
            errors,
            item_field_name(index, "description").as_str(),
            limit_message(
                "Keep the description under ",
                MAX_DESCRIPTION_LEN,
                " characters.",
            ).as_str(),
        );
    }
    assert(error::field_views(errors@) =~= start + description_problems(
        index as nat,
        item.description@,
    ));
    let ghost described = error::field_views(errors@);
    let quantity = parse::parse_quantity(item.quantity.as_str());
    if let Err(message) = quantity {
        complain(errors, item_field_name(index, "quantity").as_str(), message);
    }
    assert(error::field_views(errors@) =~= described + meaning_problems(
        item_field(index as nat, "quantity"@),
        parse::quantity_meaning(item.quantity@),
    ));
    let ghost counted = error::field_views(errors@);
    let price = parse::parse_money_to_cents(item.unit_price.as_str());
    if let Err(message) = price {
        complain(errors, item_field_name(index, "unit_price").as_str(), message);
    }
    assert(error::field_views(errors@) =~= counted + meaning_problems(
        item_field(index as nat, "unit_price"@),
        parse::money_meaning(item.unit_price@),
    ));
    let ghost priced = error::field_views(errors@);
    assert(priced + Seq::<FieldErrorView>::empty() =~= priced);
    let (quantity, unit_price_cents): (i64, i64) = match (quantity, price) {
        (Ok(quantity), Ok(price)) => (quantity, price),
        _ => {
            assert(error::field_views(errors@) =~= start + item_problems(index as nat, item@));
            return None;
        },
    };
    match calculate_line_total_cents(quantity, unit_price_cents) {
        Ok(line_total_cents) => {
            assert(error::field_views(errors@) =~= start + item_problems(index as nat, item@));
            if length == 0 {
                None
            } else {
                Some(
                    ValidatedItem { description, quantity, unit_price_cents, line_total_cents },
                )
            }
        },
        Err(_) => {
            complain(
                errors,
                item_field_name(index, "unit_price").as_str(),
                "That quantity and price multiply to more than this system can hold.",
            );
            assert(error::field_views(errors@) =~= start + item_problems(index as nat, item@));
            None
        },
    }
}

// ---------------------------------------------------------------------------
// A whole order
// ---------------------------------------------------------------------------

/// What is wrong with a customer name.
pub open spec fn customer_problems(customer: Seq<char>) -> Seq<FieldErrorView> {
    let shown = text::trimmed(customer);
    if shown.len() == 0 {
        problem("customer"@, "Enter the customer's name."@)
    } else if shown.len() > MAX_CUSTOMER_LEN {
        problem(
            "customer"@,
            "Keep the customer name under "@ + text::decimal(MAX_CUSTOMER_LEN as nat)
                + " characters."@,
        )
    } else {
        Seq::empty()
    }
}

/// What is wrong with the number of line items.
pub open spec fn count_problems(count: nat) -> Seq<FieldErrorView> {
    if count == 0 {
        problem("items"@, "Add at least one line item."@)
    } else if count > MAX_ITEMS {
        problem(
            "items"@,
            "An order can hold at most "@ + text::decimal(MAX_ITEMS as nat) + " line items."@,
        )
    } else {
        Seq::empty()
    }
}

/// Everything that is wrong with the line items, first line first.
pub open spec fn lines_problems(items: Seq<OrderItemInputView>) -> Seq<FieldErrorView>
    decreases items.len(),
{
    if items.len() == 0 {
        Seq::empty()
    } else {
        lines_problems(items.drop_last()) + item_problems(
            (items.len() - 1) as nat,
            items.last(),
        )
    }
}

/// Everything that is wrong with an order whose date means `due_date`.
pub open spec fn order_problems(
    input: NewOrderInputView,
    due_date: Result<CalendarDate, Seq<char>>,
) -> Seq<FieldErrorView> {
    customer_problems(input.customer) + meaning_problems("due_date"@, due_date) + count_problems(
        input.items.len(),
    ) + lines_problems(input.items)
}

/// The line items that amount to something, in order.
pub open spec fn lines_meaning(items: Seq<OrderItemInputView>) -> Seq<ValidatedItemView>
    decreases items.len(),
{
    if items.len() == 0 {
        Seq::empty()
    } else {
        match item_meaning(items.last()) {
            Some(line) => lines_meaning(items.drop_last()).push(line),
            None => lines_meaning(items.drop_last()),
        }
    }
}

/// What a submitted order whose date means `due_date` amounts to: an order to
/// persist, every problem it has, or a total out of range.
pub open spec fn order_meaning(
    input: NewOrderInputView,
    due_date: Result<CalendarDate, Seq<char>>,
) -> Result<ValidatedOrderView, AppErrorView> {
    let problems = order_problems(input, due_date);
    let lines = lines_meaning(input.items);
    if problems.len() > 0 {
        Err(AppErrorView::ValidationFailed(problems))
    } else if !sums_in_range(lines) {
        Err(AppErrorView::AmountOutOfRange)
    } else {
        Ok(
            ValidatedOrderView {
                customer: text::trimmed(input.customer),
                due_date: due_date->Ok_0,
                total_cents: sum_of_lines(lines),
                items: lines,
            },
        )
    }
}

/// Checks every line item in turn.
fn validate_lines(items: &Vec<OrderItemInput>, errors: &mut Vec<FieldError>) -> (r: Vec<
    ValidatedItem,
>)
    ensures
        error::field_views(final(errors)@) == error::field_views(old(errors)@) + lines_problems(
            items@.map_values(|item: OrderItemInput| item@),
        ),
        item_views(r@) == lines_meaning(items@.map_values(|item: OrderItemInput| item@)),
{
    let ghost views = items@.map_values(|item: OrderItemInput| item@);
    let ghost start = error::field_views(errors@);
    let mut lines: Vec<ValidatedItem> = Vec::new();
    let mut i: usize = 0;
    assert(start + lines_problems(views.take(0)) =~= start);
    assert(item_views(lines@) =~= Seq::<ValidatedItemView>::empty());
    while i < items.len()
        invariant
            i <= items@.len(),
            views == items@.map_values(|item: OrderItemInput| item@),
            error::field_views(errors@) == start + lines_problems(views.take(i as int)),
            item_views(lines@) == lines_meaning(views.take(i as int)),
        decreases items@.len() - i,
    {
        let ghost kept = lines@;
        assert(views.take(i + 1).drop_last() =~= views.take(i as int));
        if let Some(line) = validate_item(i, &items[i], errors) {
            lines.push(line);
            assert(item_views(lines@) =~= item_views(kept).push(line@));
        }
        assert(error::field_views(errors@) =~= start + lines_problems(views.take(i + 1)));
        i = i + 1;
    }
    assert(views.take(views.len() as int) =~= views);
    lines
}

/// Checks a submitted order whose due date was judged already, and adds it up.
pub fn assemble_order(
    input: &NewOrderInput,
    due_date: Result<CalendarDate, &'static str>,
) -> (r: AppResult<ValidatedOrder>)
    ensures
        match due_date {
            Ok(date) => error::answers(r, order_meaning(input@, Ok(date))),
            Err(message) => error::answers(r, order_meaning(input@, Err(message@))),
        },
{
    let ghost date_meaning: Result<CalendarDate, Seq<char>> = match due_date {
        Ok(date) => Ok(date),
        Err(message) => Err(message@),
    };
    let mut errors: Vec<FieldError> = Vec::new();
    assert(error::field_views(errors@) =~= Seq::<FieldErrorView>::empty());
    let customer = text::trimmed_string(input.customer.as_str());
    let length: usize = text::chars_of(customer.as_str()).len();
    if length == 0 {
        complain(&mut errors, "customer", "Enter the customer's name.");
    } else if length > MAX_CUSTOMER_LEN {
        complain(
            &mut errors,
            "customer",
            limit_message(
                "Keep the customer name under ",
                MAX_CUSTOMER_LEN,
                " characters.",
            ).as_str(),
        );
    }
    assert(error::field_views(errors@) =~= customer_problems(input.customer@));
    if let Err(message) = due_date {
        complain(&mut errors, "due_date", message);
    }
    assert(error::field_views(errors@) =~= customer_problems(input.customer@) + meaning_problems(
        "due_date"@,
        date_meaning,
    ));
    if input.items.len() == 0 {
        complain(&mut errors, "items", "Add at least one line item.");
    } else if input.items.len() > MAX_ITEMS {
        complain(
            &mut errors,
            "items",
            limit_message("An order can hold at most ", MAX_ITEMS, " line items.").as_str(),
        );
    }
    assert(error::field_views(errors@) =~= customer_problems(input.customer@) + meaning_problems(
        "due_date"@,
        date_meaning,
    ) + count_problems(input@.items.len()));
    let items = validate_lines(&input.items, &mut errors);
    assert(error::field_views(errors@) =~= order_problems(input@, date_meaning));
    match due_date {
        Ok(due_date) if errors.len() == 0 => {
            match calculate_order_total_cents(items.as_slice()) {
                Ok(total_cents) => Ok(ValidatedOrder { customer, due_date, total_cents, items }),
                Err(error) => Err(error),
            }
        },
        _ => Err(AppError::ValidationFailed(errors)),
    }
}

/// Checks a submitted order and computes its totals.
///
/// Every problem is collected before an answer is given. Nothing that the
/// browser computed is used: the texts are read again here.
pub fn validate_create_order(input: &NewOrderInput) -> (r: AppResult<ValidatedOrder>)
    ensures
        error::answers(
            r,
            order_meaning(
                input@,
                parse::due_date_meaning(input@.due_date, parse::found_date(input@.due_date)),
            ),
        ),
        r matches Ok(order) ==> order@.wf(),
        forall|date: CalendarDate|
            date.wf() && text::trimmed(input@.due_date) == #[trigger] date.text() ==> error::answers(
                r,
                order_meaning(input@, Ok(date)),
            ),
{
    let due_date = parse::parse_due_date(input.due_date.as_str());
    proof {
        if let Ok(date) = due_date {
            lemma_accepted_order(input@, Ok(date));
        }
    }
    assemble_order(input, due_date)
}

// ---------------------------------------------------------------------------
// What acceptance means
// ---------------------------------------------------------------------------

/// Line items without problems all amount to something, each to a sound line.
pub proof fn lemma_clean_lines(items: Seq<OrderItemInputView>)
    requires
        lines_problems(items).len() == 0,
    ensures
        lines_meaning(items).len() == items.len(),
        forall|i: int|
            0 <= i < items.len() ==> item_meaning(items[i]) == Some(
                #[trigger] lines_meaning(items)[i],
            ) && lines_meaning(items)[i].wf(),
    decreases items.len(),
{
    if items.len() > 0 {
        lemma_clean_lines(items.drop_last());
        lemma_clean_item((items.len() - 1) as nat, items.last());
    }
}

/// A line item without problems amounts to a sound line.
proof fn lemma_clean_item(index: nat, item: OrderItemInputView)
    requires
        item_problems(index, item).len() == 0,
    ensures
        item_meaning(item) matches Some(line) && line.wf(),
{
    assert(description_problems(index, item.description).len() == 0);
    assert(meaning_problems(
        item_field(index, "quantity"@),
        parse::quantity_meaning(item.quantity),
    ).len() == 0);
    assert(meaning_problems(
        item_field(index, "unit_price"@),
        parse::money_meaning(item.unit_price),
    ).len() == 0);
    assert(product_problems(index, item).len() == 0);
    text::lemma_trimmed_twice(item.description);
    let quantity = parse::quantity_meaning(item.quantity)->Ok_0;
    let price = parse::money_meaning(item.unit_price)->Ok_0;
    assert(0 <= quantity * price) by (nonlinear_arith)
        requires
            0 <= quantity,
            0 <= price,
    ;
}

/// The sum of sound lines is not negative, and grows with every line.
pub proof fn lemma_sum_grows(items: Seq<ValidatedItemView>, k: int)
    requires
        forall|i: int| 0 <= i < items.len() ==> (#[trigger] items[i]).wf(),
        0 <= k <= items.len(),
    ensures
        0 <= sum_of_lines(items.take(k)) <= sum_of_lines(items),
    decreases items.len(),
{
    if items.len() > 0 {
        assert(items.last().wf());
        if k == items.len() {
            assert(items.take(k) =~= items);
            lemma_sum_grows(items.drop_last(), k - 1);
        } else {
            lemma_sum_grows(items.drop_last(), k);
            assert(items.drop_last().take(k) =~= items.take(k));
        }
    }
}

/// An accepted order is sound.
pub proof fn lemma_accepted_order(
    input: NewOrderInputView,
    due_date: Result<CalendarDate, Seq<char>>,
)
    requires
        due_date matches Ok(date) ==> date.wf(),
    ensures
        order_meaning(input, due_date) matches Ok(order) ==> order.wf(),
{
    if let Ok(order) = order_meaning(input, due_date) {
        assert(customer_problems(input.customer).len() == 0);
        assert(meaning_problems("due_date"@, due_date).len() == 0);
        assert(count_problems(input.items.len()).len() == 0);
        assert(lines_problems(input.items).len() == 0);
        lemma_clean_lines(input.items);
        text::lemma_trimmed_twice(input.customer);
        lemma_sum_grows(order.items, order.items.len() as int);
        assert(order.items.take(order.items.len() as int) =~= order.items);
    }
}

} // verus!
