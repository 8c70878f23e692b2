//! What holds of validation as a whole.

use vstd::prelude::*;

use crate::cents;
use crate::date;
use crate::date::CalendarDate;
use crate::error::{AppErrorView, FieldErrorView};
use crate::orders::parse;
use crate::orders::validate;
use crate::orders::validate::{
    NewOrderInputView, OrderItemInputView, ValidatedItemView, ValidatedOrderView,
};
use crate::text;

verus! {

// ---------------------------------------------------------------------------
// Every problem at once
// ---------------------------------------------------------------------------

/// Whether every problem in `some` is also in `all`.
pub open spec fn includes(all: Seq<FieldErrorView>, some: Seq<FieldErrorView>) -> bool {
    forall|k: int| 0 <= k < some.len() ==> all.contains(#[trigger] some[k])
}

proof fn lemma_line_is_included(items: Seq<OrderItemInputView>, i: int)
    requires
        0 <= i < items.len(),
    ensures
        includes(validate::lines_problems(items), validate::item_problems(i as nat, items[i])),
    decreases items.len(),
{
    let all = validate::lines_problems(items);
    let last = validate::item_problems((items.len() - 1) as nat, items.last());
    let rest = validate::lines_problems(items.drop_last());
    if i == items.len() - 1 {
        assert forall|k: int| 0 <= k < last.len() implies all.contains(#[trigger] last[k]) by {
            assert(all[rest.len() + k] == last[k]);
        }
    } else {
        lemma_line_is_included(items.drop_last(), i);
        let own = validate::item_problems(i as nat, items[i]);
        assert forall|k: int| 0 <= k < own.len() implies all.contains(#[trigger] own[k]) by {
            let at = choose|at: int| 0 <= at < rest.len() && rest[at] == own[k];
            assert(all[at] == own[k]);
        }
    }
}

/// A refused order names every problem at once: those of the customer, of the
/// date, of the number of lines, and of every single line.
pub proof fn law_every_problem_is_reported(
    input: NewOrderInputView,
    due_date: Result<CalendarDate, Seq<char>>,
    i: int,
)
    requires
        0 <= i < input.items.len(),
    ensures
        ({
            let all = validate::order_problems(input, due_date);
            &&& includes(all, validate::customer_problems(input.customer))
            &&& includes(all, validate::meaning_problems("due_date"@, due_date))
            &&& includes(all, validate::count_problems(input.items.len()))
            &&& includes(all, validate::item_problems(i as nat, input.items[i]))
            &&& all.len() > 0 ==> validate::order_meaning(input, due_date) == Err::<
                ValidatedOrderView,
                AppErrorView,
            >(AppErrorView::ValidationFailed(all))
        }),
{
    let all = validate::order_problems(input, due_date);
    let a = validate::customer_problems(input.customer);
    let b = validate::meaning_problems("due_date"@, due_date);
    let c = validate::count_problems(input.items.len());
    let d = validate::lines_problems(input.items);
    assert forall|k: int| 0 <= k < a.len() implies all.contains(#[trigger] a[k]) by {
        assert(all[k] == a[k]);
    }
    assert forall|k: int| 0 <= k < b.len() implies all.contains(#[trigger] b[k]) by {
        assert(all[a.len() + k] == b[k]);
    }
    assert forall|k: int| 0 <= k < c.len() implies all.contains(#[trigger] c[k]) by {
        assert(all[a.len() + b.len() + k] == c[k]);
    }
    lemma_line_is_included(input.items, i);
    let own = validate::item_problems(i as nat, input.items[i]);
    assert forall|k: int| 0 <= k < own.len() implies all.contains(#[trigger] own[k]) by {
        let at = choose|at: int| 0 <= at < d.len() && d[at] == own[k];
        assert(all[a.len() + b.len() + c.len() + at] == own[k]);
    }
}

/// An order without problems is refused only when its total does not fit, and
/// accepted otherwise.
pub proof fn law_only_the_total_can_be_out_of_range(
    input: NewOrderInputView,
    due_date: Result<CalendarDate, Seq<char>>,
)
    requires
        validate::order_problems(input, due_date).len() == 0,
    ensures
        validate::order_meaning(input, due_date) is Ok <==> validate::sum_of_lines(
            validate::lines_meaning(input.items),
        ) <= i64::MAX,
        validate::order_meaning(input, due_date) matches Err(error) ==> error
            == AppErrorView::AmountOutOfRange,
{
    let lines = validate::lines_meaning(input.items);
    assert(validate::lines_problems(input.items).len() == 0);
    validate::lemma_clean_lines(input.items);
    assert forall|k: int| 0 <= k <= lines.len() implies 0 <= validate::sum_of_lines(
        #[trigger] lines.take(k),
    ) <= validate::sum_of_lines(lines) by {
        validate::lemma_sum_grows(lines, k);
    }
    assert(lines.take(lines.len() as int) =~= lines);
}

// ---------------------------------------------------------------------------
// White space
// ---------------------------------------------------------------------------

/// A line item with the white space around its texts taken away.
pub open spec fn trimmed_item(item: OrderItemInputView) -> OrderItemInputView {
    OrderItemInputView {
        description: text::trimmed(item.description),
        quantity: text::trimmed(item.quantity),
        unit_price: text::trimmed(item.unit_price),
    }
}

/// An order with the white space around its texts taken away.
pub open spec fn trimmed_order(input: NewOrderInputView) -> NewOrderInputView {
    NewOrderInputView {
        customer: text::trimmed(input.customer),
        due_date: text::trimmed(input.due_date),
        items: input.items.map_values(|item: OrderItemInputView| trimmed_item(item)),
    }
}

/// White space around an amount, a quantity or a date means nothing.
pub proof fn law_padding_means_nothing(raw: Seq<char>, found: Option<(i32, u32, u32)>)
    ensures
        parse::money_meaning(text::trimmed(raw)) == parse::money_meaning(raw),
        parse::quantity_meaning(text::trimmed(raw)) == parse::quantity_meaning(raw),
        parse::found_date(text::trimmed(raw)) == parse::found_date(raw),
        parse::due_date_meaning(text::trimmed(raw), found) == parse::due_date_meaning(raw, found),
{
    text::lemma_trimmed_twice(raw);
}

proof fn lemma_padded_lines(items: Seq<OrderItemInputView>)
    ensures
        ({
            let plain = items.map_values(|item: OrderItemInputView| trimmed_item(item));
            &&& validate::lines_problems(plain) == validate::lines_problems(items)
            &&& validate::lines_meaning(plain) == validate::lines_meaning(items)
        }),
    decreases items.len(),
{
    let plain = items.map_values(|item: OrderItemInputView| trimmed_item(item));
    if items.len() > 0 {
        lemma_padded_lines(items.drop_last());
        assert(plain.drop_last() =~= items.drop_last().map_values(
            |item: OrderItemInputView| trimmed_item(item),
        ));
        let last = items.last();
        assert(plain.last() == trimmed_item(last));
        text::lemma_trimmed_twice(last.description);
        law_padding_means_nothing(last.quantity, None);
        law_padding_means_nothing(last.unit_price, None);
    }
}

/// White space around any text of an order changes nothing about the answer.
pub proof fn law_padding_changes_no_answer(
    input: NewOrderInputView,
    due_date: Result<CalendarDate, Seq<char>>,
)
    ensures
        validate::order_meaning(trimmed_order(input), due_date) == validate::order_meaning(
            input,
            due_date,
        ),
{
    text::lemma_trimmed_twice(input.customer);
    lemma_padded_lines(input.items);
}

// ---------------------------------------------------------------------------
// Prefilling
// ---------------------------------------------------------------------------

/// A line item as the edit form is prefilled with it.
pub open spec fn prefilled_item(item: ValidatedItemView) -> OrderItemInputView {
    OrderItemInputView {
        description: item.description,
        quantity: text::signed_decimal(item.quantity),
        unit_price: parse::plain_money_text(item.unit_price_cents),
    }
}

/// An order as the edit form is prefilled with it.
pub open spec fn prefilled_order(order: ValidatedOrderView) -> NewOrderInputView {
    NewOrderInputView {
        customer: order.customer,
        due_date: order.due_date.text(),
        items: order.items.map_values(|item: ValidatedItemView| prefilled_item(item)),
    }
}

/// A quantity in decimal reads back as that quantity.
pub proof fn law_quantity_reads_back(quantity: int)
    requires
        1 <= quantity <= i64::MAX,
    ensures
        parse::quantity_meaning(text::signed_decimal(quantity)) == Ok::<int, Seq<char>>(quantity),
{
    let shown = text::decimal(quantity as nat);
    text::lemma_decimal(quantity as nat);
    assert(text::is_digit(shown[0]) && text::is_digit(shown.last()));
    text::lemma_nothing_to_trim(shown);
    assert forall|i: int| 0 <= i < shown.len() implies shown[i] != ',' by {
        assert(text::is_digit(shown[i]));
    }
    text::lemma_without_absent(shown, ',');
}

proof fn lemma_prefilled_lines(items: Seq<ValidatedItemView>)
    requires
        forall|i: int| 0 <= i < items.len() ==> (#[trigger] items[i]).wf(),
    ensures
        ({
            let form = items.map_values(|item: ValidatedItemView| prefilled_item(item));
            &&& validate::lines_problems(form).len() == 0
            &&& validate::lines_meaning(form) == items
        }),
    decreases items.len(),
{
    let form = items.map_values(|item: ValidatedItemView| prefilled_item(item));
    if items.len() > 0 {
        let last = items.last();
        assert(last.wf());
        lemma_prefilled_lines(items.drop_last());
        assert(form.drop_last() =~= items.drop_last().map_values(
            |item: ValidatedItemView| prefilled_item(item),
        ));
        assert(form.last() == prefilled_item(last));
        law_quantity_reads_back(last.quantity);
        parse::law_input_amount_reads_back(last.unit_price_cents);
        assert(items.drop_last().push(last) =~= items);
    } else {
        assert(validate::lines_meaning(form) =~= items);
    }
}

/// There is no white space around a date.
proof fn lemma_date_has_no_padding(date: CalendarDate)
    requires
        date.wf(),
    ensures
        text::trimmed(date.text()) == date.text(),
{
    let shown = date.text();
    let year = date::year_text(date.year as int);
    text::lemma_decimal((if date.year < 0 { -date.year } else { date.year as int }) as nat);
    assert(year.len() > 0);
    assert(year[0] == '-' || year[0] == '+' || text::is_digit(year[0]));
    assert(shown[0] == year[0]);
    assert(shown.last() == text::two_digits(date.day as nat)[1]);
    text::lemma_nothing_to_trim(shown);
}

/// A sound order, prefilled into the edit form and submitted unchanged, is
/// accepted as exactly the order it was. Its date is submitted in the form that
/// reads back.
pub proof fn law_unchanged_edit_keeps_the_order(order: ValidatedOrderView)
    requires
        order.wf(),
    ensures
        text::trimmed(prefilled_order(order).due_date) == order.due_date.text(),
        validate::order_meaning(prefilled_order(order), Ok(order.due_date)) == Ok::<
            ValidatedOrderView,
            AppErrorView,
        >(order),
{
    lemma_date_has_no_padding(order.due_date);
    lemma_prefilled_lines(order.items);
    assert forall|k: int| 0 <= k <= order.items.len() implies cents::in_range(
        validate::sum_of_lines(#[trigger] order.items.take(k)),
    ) by {
        validate::lemma_sum_grows(order.items, k);
    }
}

// ---------------------------------------------------------------------------
// What an accepted order says
// ---------------------------------------------------------------------------

/// The total of some lines is that of the first ones and that of the rest together,
/// and that of one line is what the line amounts to.
pub proof fn law_totals_add_up(a: Seq<ValidatedItemView>, b: Seq<ValidatedItemView>)
    ensures
        validate::sum_of_lines(a + b) == validate::sum_of_lines(a) + validate::sum_of_lines(b),
        b.len() == 1 ==> validate::sum_of_lines(b) == b[0].line_total_cents,
        b.len() == 0 ==> validate::sum_of_lines(b) == 0,
    decreases b.len(),
{
    if b.len() == 0 {
        assert(a + b =~= a);
    } else {
        law_totals_add_up(a, b.drop_last());
        assert((a + b).drop_last() =~= a + b.drop_last());
        assert((a + b).last() == b.last());
        if b.len() == 1 {
            assert(b.drop_last().len() == 0);
        }
    }
}

/// An accepted order says what was submitted: the customer without the white space
/// around the name, the date that was read, and every line in its place with the
/// description, the quantity and the price that were typed. Each line amounts to
/// its quantity times its price, and the order to all of its lines.
pub proof fn law_accepted_order_is_the_submitted_one(
    input: NewOrderInputView,
    due_date: Result<CalendarDate, Seq<char>>,
    i: int,
)
    requires
        0 <= i < input.items.len(),
    ensures
        validate::order_meaning(input, due_date) matches Ok(order) ==> {
            let line = order.items[i];
            &&& order.customer == text::trimmed(input.customer)
            &&& due_date == Ok::<CalendarDate, Seq<char>>(order.due_date)
            &&& order.items.len() == input.items.len()
            &&& line.description == text::trimmed(input.items[i].description)
            &&& parse::quantity_meaning(input.items[i].quantity) == Ok::<int, Seq<char>>(
                line.quantity,
            )
            &&& parse::money_meaning(input.items[i].unit_price) == Ok::<int, Seq<char>>(
                line.unit_price_cents,
            )
            &&& line.line_total_cents == line.quantity * line.unit_price_cents
            &&& order.total_cents == validate::sum_of_lines(order.items)
        },
{
    if let Ok(order) = validate::order_meaning(input, due_date) {
        assert(validate::meaning_problems("due_date"@, due_date).len() == 0);
        assert(validate::lines_problems(input.items).len() == 0);
        validate::lemma_clean_lines(input.items);
        assert(validate::item_meaning(input.items[i]) == Some(order.items[i]));
    }
}

/// Whether a line can be accepted: a description of at most 500 characters, a
/// quantity, a price, and a product that can be held.
pub open spec fn acceptable_line(item: OrderItemInputView) -> bool {
    &&& 1 <= text::trimmed(item.description).len() <= 500
    &&& parse::quantity_meaning(item.quantity) is Ok
    &&& parse::money_meaning(item.unit_price) is Ok
    &&& parse::quantity_meaning(item.quantity)->Ok_0 * parse::money_meaning(
        item.unit_price,
    )->Ok_0 <= i64::MAX
}

/// An order is accepted exactly if it has a customer of at most 200 characters, a
/// date, from one to a hundred lines that can each be accepted, and a total that
/// can be held.
pub proof fn law_which_orders_are_accepted(
    input: NewOrderInputView,
    due_date: Result<CalendarDate, Seq<char>>,
)
    ensures
        validate::order_meaning(input, due_date) is Ok <==> {
            &&& 1 <= text::trimmed(input.customer).len() <= 200
            &&& due_date is Ok
            &&& 1 <= input.items.len() <= 100
            &&& forall|i: int|
                0 <= i < input.items.len() ==> acceptable_line(#[trigger] input.items[i])
            &&& validate::sum_of_lines(validate::lines_meaning(input.items)) <= i64::MAX
        },
{
    let problems = validate::order_problems(input, due_date);
    let a = validate::customer_problems(input.customer);
    let b = validate::meaning_problems("due_date"@, due_date);
    let c = validate::count_problems(input.items.len());
    let d = validate::lines_problems(input.items);
    assert(problems.len() == a.len() + b.len() + c.len() + d.len());
    lemma_acceptable_lines(input.items);
    if problems.len() == 0 {
        law_only_the_total_can_be_out_of_range(input, due_date);
    }
}

proof fn lemma_acceptable_lines(items: Seq<OrderItemInputView>)
    ensures
        validate::lines_problems(items).len() == 0 <==> forall|i: int|
            0 <= i < items.len() ==> acceptable_line(#[trigger] items[i]),
    decreases items.len(),
{
    if items.len() > 0 {
        let front = items.drop_last();
        lemma_acceptable_lines(front);
        lemma_acceptable_line((items.len() - 1) as nat, items.last());
        assert(items.last() == items[items.len() - 1]);
        assert(forall|i: int| 0 <= i < front.len() ==> #[trigger] front[i] == items[i]);
        if forall|i: int| 0 <= i < front.len() ==> acceptable_line(#[trigger] front[i]) {
            assert forall|i: int| 0 <= i < items.len() - 1 implies acceptable_line(
                #[trigger] items[i],
            ) by {
                assert(acceptable_line(front[i]));
            }
        } else {
            let i = choose|i: int| 0 <= i < front.len() && !acceptable_line(#[trigger] front[i]);
            assert(!acceptable_line(items[i]));
        }
    }
}

proof fn lemma_acceptable_line(index: nat, item: OrderItemInputView)
    ensures
        validate::item_problems(index, item).len() == 0 <==> acceptable_line(item),
{
    if let (Ok(quantity), Ok(price)) = (
        parse::quantity_meaning(item.quantity),
        parse::money_meaning(item.unit_price),
    ) {
        assert(0 <= quantity * price) by (nonlinear_arith)
            requires
                0 <= quantity,
                0 <= price,
        ;
    }
}

/// A path tells lines and fields apart: no two lines share one, and no two of the
/// three fields of a line.
pub proof fn law_paths_tell_lines_apart(i: nat, j: nat, name: Seq<char>, other: Seq<char>)
    requires
        name == "description"@ || name == "quantity"@ || name == "unit_price"@,
        other == "description"@ || other == "quantity"@ || other == "unit_price"@,
    ensures
        validate::item_field(i, name) == validate::item_field(j, other) <==> i == j && name
            == other,
{
    reveal_strlit("items[");
    reveal_strlit("].");
    let a = text::decimal(i);
    let b = text::decimal(j);
    let open = "items["@.len() as int;
    text::lemma_decimal(i);
    text::lemma_decimal(j);
    if validate::item_field(i, name) == validate::item_field(j, other) {
        let path = validate::item_field(i, name);
        // The number ends at the first bracket after it.
        let rest = path.skip(open);
        assert(rest =~= a + seq![']'] + (seq!['.'] + name));
        assert(rest =~= b + seq![']'] + (seq!['.'] + other));
        assert forall|k: int| 0 <= k < a.len() implies a[k] != ']' by {
            assert(text::is_digit(a[k]));
        }
        assert forall|k: int| 0 <= k < b.len() implies b[k] != ']' by {
            assert(text::is_digit(b[k]));
        }
        text::lemma_split_at(a, ']', seq!['.'] + name);
        text::lemma_split_at(b, ']', seq!['.'] + other);
        assert((seq!['.'] + name).skip(1) =~= name);
        assert((seq!['.'] + other).skip(1) =~= other);
    }
}

/// Whether a list of problems names a field.
pub open spec fn names_field(problems: Seq<FieldErrorView>, field: Seq<char>) -> bool {
    exists|k: int| 0 <= k < problems.len() && (#[trigger] problems[k]).field == field
}

/// The problems of a line name its description exactly if it is missing or too long,
/// its quantity exactly if it is none, and its price exactly if it is none or the
/// two multiply to more than can be held. What is wrong with a quantity or a price
/// is said in the words about it.
pub proof fn law_line_problems_name_the_field(index: nat, item: OrderItemInputView)
    ensures
        ({
            let problems = validate::item_problems(index, item);
            let shown = text::trimmed(item.description).len();
            let quantity = parse::quantity_meaning(item.quantity);
            let price = parse::money_meaning(item.unit_price);
            &&& names_field(problems, validate::item_field(index, "description"@)) <==> shown == 0
                || shown > 500
            &&& names_field(problems, validate::item_field(index, "quantity"@)) <==> quantity is Err
            &&& names_field(problems, validate::item_field(index, "unit_price"@)) <==> price is Err
                || quantity is Ok && quantity->Ok_0 * price->Ok_0 > i64::MAX
            &&& quantity matches Err(message) ==> problems.contains(
                FieldErrorView { field: validate::item_field(index, "quantity"@), message },
            )
            &&& price matches Err(message) ==> problems.contains(
                FieldErrorView { field: validate::item_field(index, "unit_price"@), message },
            )
        }),
{
    reveal_strlit("description");
    reveal_strlit("quantity");
    reveal_strlit("unit_price");
    assert("description"@.len() == 11 && "quantity"@.len() == 8 && "unit_price"@.len() == 10);
    law_paths_tell_lines_apart(index, index, "description"@, "quantity"@);
    law_paths_tell_lines_apart(index, index, "description"@, "unit_price"@);
    law_paths_tell_lines_apart(index, index, "quantity"@, "unit_price"@);
    let a = validate::description_problems(index, item.description);
    let b = validate::meaning_problems(
        validate::item_field(index, "quantity"@),
        parse::quantity_meaning(item.quantity),
    );
    let c = validate::meaning_problems(
        validate::item_field(index, "unit_price"@),
        parse::money_meaning(item.unit_price),
    );
    let d = validate::product_problems(index, item);
    let problems = validate::item_problems(index, item);
    lemma_acceptable_line(index, item);
    assert(problems =~= a + b + c + d);
    assert(forall|k: int|
        0 <= k < a.len() ==> (#[trigger] problems[k]).field == validate::item_field(
            index,
            "description"@,
        ));
    assert(forall|k: int|
        a.len() <= k < a.len() + b.len() ==> (#[trigger] problems[k]).field == validate::item_field(
            index,
            "quantity"@,
        ));
    assert(forall|k: int|
        a.len() + b.len() <= k < problems.len() ==> (#[trigger] problems[k]).field
            == validate::item_field(index, "unit_price"@));
    if a.len() > 0 {
        assert(problems[0] == a[0]);
    }
    if b.len() > 0 {
        assert(problems[a.len() as int] == b[0]);
        assert(problems.contains(b[0]));
    }
    if c.len() > 0 {
        assert(problems[(a.len() + b.len()) as int] == c[0]);
        assert(problems.contains(c[0]));
    }
    if d.len() > 0 {
        assert(problems[(a.len() + b.len() + c.len()) as int] == d[0]);
    }
    if let (Ok(quantity), Ok(price)) = (
        parse::quantity_meaning(item.quantity),
        parse::money_meaning(item.unit_price),
    ) {
        assert(0 <= quantity * price) by (nonlinear_arith)
            requires
                0 <= quantity,
                0 <= price,
        ;
    }
}

// ---------------------------------------------------------------------------
// Texts and numbers as they are held
// ---------------------------------------------------------------------------

/// What is said of a submitted order is said of the texts it holds.
pub proof fn law_submitted_texts(input: validate::NewOrderInput)
    ensures
        input@.customer == input.customer@,
        input@.due_date == input.due_date@,
        input@.items.len() == input.items@.len(),
        forall|i: int|
            0 <= i < input.items@.len() ==> (#[trigger] input@.items[i]).description
                == input.items@[i].description@ && input@.items[i].quantity
                == input.items@[i].quantity@ && input@.items[i].unit_price
                == input.items@[i].unit_price@,
{
}

/// What is said of a validated order is said of the values it holds.
pub proof fn law_validated_values(order: validate::ValidatedOrder)
    ensures
        order@.customer == order.customer@,
        order@.due_date == order.due_date,
        order@.total_cents == order.total_cents,
        order@.items.len() == order.items@.len(),
        forall|i: int|
            0 <= i < order.items@.len() ==> (#[trigger] order@.items[i]).description
                == order.items@[i].description@ && order@.items[i].quantity
                == order.items@[i].quantity && order@.items[i].unit_price_cents
                == order.items@[i].unit_price_cents && order@.items[i].line_total_cents
                == order.items@[i].line_total_cents,
{
}

/// The problems of an order name the customer exactly if the name is missing or too
/// long, the date exactly if it is none, and the lines as a whole exactly if there are
/// none or too many.
pub proof fn law_order_problems_name_the_field(
    input: NewOrderInputView,
    due_date: Result<CalendarDate, Seq<char>>,
)
    ensures
        ({
            let problems = validate::order_problems(input, due_date);
            let shown = text::trimmed(input.customer).len();
            &&& names_field(problems, "customer"@) <==> shown == 0 || shown > 200
            &&& names_field(problems, "due_date"@) <==> due_date is Err
            &&& names_field(problems, "items"@) <==> input.items.len() == 0 || input.items.len()
                > 100
            &&& due_date matches Err(message) ==> problems.contains(
                FieldErrorView { field: "due_date"@, message },
            )
        }),
{
    reveal_strlit("customer");
    reveal_strlit("due_date");
    reveal_strlit("items");
    assert("customer"@.len() == 8 && "due_date"@.len() == 8 && "items"@.len() == 5);
    assert("customer"@[0] == 'c' && "due_date"@[0] == 'd');
    let a = validate::customer_problems(input.customer);
    let b = validate::meaning_problems("due_date"@, due_date);
    let c = validate::count_problems(input.items.len());
    let d = validate::lines_problems(input.items);
    let problems = validate::order_problems(input, due_date);
    assert(problems =~= a + b + c + d);
    lemma_line_fields(input.items);
    assert(forall|k: int| 0 <= k < a.len() ==> (#[trigger] problems[k]).field == "customer"@);
    assert(forall|k: int|
        a.len() <= k < a.len() + b.len() ==> (#[trigger] problems[k]).field == "due_date"@);
    assert(forall|k: int|
        a.len() + b.len() <= k < a.len() + b.len() + c.len() ==> (#[trigger] problems[k]).field
            == "items"@);
    assert forall|k: int| a.len() + b.len() + c.len() <= k < problems.len() implies {
        &&& (#[trigger] problems[k]).field != "customer"@
        &&& problems[k].field != "due_date"@
        &&& problems[k].field != "items"@
    } by {
        assert(problems[k] == d[k - a.len() - b.len() - c.len()]);
    }
    if a.len() > 0 {
        assert(problems[0] == a[0]);
    }
    if b.len() > 0 {
        assert(problems[a.len() as int] == b[0]);
        assert(problems.contains(b[0]));
    }
    if c.len() > 0 {
        assert(problems[(a.len() + b.len()) as int] == c[0]);
    }
}

/// The problems of the lines name fields of lines.
proof fn lemma_line_fields(items: Seq<OrderItemInputView>)
    ensures
        forall|k: int|
            0 <= k < validate::lines_problems(items).len() ==> (
            #[trigger] validate::lines_problems(items)[k]).field.len() > 5
                && validate::lines_problems(items)[k].field[0] == 'i',
    decreases items.len(),
{
    if items.len() > 0 {
        let index = (items.len() - 1) as nat;
        let rest = validate::lines_problems(items.drop_last());
        let own = validate::item_problems(index, items.last());
        let all = validate::lines_problems(items);
        lemma_line_fields(items.drop_last());
        reveal_strlit("items[");
        assert("items["@.len() == 6 && "items["@[0] == 'i');
        assert forall|k: int| 0 <= k < own.len() implies (#[trigger] own[k]).field.len() > 5
            && own[k].field[0] == 'i' by {}
        assert forall|k: int| 0 <= k < all.len() implies (#[trigger] all[k]).field.len() > 5
            && all[k].field[0] == 'i' by {
            if k < rest.len() {
                assert(all[k] == rest[k]);
            } else {
                assert(all[k] == own[k - rest.len()]);
            }
        }
    }
}

} // verus!
