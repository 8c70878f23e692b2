//! The order form, for a new order or an existing one.
//!
//! The running total is computed by the parsers that judge a submitted order, so
//! it is a preview of that answer rather than a second opinion. It is never
//! submitted.

use vstd::prelude::*;

use crate::cents;
use crate::date::CalendarDate;
use crate::error;
use crate::error::{AppError, AppResult};
use crate::ids;
use crate::orders::laws;
use crate::orders::parse;
use crate::orders::read::{OrderDetail, OrderLine};
use crate::orders::validate;
use crate::orders::validate::{
    NewOrderInput, NewOrderInputView, OrderItemInput, OrderItemInputView, ValidatedItemView,
    ValidatedOrderView,
};
use crate::text;

verus! {

// ---------------------------------------------------------------------------
// Rows
// ---------------------------------------------------------------------------

/// One editable row. `key` comes from a counter and is never the row's position,
/// so that removing one row does not look like a change to all the others.
#[derive(Debug, Clone, PartialEq, Eq)]
pub struct EditorRow {
    pub key: usize,
    pub description: String,
    pub quantity: String,
    pub unit_price: String,
}

impl EditorRow {
    /// What the row says, as part of an order.
    pub open spec fn input(self) -> OrderItemInputView {
        OrderItemInputView {
            description: self.description@,
            quantity: self.quantity@,
            unit_price: self.unit_price@,
        }
    }

    /// An empty row, for one of something.
    pub fn new(key: usize) -> (r: Self)
        ensures
            r.key == key,
            r.description@ == Seq::<char>::empty(),
            r.quantity@ == "1"@,
            r.unit_price@ == Seq::<char>::empty(),
    {
        EditorRow {
            key,
            description: String::new(),
            quantity: "1".to_owned(),
            unit_price: String::new(),
        }
    }

    /// A row prefilled from a stored line item.
    pub fn from_line(key: usize, line: &OrderLine) -> (r: Self)
        ensures
            r.key == key,
            r.input() == laws::prefilled_item(line@),
    {
        EditorRow {
            key,
            description: line.description.clone(),
            quantity: text::signed_decimal_text(line.quantity),
            unit_price: parse::format_cents_for_input(line.unit_price_cents),
        }
    }

    /// The row as it is submitted.
    pub fn to_input(&self) -> (r: OrderItemInput)
        ensures
            r@ == self.input(),
    {
        OrderItemInput {
            description: self.description.clone(),
            quantity: self.quantity.clone(),
            unit_price: self.unit_price.clone(),
        }
    }
}

/// What a row amounts to in cents, if its numbers can be read and multiplied.
pub open spec fn row_total(row: OrderItemInputView) -> Option<int> {
    match (parse::quantity_meaning(row.quantity), parse::money_meaning(row.unit_price)) {
        (Ok(quantity), Ok(price)) => if cents::in_range(quantity * price) {
            Some(quantity * price)
        } else {
            None
        },
        _ => None,
    }
}

/// What all rows amount to, if each of them amounts to something and the sum can
/// be held at every point on the way.
pub open spec fn rows_total(rows: Seq<OrderItemInputView>) -> Option<int>
    decreases rows.len(),
{
    if rows.len() == 0 {
        Some(0)
    } else {
        match (rows_total(rows.drop_last()), row_total(rows.last())) {
            (Some(sum), Some(total)) => if cents::in_range(sum + total) {
                Some(sum + total)
            } else {
                None
            },
            _ => None,
        }
    }
}

/// What a row amounts to, for the cell at its end.
pub fn line_total(row: &EditorRow) -> (r: Option<i64>)
    ensures
        match r {
            Some(total) => row_total(row.input()) == Some(total as int),
            None => row_total(row.input()) is None,
        },
{
    match (
        parse::parse_quantity(row.quantity.as_str()),
        parse::parse_money_to_cents(row.unit_price.as_str()),
    ) {
        (Ok(quantity), Ok(price)) => match validate::calculate_line_total_cents(quantity, price) {
            Ok(total) => Some(total),
            Err(_) => None,
        },
        _ => None,
    }
}

// ---------------------------------------------------------------------------
// The form
// ---------------------------------------------------------------------------

/// The state of the order form.
#[derive(Debug, Clone, PartialEq, Eq)]
pub struct OrderEditor {
    /// The order being edited, or none for a new one.
    pub editing: Option<u128>,
    pub customer: String,
    pub due_date: String,
    pub rows: Vec<EditorRow>,
    pub next_key: usize,
    /// Whether anything was typed since the last submission.
    pub edited: bool,
}

/// The rows of a form as they are submitted.
pub open spec fn row_inputs(rows: Seq<EditorRow>) -> Seq<OrderItemInputView> {
    rows.map_values(|row: EditorRow| row.input())
}

/// The rows whose key is another one.
pub open spec fn without_key(rows: Seq<EditorRow>, key: usize) -> Seq<EditorRow> {
    rows.filter(|row: EditorRow| row.key != key)
}

/// The contents of a stored order.
pub open spec fn contents(order: OrderDetail) -> ValidatedOrderView {
    ValidatedOrderView {
        customer: order.customer@,
        due_date: order.due_date,
        total_cents: order.total_cents as int,
        items: order.items@.map_values(|line: OrderLine| line@),
    }
}

impl OrderEditor {
    /// There is a row to type into, and no two rows share a key.
    pub open spec fn wf(self) -> bool {
        &&& self.rows@.len() > 0
        &&& forall|i: int| 0 <= i < self.rows@.len() ==> (#[trigger] self.rows@[i]).key
            < self.next_key
        &&& forall|i: int, j: int|
            0 <= i < j < self.rows@.len() ==> (#[trigger] self.rows@[i]).key != (
            #[trigger] self.rows@[j]).key
    }

    /// What would be submitted.
    pub open spec fn input(self) -> NewOrderInputView {
        NewOrderInputView {
            customer: self.customer@,
            due_date: self.due_date@,
            items: row_inputs(self.rows@),
        }
    }

    /// An empty form with one row.
    pub fn new() -> (r: Self)
        ensures
            r.wf(),
            r.editing is None,
            r.customer@ == Seq::<char>::empty(),
            r.due_date@ == Seq::<char>::empty(),
            r.rows@.len() == 1,
            r.rows@[0].key == 0,
            r.rows@[0].input() == (OrderItemInputView {
                description: Seq::empty(),
                quantity: "1"@,
                unit_price: Seq::empty(),
            }),
            r.next_key == 1,
            !r.edited,
    {
        let mut rows: Vec<EditorRow> = Vec::new();
        rows.push(EditorRow::new(0));
        OrderEditor {
            editing: None,
            customer: String::new(),
            due_date: String::new(),
            rows,
            next_key: 1,
            edited: false,
        }
    }

    /// The form prefilled from an existing order, with an empty row if the order
    /// has no lines.
    pub fn for_order(order: &OrderDetail) -> (r: Self)
        requires
            order.due_date.wf(),
        ensures
            r.wf(),
            r.editing == Some(order.id),
            !r.edited,
            r.customer@ == order.customer@,
            r.due_date@ == order.due_date.text(),
            order.items@.len() > 0 ==> r.input() == laws::prefilled_order(contents(*order)),
            order.items@.len() > 0 ==> forall|i: int|
                0 <= i < r.rows@.len() ==> (#[trigger] r.rows@[i]).key == i,
            order.items@.len() == 0 ==> r.rows@.len() == 1 && r.rows@[0].input() == (
            OrderItemInputView {
                description: Seq::empty(),
                quantity: "1"@,
                unit_price: Seq::empty(),
            }),
            r.next_key == r.rows@.len(),
    {
        let mut form = OrderEditor::new();
        form.editing = Some(order.id);
        form.customer = order.customer.clone();
        form.due_date = order.due_date.to_string();
        if order.items.len() == 0 {
            return form;
        }
        let mut rows: Vec<EditorRow> = Vec::new();
        let mut i: usize = 0;
        while i < order.items.len()
            invariant
                i <= order.items@.len(),
                rows@.len() == i,
                forall|j: int| 0 <= j < i ==> (#[trigger] rows@[j]).key == j,
                forall|j: int|
                    0 <= j < i ==> (#[trigger] rows@[j]).input() == laws::prefilled_item(
                        order.items@[j]@,
                    ),
            decreases order.items@.len() - i,
        {
            rows.push(EditorRow::from_line(i, &order.items[i]));
            i = i + 1;
        }
        form.next_key = rows.len();
        form.rows = rows;
        assert(row_inputs(form.rows@) =~= laws::prefilled_order(contents(*order)).items);
        form
    }

    /// Adds an empty row at the end, under a key that was never used.
    pub fn add_row(&mut self)
        requires
            old(self).wf(),
            old(self).next_key < usize::MAX,
        ensures
            final(self).wf(),
            final(self).next_key == old(self).next_key + 1,
            final(self).rows@.drop_last() == old(self).rows@,
            final(self).rows@.last().key == old(self).next_key,
            final(self).rows@.last().input() == (OrderItemInputView {
                description: Seq::empty(),
                quantity: "1"@,
                unit_price: Seq::empty(),
            }),
            final(self).editing == old(self).editing,
            final(self).customer == old(self).customer,
            final(self).due_date == old(self).due_date,
            final(self).edited == old(self).edited,
    {
        let key: usize = self.next_key;
        self.next_key = key + 1;
        self.rows.push(EditorRow::new(key));
        assert(self.rows@.drop_last() =~= old(self).rows@);
    }

    /// Whether a row may be removed. The last one may not.
    pub fn can_remove(&self) -> (r: bool)
        ensures
            r == (self.rows@.len() > 1),
    {
        self.rows.len() > 1
    }

    /// Removes the row with the given key, unless it is the last one.
    pub fn remove_row(&mut self, key: usize)
        requires
            old(self).wf(),
        ensures
            final(self).wf(),
            final(self).rows@ == (if old(self).rows@.len() > 1 {
                without_key(old(self).rows@, key)
            } else {
                old(self).rows@
            }),
            final(self).next_key == old(self).next_key,
            final(self).editing == old(self).editing,
            final(self).customer == old(self).customer,
            final(self).due_date == old(self).due_date,
            final(self).edited == old(self).edited,
    {
        if self.rows.len() <= 1 {
            return;
        }
        let ghost all = self.rows@;
        let mut at: usize = 0;
        while at < self.rows.len() && self.rows[at].key != key
            invariant
                at <= self.rows@.len(),
                self.rows@ == all,
                forall|j: int| 0 <= j < at ==> (#[trigger] all[j]).key != key,
                self.next_key == old(self).next_key,
                self.editing == old(self).editing,
                self.customer == old(self).customer,
                self.due_date == old(self).due_date,
                self.edited == old(self).edited,
            decreases self.rows@.len() - at,
        {
            at = at + 1;
        }
        if at < self.rows.len() {
            self.rows.remove(at);
            proof {
                lemma_without_key(all, key, at as int);
            }
        } else {
            proof {
                lemma_key_is_absent(all, key);
            }
        }
    }

    /// The place of the row with a given key, and the first place if there is
    /// none.
    pub fn position_of(&self, key: usize) -> (r: usize)
        ensures
            (exists|i: int| 0 <= i < self.rows@.len() && (#[trigger] self.rows@[i]).key == key)
                ==> r < self.rows@.len() && self.rows@[r as int].key == key,
            (forall|i: int| 0 <= i < self.rows@.len() ==> (#[trigger] self.rows@[i]).key != key)
                ==> r == 0,
            forall|i: int| 0 <= i < r ==> (#[trigger] self.rows@[i]).key != key,
    {
        let mut i: usize = 0;
        while i < self.rows.len()
            invariant
                i <= self.rows@.len(),
                forall|j: int| 0 <= j < i ==> (#[trigger] self.rows@[j]).key != key,
            decreases self.rows@.len() - i,
        {
            if self.rows[i].key == key {
                return i;
            }
            i = i + 1;
        }
        0
    }

    /// The row with a given key.
    pub fn row(&self, key: usize) -> (r: Option<&EditorRow>)
        ensures
            match r {
                Some(row) => row.key == key && self.rows@.contains(*row),
                None => forall|i: int|
                    0 <= i < self.rows@.len() ==> (#[trigger] self.rows@[i]).key != key,
            },
    {
        let at: usize = self.position_of(key);
        if at < self.rows.len() && self.rows[at].key == key {
            Some(&self.rows[at])
        } else {
            None
        }
    }

    /// What the whole order amounts to, and nothing while there is no honest
    /// number to show.
    pub fn running_total(&self) -> (r: Option<i64>)
        ensures
            match r {
                Some(total) => rows_total(row_inputs(self.rows@)) == Some(total as int),
                None => rows_total(row_inputs(self.rows@)) is None,
            },
    {
        let ghost inputs = row_inputs(self.rows@);
        let mut sum: i64 = 0;
        let mut i: usize = 0;
        while i < self.rows.len()
            invariant
                i <= self.rows@.len(),
                inputs == row_inputs(self.rows@),
                rows_total(inputs.take(i as int)) == Some(sum as int),
            decreases self.rows@.len() - i,
        {
            assert(inputs.take(i + 1).drop_last() =~= inputs.take(i as int));
            let next = match line_total(&self.rows[i]) {
                Some(total) => sum.checked_add(total),
                None => None,
            };
            match next {
                Some(total) => {
                    sum = total;
                },
                None => {
                    proof {
                        lemma_no_total(inputs, i + 1);
                    }
                    return None;
                },
            }
            i = i + 1;
        }
        assert(inputs.take(inputs.len() as int) =~= inputs);
        Some(sum)
    }

    /// What is submitted.
    pub fn to_input(&self) -> (r: NewOrderInput)
        ensures
            r@ == self.input(),
    {
        let mut items: Vec<OrderItemInput> = Vec::new();
        let mut i: usize = 0;
        while i < self.rows.len()
            invariant
                i <= self.rows@.len(),
                items@.len() == i,
                forall|j: int| 0 <= j < i ==> (#[trigger] items@[j])@ == self.rows@[j].input(),
            decreases self.rows@.len() - i,
        {
            items.push(self.rows[i].to_input());
            i = i + 1;
        }
        let input = NewOrderInput {
            customer: self.customer.clone(),
            due_date: self.due_date.clone(),
            items,
        };
        assert(input@.items =~= self.input().items);
        input
    }
}

/// Rows that hold no row with a key keep all of their rows.
proof fn lemma_key_is_absent(rows: Seq<EditorRow>, key: usize)
    requires
        forall|j: int| 0 <= j < rows.len() ==> (#[trigger] rows[j]).key != key,
    ensures
        without_key(rows, key) == rows,
    decreases rows.len(),
{
    reveal(Seq::filter);
    if rows.len() > 0 {
        lemma_key_is_absent(rows.drop_last(), key);
        assert(rows.drop_last().push(rows.last()) =~= rows);
    }
}

/// Where keys are not shared, leaving out a key leaves out its one row.
proof fn lemma_without_key(rows: Seq<EditorRow>, key: usize, at: int)
    requires
        0 <= at < rows.len(),
        rows[at].key == key,
        forall|i: int, j: int|
            0 <= i < j < rows.len() ==> (#[trigger] rows[i]).key != (#[trigger] rows[j]).key,
    ensures
        without_key(rows, key) == rows.remove(at),
    decreases rows.len(),
{
    reveal(Seq::filter);
    let front = rows.drop_last();
    if at == rows.len() - 1 {
        assert forall|j: int| 0 <= j < front.len() implies (#[trigger] front[j]).key != key by {
            assert(rows[j].key != rows[at].key);
        }
        lemma_key_is_absent(front, key);
        assert(rows.remove(at) =~= front);
    } else {
        assert(rows[at].key != rows[rows.len() - 1].key);
        lemma_without_key(front, key, at);
        assert(rows.remove(at) =~= front.remove(at).push(rows.last()));
    }
}

/// Once the rows so far amount to nothing, more rows do not change that.
proof fn lemma_no_total(rows: Seq<OrderItemInputView>, k: int)
    requires
        0 <= k <= rows.len(),
        rows_total(rows.take(k)) is None,
    ensures
        rows_total(rows) is None,
    decreases rows.len() - k,
{
    if k < rows.len() {
        assert(rows.take(k + 1).drop_last() =~= rows.take(k));
        lemma_no_total(rows, k + 1);
    } else {
        assert(rows.take(k) =~= rows);
    }
}

// ---------------------------------------------------------------------------
// Typing and submitting
// ---------------------------------------------------------------------------

/// One cell of a row.
#[derive(Debug, Clone, Copy, PartialEq, Eq, Structural)]
pub enum Cell {
    Description,
    Quantity,
    UnitPrice,
}

/// The text of one cell of a row.
pub open spec fn cell_of(row: EditorRow, cell: Cell) -> Seq<char> {
    match cell {
        Cell::Description => row.description@,
        Cell::Quantity => row.quantity@,
        Cell::UnitPrice => row.unit_price@,
    }
}

/// A row with the text of one cell replaced.
pub open spec fn with_cell(row: EditorRow, cell: Cell, typed: String) -> EditorRow {
    match cell {
        Cell::Description => EditorRow { description: typed, ..row },
        Cell::Quantity => EditorRow { quantity: typed, ..row },
        Cell::UnitPrice => EditorRow { unit_price: typed, ..row },
    }
}

/// What a submission asks for.
#[derive(Debug, Clone, PartialEq, Eq)]
pub enum Submission {
    Create(NewOrderInput),
    Update(u128, NewOrderInput),
}

impl OrderEditor {
    /// The customer was typed.
    pub fn type_customer(&mut self, typed: String)
        ensures
            *final(self) == (OrderEditor { customer: typed, edited: true, ..*old(self) }),
    {
        self.customer = typed;
        self.edited = true;
    }

    /// The due date was typed.
    pub fn type_due_date(&mut self, typed: String)
        ensures
            *final(self) == (OrderEditor { due_date: typed, edited: true, ..*old(self) }),
    {
        self.due_date = typed;
        self.edited = true;
    }

    /// What stands in a cell of the row with the given key, and nothing if there is
    /// no such row.
    pub fn cell_text(&self, key: usize, cell: Cell) -> (r: String)
        ensures
            (exists|i: int| 0 <= i < self.rows@.len() && (#[trigger] self.rows@[i]).key == key)
                ==> exists|i: int|
                0 <= i < self.rows@.len() && (#[trigger] self.rows@[i]).key == key && r@ == cell_of(
                    self.rows@[i],
                    cell,
                ),
            (forall|i: int| 0 <= i < self.rows@.len() ==> (#[trigger] self.rows@[i]).key != key)
                ==> r@ == Seq::<char>::empty(),
    {
        match self.row(key) {
            Some(row) => match cell {
                Cell::Description => row.description.clone(),
                Cell::Quantity => row.quantity.clone(),
                Cell::UnitPrice => row.unit_price.clone(),
            },
            None => String::new(),
        }
    }

    /// A cell of the row with the given key was typed. Without such a row, only
    /// the fact that something was typed remains.
    pub fn type_cell(&mut self, key: usize, cell: Cell, typed: String)
        requires
            old(self).wf(),
        ensures
            final(self).wf(),
            final(self).edited,
            final(self).rows@.len() == old(self).rows@.len(),
            forall|i: int|
                0 <= i < old(self).rows@.len() ==> #[trigger] final(self).rows@[i] == (if old(
                    self,
                ).rows@[i].key == key {
                    with_cell(old(self).rows@[i], cell, typed)
                } else {
                    old(self).rows@[i]
                }),
            final(self).next_key == old(self).next_key,
            final(self).editing == old(self).editing,
            final(self).customer == old(self).customer,
            final(self).due_date == old(self).due_date,
    {
        self.edited = true;
        let at: usize = self.position_of(key);
        if at < self.rows.len() && self.rows[at].key == key {
            match cell {
                Cell::Description => {
                    self.rows[at].description = typed;
                },
                Cell::Quantity => {
                    self.rows[at].quantity = typed;
                },
                Cell::UnitPrice => {
                    self.rows[at].unit_price = typed;
                },
            }
        }
    }

    /// Submits what the form says, as a new order or as an edit, and forgets that
    /// anything was typed.
    pub fn submit(&mut self) -> (r: Submission)
        ensures
            *final(self) == (OrderEditor { edited: false, ..*old(self) }),
            match old(self).editing {
                Some(id) => r matches Submission::Update(target, input) && target == id && input@
                    == old(self).input(),
                None => r matches Submission::Create(input) && input@ == old(self).input(),
            },
    {
        self.edited = false;
        let input = self.to_input();
        match self.editing {
            Some(id) => Submission::Update(id, input),
            None => Submission::Create(input),
        }
    }

    /// The verdict to show: that of the last submission, until something is typed.
    ///
    /// A verdict is about the values that were submitted. Once any of them has
    /// changed, the whole of it is withdrawn.
    pub fn failure<'a>(
        &self,
        created: &'a Option<AppResult<u128>>,
        updated: &'a Option<AppResult<()>>,
    ) -> (r: Option<&'a AppError>)
        ensures
            match r {
                Some(error) => !self.edited && (*created == Some(
                    Err::<u128, AppError>(*error),
                ) || !(*created matches Some(Err(_))) && *updated == Some(
                    Err::<(), AppError>(*error),
                )),
                None => self.edited || !(*created matches Some(Err(_))) && !(
                *updated matches Some(Err(_))),
            },
    {
        if self.edited {
            return None;
        }
        match (created, updated) {
            (Some(Err(error)), _) => Some(error),
            (_, Some(Err(error))) => Some(error),
            _ => None,
        }
    }

    /// The caption of the submit button.
    pub fn submit_label(&self, pending: bool) -> (r: &'static str)
        ensures
            r@ == (if pending {
                "Saving…"@
            } else if self.editing is Some {
                "Save changes"@
            } else {
                "Create order"@
            }),
    {
        match (pending, self.editing) {
            (true, _) => "Saving…",
            (false, Some(_)) => "Save changes",
            (false, None) => "Create order",
        }
    }
}

/// The message for one field of a form, if the verdict mentions the field.
pub fn message_for(failure: Option<&AppError>, field: &str) -> (r: Option<String>)
    ensures
        match failure {
            Some(error) => match r {
                Some(message) => error::first_message(error::error_fields(error@), field@) == Some(
                    message@,
                ),
                None => error::first_message(error::error_fields(error@), field@) is None,
            },
            None => r is None,
        },
{
    match failure {
        Some(error) => match error.message_for(field) {
            Some(message) => Some(message.to_owned()),
            None => None,
        },
        None => None,
    }
}

/// The sentence above the form: a pointer to the fields if the error names any,
/// and the error's own sentence otherwise.
pub fn failure_summary(error: &AppError) -> (r: String)
    ensures
        r@ == (if error::error_fields(error@).len() == 0 {
            error::error_message(error@)
        } else {
            "Check the highlighted fields below."@
        }),
{
    if error.field_errors().len() == 0 {
        error.to_string()
    } else {
        "Check the highlighted fields below.".to_owned()
    }
}

/// How a cell is named to a reader who cannot see its column: `Item 2 quantity`.
pub fn cell_label(position: usize, name: &str) -> (r: String)
    requires
        position < usize::MAX,
    ensures
        r@ == "Item "@ + text::decimal((position + 1) as nat) + " "@ + name@,
{
    let mut r = "Item ".to_owned();
    r.append(text::decimal_text((position + 1) as u64).as_str());
    r.append(" ");
    r.append(name);
    r
}

/// The address of an order's own page.
pub open spec fn order_path_text(id: u128) -> Seq<char> {
    "/orders/"@ + ids::id_text(id)
}

/// The address of an order's own page.
pub fn order_path(id: u128) -> (r: String)
    ensures
        r@ == order_path_text(id),
{
    let mut r = "/orders/".to_owned();
    r.append(ids::id_to_string(id).as_str());
    r
}

// ---------------------------------------------------------------------------
// Laws
// ---------------------------------------------------------------------------

/// The running total is the total that an accepted order is stored with.
pub proof fn law_preview_is_the_stored_total(
    input: NewOrderInputView,
    due_date: Result<CalendarDate, Seq<char>>,
)
    ensures
        validate::order_meaning(input, due_date) matches Ok(order) ==> rows_total(input.items)
            == Some(order.total_cents),
{
    if let Ok(order) = validate::order_meaning(input, due_date) {
        assert(validate::lines_problems(input.items).len() == 0);
        validate::lemma_clean_lines(input.items);
        assert forall|k: int| 0 <= k <= order.items.len() implies cents::in_range(
            validate::sum_of_lines(#[trigger] order.items.take(k)),
        ) by {}
        lemma_preview(input.items, order.items);
    }
}

proof fn lemma_preview(rows: Seq<OrderItemInputView>, lines: Seq<ValidatedItemView>)
    requires
        rows.len() == lines.len(),
        forall|i: int| 0 <= i < rows.len() ==> validate::item_meaning(rows[i]) == Some(#[trigger] lines[i]),
        validate::sums_in_range(lines),
    ensures
        rows_total(rows) == Some(validate::sum_of_lines(lines)),
    decreases rows.len(),
{
    if rows.len() > 0 {
        assert forall|k: int| 0 <= k <= lines.drop_last().len() implies cents::in_range(
            validate::sum_of_lines(#[trigger] lines.drop_last().take(k)),
        ) by {
            assert(lines.drop_last().take(k) =~= lines.take(k));
        }
        lemma_preview(rows.drop_last(), lines.drop_last());
        assert(validate::item_meaning(rows.last()) == Some(lines[rows.len() - 1]));
        assert(lines.take(lines.len() as int) =~= lines);
    }
}

/// Without a running total there is no acceptable order either.
pub proof fn law_no_preview_no_order(
    input: NewOrderInputView,
    due_date: Result<CalendarDate, Seq<char>>,
)
    requires
        rows_total(input.items) is None,
    ensures
        validate::order_meaning(input, due_date) is Err,
{
    law_preview_is_the_stored_total(input, due_date);
}

/// A row amounts to its quantity times its price, and to nothing while either cannot
/// be read or the product cannot be held.
pub proof fn law_row_amounts_to_quantity_times_price(row: OrderItemInputView, total: int)
    ensures
        row_total(row) == Some(total) <==> {
            &&& parse::quantity_meaning(row.quantity) is Ok
            &&& parse::money_meaning(row.unit_price) is Ok
            &&& total == parse::quantity_meaning(row.quantity)->Ok_0 * parse::money_meaning(
                row.unit_price,
            )->Ok_0
            &&& i64::MIN <= total <= i64::MAX
        },
{
}

/// One more row adds what it amounts to, and there is no running total while some row
/// amounts to nothing.
pub proof fn law_running_total_adds_rows(rows: Seq<OrderItemInputView>, row: OrderItemInputView)
    ensures
        rows_total(Seq::<OrderItemInputView>::empty()) == Some(0int),
        rows_total(rows.push(row)) matches Some(total) ==> rows_total(rows) is Some && row_total(
            row,
        ) is Some && total == rows_total(rows)->Some_0 + row_total(row)->Some_0,
        rows_total(rows) is Some && row_total(row) is Some && i64::MIN <= rows_total(rows)->Some_0
            + row_total(row)->Some_0 <= i64::MAX ==> rows_total(rows.push(row)) is Some,
{
    assert(rows.push(row).drop_last() =~= rows);
}

/// Removing a row leaves every other one as it is and in its order.
pub proof fn law_removing_leaves_the_others(rows: Seq<EditorRow>, key: usize, at: int)
    requires
        0 <= at < rows.len(),
        rows[at].key == key,
        forall|i: int, j: int|
            0 <= i < j < rows.len() ==> (#[trigger] rows[i]).key != (#[trigger] rows[j]).key,
    ensures
        without_key(rows, key) == rows.remove(at),
{
    lemma_without_key(rows, key, at);
}

/// What is submitted is what stands in the form: the customer, the date, and the three
/// texts of every row, in order.
pub proof fn law_form_submits_what_it_shows(form: OrderEditor)
    ensures
        form.input().customer == form.customer@,
        form.input().due_date == form.due_date@,
        form.input().items.len() == form.rows@.len(),
        forall|i: int|
            0 <= i < form.rows@.len() ==> (#[trigger] form.input().items[i]).description
                == form.rows@[i].description@ && form.input().items[i].quantity
                == form.rows@[i].quantity@ && form.input().items[i].unit_price
                == form.rows@[i].unit_price@,
{
}

/// Typing into a cell changes that cell to what was typed, and no other.
pub proof fn law_typing_changes_one_cell(row: EditorRow, cell: Cell, other: Cell, typed: String)
    ensures
        cell_of(with_cell(row, cell, typed), cell) == typed@,
        other != cell ==> cell_of(with_cell(row, cell, typed), other) == cell_of(row, other),
        with_cell(row, cell, typed).key == row.key,
        cell_of(row, Cell::Description) == row.description@,
        cell_of(row, Cell::Quantity) == row.quantity@,
        cell_of(row, Cell::UnitPrice) == row.unit_price@,
{
}

/// A form is filled from all that an order says: its customer, its date, and every
/// line in its place.
pub proof fn law_form_is_filled_from_the_order(order: OrderDetail)
    ensures
        contents(order).customer == order.customer@,
        contents(order).due_date == order.due_date,
        contents(order).total_cents == order.total_cents,
        contents(order).items.len() == order.items@.len(),
        forall|i: int|
            0 <= i < order.items@.len() ==> (#[trigger] contents(order).items[i]).description
                == order.items@[i].description@ && contents(order).items[i].quantity
                == order.items@[i].quantity && contents(order).items[i].unit_price_cents
                == order.items@[i].unit_price_cents,
        laws::prefilled_order(contents(order)).customer == order.customer@,
        laws::prefilled_order(contents(order)).due_date == order.due_date.text(),
        laws::prefilled_order(contents(order)).items.len() == order.items@.len(),
{
}

} // verus!
