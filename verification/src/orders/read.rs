//! What a page gets to read, rather than what a table holds.
//!
//! The status and the amount due are computed here and sent on finished, so no
//! page can arrive at another answer.

use vstd::prelude::*;

use crate::cents;
use crate::date;
use crate::date::CalendarDate;
use crate::error::{AppError, AppErrorView, AppResult};
use crate::orders::ledger;
use crate::orders::ledger::{StoredOrder, StoredPayment, World};
use crate::orders::status;
use crate::orders::status::{OrderStatus, OrderSummary};
use crate::orders::store;
use crate::orders::store::{Outcome, Reply, WorkView};
use crate::orders::validate::{ValidatedItemView, ValidatedOrderView};
use crate::payments;
use crate::payments::{PaymentRecord, ValidatedPayment};

verus! {

// ---------------------------------------------------------------------------
// The order list
// ---------------------------------------------------------------------------

/// One row of the order list, as the database returns it.
#[derive(Debug, Clone, PartialEq, Eq)]
pub struct SummaryRow {
    pub id: u128,
    pub customer: String,
    pub due_date: CalendarDate,
    pub total_cents: i64,
    pub paid_cents: i64,
    pub item_count: i64,
}

/// A row of the order list as it is shown on a given day.
pub open spec fn summary_on(row: SummaryRow, today: CalendarDate) -> OrderSummary {
    OrderSummary {
        id: row.id,
        customer: row.customer,
        due_date: row.due_date,
        total_cents: row.total_cents,
        paid_cents: row.paid_cents,
        item_count: row.item_count,
        status: status::status_of(
            row.total_cents as int,
            row.paid_cents as int,
            row.due_date,
            today,
        ),
    }
}

/// The rows of the order list as they are shown on a given day.
pub open spec fn list_on(rows: Seq<SummaryRow>, today: CalendarDate) -> Seq<OrderSummary> {
    rows.map_values(|row: SummaryRow| summary_on(row, today))
}

/// The order list on a given day. Every row is judged against the same day.
pub fn order_summaries(rows: Vec<SummaryRow>, today: CalendarDate) -> (r: Vec<OrderSummary>)
    ensures
        r@ == list_on(rows@, today),
{
    let ghost all = rows@;
    let mut summaries: Vec<OrderSummary> = Vec::new();
    for row in it: rows
        invariant
            it.seq() == all,
            summaries@ == all.take(it.index() as int).map_values(
                |row: SummaryRow| summary_on(row, today),
            ),
    {
        let ghost listed = summaries@;
        let status = status::derive_order_status(
            row.total_cents,
            row.paid_cents,
            row.due_date,
            today,
        );
        summaries.push(
            OrderSummary {
                id: row.id,
                customer: row.customer,
                due_date: row.due_date,
                total_cents: row.total_cents,
                paid_cents: row.paid_cents,
                item_count: row.item_count,
                status,
            },
        );
        assert(summaries@ =~= all.take(it.index() + 1).map_values(
            |row: SummaryRow| summary_on(row, today),
        ));
    }
    assert(all.take(all.len() as int) =~= all);
    summaries
}

/// The order list as of now: every row judged against one and the same today.
pub fn list_orders_for_user(rows: Vec<SummaryRow>) -> (r: Vec<OrderSummary>)
    ensures
        exists|today: CalendarDate| #[trigger]
            today.wf() && r@ == list_on(rows@, today),
{
    let today = date::today();
    order_summaries(rows, today)
}

// ---------------------------------------------------------------------------
// One order
// ---------------------------------------------------------------------------

/// The order itself, as the database returns it.
#[derive(Debug, Clone, PartialEq, Eq)]
pub struct OrderRow {
    pub id: u128,
    pub customer: String,
    pub due_date: CalendarDate,
    pub total_cents: i64,
    pub paid_cents: i64,
    pub has_payments: bool,
}

/// One line item as it is read back.
#[derive(Debug, Clone, PartialEq, Eq)]
pub struct OrderLine {
    pub description: String,
    pub quantity: i64,
    pub unit_price_cents: i64,
    pub line_total_cents: i64,
}

impl View for OrderLine {
    type V = ValidatedItemView;

    open spec fn view(&self) -> ValidatedItemView {
        ValidatedItemView {
            description: self.description@,
            quantity: self.quantity as int,
            unit_price_cents: self.unit_price_cents as int,
            line_total_cents: self.line_total_cents as int,
        }
    }
}

/// A whole order with its line items and its payments, newest first.
#[derive(Debug, Clone, PartialEq, Eq)]
pub struct OrderDetail {
    pub id: u128,
    pub customer: String,
    pub due_date: CalendarDate,
    pub total_cents: i64,
    pub paid_cents: i64,
    pub status: OrderStatus,
    /// False once there is a payment against the order.
    pub editable: bool,
    /// The day that the status was derived against.
    pub today: CalendarDate,
    pub items: Vec<OrderLine>,
    pub payments: Vec<PaymentRecord>,
}

impl OrderDetail {
    /// What is still owed, negative for an overpaid order.
    pub fn amount_due_cents(&self) -> (r: i64)
        ensures
            r == status::amount_due(self.total_cents as int, self.paid_cents as int),
    {
        cents::saturating_difference(self.total_cents, self.paid_cents)
    }
}

/// One order as it is shown on a given day.
pub open spec fn detail_on(
    row: OrderRow,
    items: Vec<OrderLine>,
    payments: Vec<PaymentRecord>,
    today: CalendarDate,
) -> OrderDetail {
    OrderDetail {
        id: row.id,
        customer: row.customer,
        due_date: row.due_date,
        total_cents: row.total_cents,
        paid_cents: row.paid_cents,
        status: status::status_of(
            row.total_cents as int,
            row.paid_cents as int,
            row.due_date,
            today,
        ),
        editable: !row.has_payments,
        today,
        items,
        payments,
    }
}

/// One order on a given day, or the answer that there is none. Whether the order
/// is missing or somebody else's cannot be told from the row that was not found.
pub fn order_detail(
    row: Option<OrderRow>,
    items: Vec<OrderLine>,
    payments: Vec<PaymentRecord>,
    today: CalendarDate,
) -> (r: AppResult<OrderDetail>)
    ensures
        match row {
            Some(row) => r == Ok::<OrderDetail, AppError>(detail_on(row, items, payments, today)),
            None => r matches Err(error) && error@ == AppErrorView::NotFound,
        },
{
    match row {
        Some(row) => {
            let status = status::derive_order_status(
                row.total_cents,
                row.paid_cents,
                row.due_date,
                today,
            );
            Ok(
                OrderDetail {
                    id: row.id,
                    customer: row.customer,
                    due_date: row.due_date,
                    total_cents: row.total_cents,
                    paid_cents: row.paid_cents,
                    status,
                    editable: !row.has_payments,
                    today,
                    items,
                    payments,
                },
            )
        },
        None => Err(AppError::NotFound),
    }
}

/// One order as of now. The day of the status and the day that is sent along are
/// one and the same.
pub fn find_order_for_user(
    row: Option<OrderRow>,
    items: Vec<OrderLine>,
    payments: Vec<PaymentRecord>,
) -> (r: AppResult<OrderDetail>)
    ensures
        match row {
            Some(row) => r matches Ok(detail) && detail.today.wf() && detail == detail_on(
                row,
                items,
                payments,
                detail.today,
            ),
            None => r matches Err(error) && error@ == AppErrorView::NotFound,
        },
{
    let today = date::today();
    order_detail(row, items, payments, today)
}

// ---------------------------------------------------------------------------
// Laws
// ---------------------------------------------------------------------------

/// What a list of payments amounts to as it was stored.
pub open spec fn as_stored(payments: Seq<PaymentRecord>) -> Seq<StoredPayment> {
    payments.map_values(
        |record: PaymentRecord| StoredPayment {
            id: record.id,
            payment: ValidatedPayment {
                amount_cents: record.amount_cents,
                paid_on: record.paid_on,
            },
        },
    )
}

/// Whether the three reads behind an order's page return what is stored: the
/// order if it exists and is the caller's, its line items in order, and its
/// payments newest first.
pub open spec fn reads_return(
    orders: Map<u128, StoredOrder>,
    owner: Seq<char>,
    id: u128,
    row: Option<OrderRow>,
    items: Seq<OrderLine>,
    payments: Seq<PaymentRecord>,
) -> bool {
    if orders.contains_key(id) && orders[id].owner == owner {
        let order = orders[id];
        &&& row matches Some(row) && {
            &&& row.id == id
            &&& row.customer@ == order.customer
            &&& row.due_date == order.due_date
            &&& row.total_cents == order.total_cents
            &&& row.paid_cents == ledger::paid_in_all(order.payments)
            &&& row.has_payments == (order.payments.len() > 0)
        }
        &&& items.map_values(|line: OrderLine| line@) == order.items
        &&& as_stored(payments).to_multiset() == order.payments.to_multiset()
        &&& payments::newest_first(payments)
    } else {
        row is None
    }
}

/// Whether a status is where an order stands on a day: settled once the total is
/// paid, overdue if it is not and the due date has passed, and before that partially
/// paid or pending.
pub open spec fn stands(
    status: OrderStatus,
    total_cents: int,
    paid_cents: int,
    due_date: CalendarDate,
    today: CalendarDate,
) -> bool {
    &&& status == OrderStatus::Paid <==> total_cents <= paid_cents
    &&& status == OrderStatus::Overdue <==> paid_cents < total_cents && due_date.precedes(today)
    &&& status == OrderStatus::PartiallyPaid <==> 0 < paid_cents < total_cents
        && !due_date.precedes(today)
    &&& status == OrderStatus::Pending <==> paid_cents <= 0 && paid_cents < total_cents
        && !due_date.precedes(today)
}

/// An order stands on its own page where it stands in the list on the same day, and
/// owes the same there. Both say of the order what was read of it.
pub proof fn law_page_and_list_agree(
    row: OrderRow,
    items: Vec<OrderLine>,
    payments: Vec<PaymentRecord>,
    listed: SummaryRow,
    today: CalendarDate,
)
    requires
        listed.id == row.id,
        listed.customer@ == row.customer@,
        listed.due_date == row.due_date,
        listed.total_cents == row.total_cents,
        listed.paid_cents == row.paid_cents,
    ensures
        ({
            let detail = detail_on(row, items, payments, today);
            let summary = summary_on(listed, today);
            &&& detail.status == summary.status
            &&& stands(
                detail.status,
                row.total_cents as int,
                row.paid_cents as int,
                row.due_date,
                today,
            )
            &&& detail.id == summary.id == row.id
            &&& detail.customer@ == row.customer@ && summary.customer@ == row.customer@
            &&& detail.due_date == row.due_date && summary.due_date == row.due_date
            &&& detail.total_cents == summary.total_cents == row.total_cents
            &&& detail.paid_cents == summary.paid_cents == row.paid_cents
            &&& summary.item_count == listed.item_count
            &&& detail.editable == !row.has_payments
            &&& detail.today == today
            &&& detail.items@ == items@
            &&& detail.payments@ == payments@
        }),
{
}

/// Reading gives back what was written: the caller's own order with the stored
/// customer, date, lines and total, standing where it stands on the day that is sent
/// along, editable exactly while it has no payments, and with a history of exactly
/// its payments, newest first, that adds up to what is shown as paid. Anybody else's
/// order is not there.
pub proof fn law_reading_gives_back_what_was_written(
    orders: Map<u128, StoredOrder>,
    owner: Seq<char>,
    id: u128,
    row: Option<OrderRow>,
    items: Vec<OrderLine>,
    payments: Vec<PaymentRecord>,
    today: CalendarDate,
)
    requires
        ledger::all_sound(orders),
        reads_return(orders, owner, id, row, items@, payments@),
    ensures
        row is Some <==> orders.contains_key(id) && orders[id].owner == owner,
        row matches Some(row) ==> {
            let order = orders[id];
            let detail = detail_on(row, items, payments, today);
            &&& detail.id == id
            &&& detail.customer@ == order.customer
            &&& detail.due_date == order.due_date
            &&& detail.total_cents == order.total_cents
            &&& detail.items@.map_values(|line: OrderLine| line@) == order.items
            &&& detail.editable <==> order.payments.len() == 0
            &&& detail.today == today
            &&& stands(
                detail.status,
                order.total_cents,
                ledger::paid_in_all(order.payments),
                order.due_date,
                today,
            )
            &&& as_stored(detail.payments@).to_multiset() == order.payments.to_multiset()
            &&& payments::newest_first(detail.payments@)
            &&& detail.paid_cents == ledger::paid_in_all(as_stored(detail.payments@))
            &&& 0 <= status::amount_due(detail.total_cents as int, detail.paid_cents as int)
            &&& status::amount_due(detail.total_cents as int, detail.paid_cents as int)
                == order.total_cents - ledger::paid_in_all(order.payments)
        },
{
    if let Some(row) = row {
        let order = orders[id];
        assert(order.sound());
        ledger::lemma_paid_is_in_range(order.payments);
        lemma_order_of_payments_is_irrelevant(as_stored(payments@), order.payments);
    }
}

/// Reading twice gives the same history: no two payments are equal in the order
/// they are listed by, so there is only one way to list them.
pub proof fn law_history_does_not_shuffle(
    orders: Map<u128, StoredOrder>,
    owner: Seq<char>,
    id: u128,
    row: OrderRow,
    items: Seq<OrderLine>,
    payments: Seq<PaymentRecord>,
    row2: OrderRow,
    items2: Seq<OrderLine>,
    payments2: Seq<PaymentRecord>,
)
    requires
        reads_return(orders, owner, id, Some(row), items, payments),
        reads_return(orders, owner, id, Some(row2), items2, payments2),
    ensures
        payments == payments2,
{
    lemma_one_way_to_list(payments, payments2);
}

/// Whoever wrote successfully reads back what they wrote: an order as it was
/// submitted, a deleted order not at all, and a paid order with the payment in
/// its history and added to what was paid before.
pub proof fn law_written_orders_read_back(
    w: World,
    w2: World,
    n: nat,
    reply: Reply,
    id: u128,
    row: Option<OrderRow>,
    items: Vec<OrderLine>,
    payments: Vec<PaymentRecord>,
    today: CalendarDate,
)
    requires
        ledger::consistent(w),
        ledger::statement_runs(w, w2, n, reply),
        store::outcome(w.sessions[n].tx, reply) == Outcome::End(Ok(id)),
        reads_return(
            w2.orders,
            w.sessions[n].tx.work.owner(),
            w.sessions[n].order_id(),
            row,
            items@,
            payments@,
        ),
    ensures
        ({
            let detail = detail_on(row->Some_0, items, payments, today);
            let lines = detail.items@.map_values(|line: OrderLine| line@);
            match w.sessions[n].tx.work {
                WorkView::Create { order_id, order, .. } => {
                    &&& row is Some
                    &&& detail.id == order_id
                    &&& detail.customer@ == order.customer
                    &&& detail.due_date == order.due_date
                    &&& detail.total_cents == order.total_cents
                    &&& lines == order.items
                    &&& detail.paid_cents == 0
                    &&& detail.editable
                },
                WorkView::Replace { order_id, order, .. } => {
                    &&& row is Some
                    &&& detail.id == order_id
                    &&& detail.customer@ == order.customer
                    &&& detail.due_date == order.due_date
                    &&& detail.total_cents == order.total_cents
                    &&& lines == order.items
                    &&& detail.paid_cents == 0
                    &&& detail.editable
                },
                WorkView::Delete { .. } => row is None,
                WorkView::Pay { order_id, payment_id, payment, .. } => {
                    &&& row is Some
                    &&& detail.id == order_id
                    &&& detail.payments@.contains(
                        PaymentRecord {
                            id: payment_id,
                            amount_cents: payment.amount_cents,
                            paid_on: payment.paid_on,
                        },
                    )
                    &&& detail.customer@ == w.orders[order_id].customer
                    &&& detail.due_date == w.orders[order_id].due_date
                    &&& detail.total_cents == w.orders[order_id].total_cents
                    &&& lines == w.orders[order_id].items
                    &&& detail.paid_cents == ledger::paid_in_all(w.orders[order_id].payments)
                        + payment.amount_cents
                    &&& detail.paid_cents <= detail.total_cents
                    &&& !detail.editable
                },
            }
        }),
{
    let work = w.sessions[n].tx.work;
    ledger::law_success_means_done(w, w2, n, reply, id);
    ledger::law_every_step_keeps_consistent(w, w2);
    if let WorkView::Pay { order_id, payment_id, payment, .. } = work {
        let before = w.orders[order_id].payments;
        let after = w2.orders[order_id].payments;
        assert(after.drop_last() =~= before);
        assert(w2.orders[order_id].sound());
        broadcast use vstd::seq_lib::group_to_multiset_ensures;

        let stored = StoredPayment { id: payment_id, payment };
        assert(after[after.len() - 1] == stored);
        assert(after.to_multiset().count(stored) > 0);
        assert(as_stored(payments@).contains(stored));
        let k = choose|k: int| 0 <= k < payments@.len() && as_stored(payments@)[k] == stored;
        assert(payments@[k] == (PaymentRecord {
            id: payment_id,
            amount_cents: payment.amount_cents,
            paid_on: payment.paid_on,
        }));
    }
}

/// Two lists of the same payments, both newest first, are the same list.
proof fn lemma_one_way_to_list(a: Seq<PaymentRecord>, b: Seq<PaymentRecord>)
    requires
        as_stored(a).to_multiset() == as_stored(b).to_multiset(),
        payments::newest_first(a),
        payments::newest_first(b),
    ensures
        a == b,
    decreases a.len(),
{
    broadcast use vstd::seq_lib::group_to_multiset_ensures;

    let sa = as_stored(a);
    let sb = as_stored(b);
    assert(sa.len() == sa.to_multiset().len());
    assert(sb.len() == sb.to_multiset().len());
    if a.len() > 0 {
        let n = a.len() - 1;
        // The last payment of either list is in the other one, and nothing comes
        // after it there.
        assert(sa.to_multiset().count(sa[n]) > 0);
        assert(sb.contains(sa[n]));
        let k = choose|k: int| 0 <= k < sb.len() && sb[k] == sa[n];
        assert(sb.to_multiset().count(sb[n]) > 0);
        assert(sa.contains(sb[n]));
        let j = choose|j: int| 0 <= j < sa.len() && sa[j] == sb[n];
        assert(a[n] == b[k]);
        assert(a[j] == b[n]);
        assert(k == n);
        assert(sa.remove(n) =~= as_stored(a.drop_last()));
        assert(sb.remove(n) =~= as_stored(b.drop_last()));
        lemma_one_way_to_list(a.drop_last(), b.drop_last());
        assert(a =~= a.drop_last().push(a[n]));
        assert(b =~= b.drop_last().push(b[n]));
    }
}

// ---------------------------------------------------------------------------
// Laws of the list
// ---------------------------------------------------------------------------

/// Whether a row of the order list is that of a stored order of the caller: with
/// what was paid in all, and with the number of its line items.
pub open spec fn lists_order(
    orders: Map<u128, StoredOrder>,
    owner: Seq<char>,
    row: SummaryRow,
) -> bool {
    let order = orders[row.id];
    &&& orders.contains_key(row.id)
    &&& order.owner == owner
    &&& row.customer@ == order.customer
    &&& row.due_date == order.due_date
    &&& row.total_cents == order.total_cents
    &&& row.paid_cents == ledger::paid_in_all(order.payments)
    &&& row.item_count == order.items.len()
}

/// Whether an order may stand above another in the list: it is not due later, and
/// if both are due on one day it was not created later.
pub open spec fn may_stand_above(
    created_at: Map<u128, int>,
    due: CalendarDate,
    id: u128,
    other_due: CalendarDate,
    other_id: u128,
) -> bool {
    &&& !other_due.precedes(due)
    &&& due == other_due ==> created_at[id] <= created_at[other_id]
}

/// Whether the read behind the order list returns what is stored: nothing but the
/// caller's orders, every one of them, each exactly once, and soonest due first.
/// Those due on one day come in the order of `created_at`, the instants at which
/// the database's clock stamped them.
pub open spec fn list_returns(
    orders: Map<u128, StoredOrder>,
    created_at: Map<u128, int>,
    owner: Seq<char>,
    rows: Seq<SummaryRow>,
) -> bool {
    &&& forall|i: int| 0 <= i < rows.len() ==> lists_order(orders, owner, #[trigger] rows[i])
    &&& forall|id: u128|
        #![trigger orders[id]]
        orders.contains_key(id) && orders[id].owner == owner ==> exists|i: int|
            0 <= i < rows.len() && (#[trigger] rows[i]).id == id
    &&& forall|i: int, j: int|
        0 <= i < j < rows.len() ==> (#[trigger] rows[i]).id != (#[trigger] rows[j]).id
    &&& forall|i: int, j: int|
        0 <= i < j < rows.len() ==> may_stand_above(
            created_at,
            (#[trigger] rows[i]).due_date,
            rows[i].id,
            (#[trigger] rows[j]).due_date,
            rows[j].id,
        )
}

/// Whether an entry of the list is that of an order with these contents and
/// without payments.
pub open spec fn lists_contents(
    summary: OrderSummary,
    order_id: u128,
    order: ValidatedOrderView,
) -> bool {
    &&& summary.id == order_id
    &&& summary.customer@ == order.customer
    &&& summary.due_date == order.due_date
    &&& summary.total_cents == order.total_cents
    &&& summary.paid_cents == 0
    &&& summary.item_count == order.items.len()
}

/// Whether an entry of the list summarizes a stored order of the caller on a given
/// day.
pub open spec fn summarizes(
    summary: OrderSummary,
    orders: Map<u128, StoredOrder>,
    owner: Seq<char>,
    today: CalendarDate,
) -> bool {
    let order = orders[summary.id];
    let paid = ledger::paid_in_all(order.payments);
    &&& orders.contains_key(summary.id)
    &&& order.owner == owner
    &&& summary.customer@ == order.customer
    &&& summary.due_date == order.due_date
    &&& summary.total_cents == order.total_cents
    &&& summary.paid_cents == paid
    &&& summary.item_count == order.items.len()
    &&& summary.status == status::status_of(order.total_cents, paid, order.due_date, today)
    &&& stands(summary.status, order.total_cents, paid, order.due_date, today)
    &&& status::amount_due(summary.total_cents as int, summary.paid_cents as int)
        == order.total_cents - paid
    &&& 0 <= order.total_cents - paid
}

/// The list gives back what was written: every order of the caller exactly once,
/// nobody else's, soonest due first and then first created first, each with its
/// own total, what was paid in all and the number of its lines, and with the
/// status of the day.
pub proof fn law_list_gives_back_what_was_written(
    orders: Map<u128, StoredOrder>,
    created_at: Map<u128, int>,
    owner: Seq<char>,
    rows: Seq<SummaryRow>,
    today: CalendarDate,
)
    requires
        ledger::all_sound(orders),
        list_returns(orders, created_at, owner, rows),
    ensures
        ({
            let list = list_on(rows, today);
            &&& forall|i: int|
                0 <= i < list.len() ==> summarizes(#[trigger] list[i], orders, owner, today)
            &&& forall|id: u128|
                #![trigger orders[id]]
                orders.contains_key(id) && orders[id].owner == owner ==> exists|i: int|
                    0 <= i < list.len() && (#[trigger] list[i]).id == id
            &&& forall|i: int, j: int|
                0 <= i < j < list.len() ==> (#[trigger] list[i]).id != (#[trigger] list[j]).id
            &&& forall|i: int, j: int|
                0 <= i < j < list.len() ==> may_stand_above(
                    created_at,
                    (#[trigger] list[i]).due_date,
                    list[i].id,
                    (#[trigger] list[j]).due_date,
                    list[j].id,
                )
        }),
{
    let list = list_on(rows, today);
    assert forall|i: int| 0 <= i < list.len() implies summarizes(
        #[trigger] list[i],
        orders,
        owner,
        today,
    ) by {
        let row = rows[i];
        assert(lists_order(orders, owner, row));
        assert(orders[row.id].sound());
        ledger::lemma_paid_is_in_range(orders[row.id].payments);
    }
    assert forall|id: u128|
        #![trigger orders[id]]
        orders.contains_key(id) && orders[id].owner == owner implies exists|i: int|
        0 <= i < list.len() && (#[trigger] list[i]).id == id by {
        let i = choose|i: int| 0 <= i < rows.len() && (#[trigger] rows[i]).id == id;
        assert(list[i].id == id);
    }
    assert forall|i: int, j: int| 0 <= i < j < list.len() implies (#[trigger] list[i]).id != (
    #[trigger] list[j]).id && may_stand_above(
        created_at,
        list[i].due_date,
        list[i].id,
        list[j].due_date,
        list[j].id,
    ) by {
        assert(rows[i].id != rows[j].id);
    }
}

/// Whoever wrote successfully finds it in their list: a submitted order with its
/// contents, unpaid, a deleted order not at all, and a paid order with the payment
/// added to what was paid before.
pub proof fn law_written_orders_are_listed(
    w: World,
    w2: World,
    n: nat,
    reply: Reply,
    id: u128,
    created_at: Map<u128, int>,
    rows: Seq<SummaryRow>,
    today: CalendarDate,
)
    requires
        ledger::consistent(w),
        ledger::statement_runs(w, w2, n, reply),
        store::outcome(w.sessions[n].tx, reply) == Outcome::End(Ok(id)),
        list_returns(w2.orders, created_at, w.sessions[n].tx.work.owner(), rows),
    ensures
        ({
            let list = list_on(rows, today);
            let work = w.sessions[n].tx.work;
            match work {
                WorkView::Create { order_id, order, .. } => exists|i: int|
                    0 <= i < list.len() && lists_contents(#[trigger] list[i], order_id, order),
                WorkView::Replace { order_id, order, .. } => exists|i: int|
                    0 <= i < list.len() && lists_contents(#[trigger] list[i], order_id, order),
                WorkView::Delete { order_id, .. } => forall|i: int|
                    0 <= i < list.len() ==> (#[trigger] list[i]).id != order_id,
                WorkView::Pay { order_id, payment, .. } => exists|i: int|
                    0 <= i < list.len() && (#[trigger] list[i]).id == order_id
                        && list[i].total_cents == w.orders[order_id].total_cents
                        && list[i].paid_cents == ledger::paid_in_all(w.orders[order_id].payments)
                        + payment.amount_cents,
            }
        }),
{
    let work = w.sessions[n].tx.work;
    let order_id = work.order_id();
    let list = list_on(rows, today);
    ledger::law_success_means_done(w, w2, n, reply, id);
    ledger::law_every_step_keeps_consistent(w, w2);
    law_list_gives_back_what_was_written(w2.orders, created_at, work.owner(), rows, today);
    if let WorkView::Delete { .. } = work {
        assert forall|i: int| 0 <= i < list.len() implies (#[trigger] list[i]).id != order_id by {
            assert(summarizes(list[i], w2.orders, work.owner(), today));
        }
    } else {
        assert(w2.orders[order_id].owner == work.owner());
        let i = choose|i: int| 0 <= i < list.len() && (#[trigger] list[i]).id == order_id;
        assert(summarizes(list[i], w2.orders, work.owner(), today));
        if let WorkView::Pay { .. } = work {
            let before = w.orders[order_id].payments;
            assert(w2.orders[order_id].payments.drop_last() =~= before);
        }
    }
}

/// Leaving out one payment takes its amount off the sum.
proof fn lemma_leave_one_out(payments: Seq<StoredPayment>, k: int)
    requires
        0 <= k < payments.len(),
    ensures
        ledger::paid_in_all(payments) == ledger::paid_in_all(payments.remove(k))
            + payments[k].payment.amount_cents,
    decreases payments.len(),
{
    if k == payments.len() - 1 {
        assert(payments.remove(k) =~= payments.drop_last());
    } else {
        lemma_leave_one_out(payments.drop_last(), k);
        assert(payments.remove(k).drop_last() =~= payments.drop_last().remove(k));
        assert(payments.remove(k).last() == payments.last());
    }
}

/// What was paid in all does not depend on the order of the payments.
proof fn lemma_order_of_payments_is_irrelevant(a: Seq<StoredPayment>, b: Seq<StoredPayment>)
    requires
        a.to_multiset() == b.to_multiset(),
    ensures
        ledger::paid_in_all(a) == ledger::paid_in_all(b),
    decreases a.len(),
{
    broadcast use vstd::seq_lib::group_to_multiset_ensures;

    assert(a.len() == a.to_multiset().len());
    assert(b.len() == b.to_multiset().len());
    if a.len() > 0 {
        let last = a.last();
        assert(a[a.len() - 1] == last);
        assert(a.to_multiset().count(last) > 0);
        assert(b.contains(last));
        let k = choose|k: int| 0 <= k < b.len() && b[k] == last;
        lemma_leave_one_out(b, k);
        assert(a.remove(a.len() - 1) =~= a.drop_last());
        assert(a.drop_last().to_multiset() =~= b.remove(k).to_multiset());
        lemma_order_of_payments_is_irrelevant(a.drop_last(), b.remove(k));
    }
}

/// What is said of a line that was read is said of the values it holds.
pub proof fn law_line_values(line: OrderLine)
    ensures
        line@.description == line.description@,
        line@.quantity == line.quantity,
        line@.unit_price_cents == line.unit_price_cents,
        line@.line_total_cents == line.line_total_cents,
{
}

/// The list has an entry for every row, in the same order.
pub proof fn law_list_has_every_row(rows: Seq<SummaryRow>, today: CalendarDate, i: int)
    requires
        0 <= i < rows.len(),
    ensures
        list_on(rows, today).len() == rows.len(),
        list_on(rows, today)[i] == summary_on(rows[i], today),
{
}

} // verus!
