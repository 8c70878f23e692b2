//! Where an order stands, and the figures above the order list.
//!
//! A status is never stored. It is derived on every read from the total, the
//! payments against it and today's date, because an order becomes overdue by a
//! day passing, with nothing writing to it at all.

use vstd::prelude::*;

use crate::cents;
use crate::date::CalendarDate;
use crate::text;

verus! {

// ---------------------------------------------------------------------------
// Status
// ---------------------------------------------------------------------------

/// Where an order stands.
#[derive(Debug, Clone, Copy, PartialEq, Eq, Structural)]
pub enum OrderStatus {
    Pending,
    PartiallyPaid,
    Paid,
    Overdue,
}

impl OrderStatus {
    /// Every status, in the order in which the filter lists them.
    pub const ALL: [OrderStatus; 4] = [
        OrderStatus::Pending,
        OrderStatus::PartiallyPaid,
        OrderStatus::Paid,
        OrderStatus::Overdue,
    ];

    /// The stable name of a status.
    pub open spec fn name(self) -> Seq<char> {
        match self {
            OrderStatus::Pending => "pending"@,
            OrderStatus::PartiallyPaid => "partially_paid"@,
            OrderStatus::Paid => "paid"@,
            OrderStatus::Overdue => "overdue"@,
        }
    }

    /// What a person reads for a status.
    pub open spec fn label_text(self) -> Seq<char> {
        match self {
            OrderStatus::Pending => "Pending"@,
            OrderStatus::PartiallyPaid => "Partially paid"@,
            OrderStatus::Paid => "Paid"@,
            OrderStatus::Overdue => "Overdue"@,
        }
    }

    /// The place of a status in [`OrderStatus::ALL`].
    pub open spec fn place(self) -> int {
        match self {
            OrderStatus::Pending => 0,
            OrderStatus::PartiallyPaid => 1,
            OrderStatus::Paid => 2,
            OrderStatus::Overdue => 3,
        }
    }

    /// The stable name.
    pub fn as_str(self) -> (r: &'static str)
        ensures
            r@ == self.name(),
    {
        match self {
            OrderStatus::Pending => "pending",
            OrderStatus::PartiallyPaid => "partially_paid",
            OrderStatus::Paid => "paid",
            OrderStatus::Overdue => "overdue",
        }
    }

    /// What a person reads.
    pub fn label(self) -> (r: &'static str)
        ensures
            r@ == self.label_text(),
    {
        match self {
            OrderStatus::Pending => "Pending",
            OrderStatus::PartiallyPaid => "Partially paid",
            OrderStatus::Paid => "Paid",
            OrderStatus::Overdue => "Overdue",
        }
    }

    /// The place in [`OrderStatus::ALL`].
    pub fn position(self) -> (r: usize)
        ensures
            r == self.place(),
    {
        match self {
            OrderStatus::Pending => 0,
            OrderStatus::PartiallyPaid => 1,
            OrderStatus::Paid => 2,
            OrderStatus::Overdue => 3,
        }
    }
}

/// The status with a given name, if there is one.
pub open spec fn status_named(raw: Seq<char>) -> Option<OrderStatus> {
    if raw == OrderStatus::Pending.name() {
        Some(OrderStatus::Pending)
    } else if raw == OrderStatus::PartiallyPaid.name() {
        Some(OrderStatus::PartiallyPaid)
    } else if raw == OrderStatus::Paid.name() {
        Some(OrderStatus::Paid)
    } else if raw == OrderStatus::Overdue.name() {
        Some(OrderStatus::Overdue)
    } else {
        None
    }
}

impl OrderStatus {
    /// The status with a given name. Anything unrecognised is no status, which a
    /// caller reads as "no filter" rather than as an error.
    pub fn parse(raw: &str) -> (r: Option<Self>)
        ensures
            r == status_named(raw@),
    {
        if text::same_text(raw, OrderStatus::Pending.as_str()) {
            Some(OrderStatus::Pending)
        } else if text::same_text(raw, OrderStatus::PartiallyPaid.as_str()) {
            Some(OrderStatus::PartiallyPaid)
        } else if text::same_text(raw, OrderStatus::Paid.as_str()) {
            Some(OrderStatus::Paid)
        } else if text::same_text(raw, OrderStatus::Overdue.as_str()) {
            Some(OrderStatus::Overdue)
        } else {
            None
        }
    }
}

/// Where an order stands, given its total, what was paid, when it is due, and
/// which day it is.
pub open spec fn status_of(
    total_cents: int,
    paid_cents: int,
    due_date: CalendarDate,
    today: CalendarDate,
) -> OrderStatus {
    if paid_cents >= total_cents {
        OrderStatus::Paid
    } else if due_date.precedes(today) {
        OrderStatus::Overdue
    } else if paid_cents > 0 {
        OrderStatus::PartiallyPaid
    } else {
        OrderStatus::Pending
    }
}

/// Derives an order's status: paid, then overdue, then partially paid, then
/// pending. The only place where this is decided.
///
/// Paid comes first, so a settled invoice stays settled after its due date, and
/// an order with nothing to pay is paid from the moment it exists.
pub fn derive_order_status(
    total_cents: i64,
    paid_cents: i64,
    due_date: CalendarDate,
    today: CalendarDate,
) -> (r: OrderStatus)
    ensures
        r == status_of(total_cents as int, paid_cents as int, due_date, today),
{
    if paid_cents >= total_cents {
        OrderStatus::Paid
    } else if due_date.is_before(today) {
        OrderStatus::Overdue
    } else if paid_cents > 0 {
        OrderStatus::PartiallyPaid
    } else {
        OrderStatus::Pending
    }
}

// ---------------------------------------------------------------------------
// Summaries
// ---------------------------------------------------------------------------

/// One row of the order list.
#[derive(Debug, Clone, PartialEq, Eq)]
pub struct OrderSummary {
    pub id: u128,
    pub customer: String,
    pub due_date: CalendarDate,
    pub total_cents: i64,
    pub paid_cents: i64,
    pub item_count: i64,
    pub status: OrderStatus,
}

/// What is still owed of a total.
pub open spec fn amount_due(total_cents: int, paid_cents: int) -> int {
    cents::clamped(total_cents - paid_cents)
}

impl OrderSummary {
    /// What is still owed, negative for an overpaid order.
    pub fn amount_due_cents(&self) -> (r: i64)
        ensures
            r == amount_due(self.total_cents as int, self.paid_cents as int),
    {
        cents::saturating_difference(self.total_cents, self.paid_cents)
    }
}

/// The counts and amounts above the order list. They always describe every order
/// that the caller owns, never a filtered part of them.
#[derive(Debug, Clone, Copy, PartialEq, Eq)]
pub struct DashboardTotals {
    pub order_count: usize,
    /// Billed across every order, paid or not.
    pub total_cents: i64,
    pub paid_cents: i64,
    /// The sum of each order's own amount due, with an overpaid order counting
    /// as zero: a credit on one invoice is not money towards another.
    pub outstanding_cents: i64,
    /// How many orders sit in each status, in [`OrderStatus::ALL`] order.
    pub by_status: [usize; 4],
}

impl Default for DashboardTotals {
    fn default() -> (r: Self)
        ensures
            r.order_count == 0,
            r.total_cents == 0,
            r.paid_cents == 0,
            r.outstanding_cents == 0,
            r.by_status@ == seq![0usize, 0usize, 0usize, 0usize],
    {
        DashboardTotals {
            order_count: 0,
            total_cents: 0,
            paid_cents: 0,
            outstanding_cents: 0,
            by_status: [0, 0, 0, 0],
        }
    }
}

/// What one order adds to the outstanding amount.
pub open spec fn owed_on(order: OrderSummary) -> int {
    let due = amount_due(order.total_cents as int, order.paid_cents as int);
    if due < 0 { 0 } else { due }
}

/// A running sum over the orders that is pinned at the ends of its range.
pub open spec fn pinned_sum(orders: Seq<OrderSummary>, part: spec_fn(OrderSummary) -> int) -> int
    decreases orders.len(),
{
    if orders.len() == 0 {
        0
    } else {
        cents::clamped(pinned_sum(orders.drop_last(), part) + part(orders.last()))
    }
}

/// The orders that have a given status, in order.
pub open spec fn with_status(orders: Seq<OrderSummary>, status: OrderStatus) -> Seq<OrderSummary> {
    orders.filter(|order: OrderSummary| order.status == status)
}

/// Whether `totals` add up `orders`.
pub open spec fn totals_describe(totals: DashboardTotals, orders: Seq<OrderSummary>) -> bool {
    &&& totals.order_count == orders.len()
    &&& totals.total_cents == pinned_sum(orders, |order: OrderSummary| order.total_cents as int)
    &&& totals.paid_cents == pinned_sum(orders, |order: OrderSummary| order.paid_cents as int)
    &&& totals.outstanding_cents == pinned_sum(orders, |order: OrderSummary| owed_on(order))
    &&& forall|status: OrderStatus|
        totals.by_status@[#[trigger] status.place()] == with_status(orders, status).len()
}

impl DashboardTotals {
    /// How many orders have a given status.
    pub fn count_of(&self, status: OrderStatus) -> (r: usize)
        ensures
            r == self.by_status@[status.place()],
    {
        self.by_status[status.position()]
    }
}

/// Adds up a list of summaries.
///
/// The sums are pinned rather than checked: a page that shows a figure at the
/// end of its range is better than one that shows nothing.
pub fn summarise_orders(orders: &[OrderSummary]) -> (r: DashboardTotals)
    ensures
        totals_describe(r, orders@),
{
    let mut totals = DashboardTotals::default();
    totals.order_count = orders.len();
    let mut i: usize = 0;
    proof {
        reveal(Seq::filter);
    }
    while i < orders.len()
        invariant
            i <= orders@.len(),
            totals.order_count == orders@.len(),
            totals.total_cents == pinned_sum(
                orders@.take(i as int),
                |order: OrderSummary| order.total_cents as int,
            ),
            totals.paid_cents == pinned_sum(
                orders@.take(i as int),
                |order: OrderSummary| order.paid_cents as int,
            ),
            totals.outstanding_cents == pinned_sum(
                orders@.take(i as int),
                |order: OrderSummary| owed_on(order),
            ),
            forall|status: OrderStatus|
                totals.by_status@[#[trigger] status.place()] == with_status(
                    orders@.take(i as int),
                    status,
                ).len(),
        decreases orders@.len() - i,
    {
        let order = &orders[i];
        let ghost counted = totals.by_status@;
        assert(orders@.take(i + 1).drop_last() =~= orders@.take(i as int));
        totals.total_cents = cents::saturating_sum(totals.total_cents, order.total_cents);
        totals.paid_cents = cents::saturating_sum(totals.paid_cents, order.paid_cents);
        let due: i64 = order.amount_due_cents();
        let owed: i64 = if due < 0 { 0 } else { due };
        totals.outstanding_cents = cents::saturating_sum(totals.outstanding_cents, owed);
        let slot: usize = order.status.position();
        proof {
            orders@.take(i as int).lemma_filter_len(
                |each: OrderSummary| each.status == order.status,
            );
        }
        totals.by_status[slot] = totals.by_status[slot] + 1;
        proof {
            reveal(Seq::filter);
            assert forall|status: OrderStatus|
                totals.by_status@[#[trigger] status.place()] == with_status(
                    orders@.take(i + 1),
                    status,
                ).len() by {
                assert(counted[status.place()] == with_status(
                    orders@.take(i as int),
                    status,
                ).len());
            }
        }
        i = i + 1;
    }
    assert(orders@.take(orders@.len() as int) =~= orders@);
    totals
}

/// The orders that a filter keeps: those of one status, or all without one.
pub open spec fn filtered(orders: Seq<OrderSummary>, filter: Option<OrderStatus>) -> Seq<
    OrderSummary,
> {
    match filter {
        Some(status) => with_status(orders, status),
        None => orders,
    }
}

/// Keeps the orders that match `filter`, or all of them when there is none. The
/// only place where the filter is applied.
pub fn filter_by_status(orders: Vec<OrderSummary>, filter: Option<OrderStatus>) -> (r: Vec<
    OrderSummary,
>)
    ensures
        r@ == filtered(orders@, filter),
{
    match filter {
        Some(wanted) => {
            let ghost all = orders@;
            let mut kept: Vec<OrderSummary> = Vec::new();
            proof {
                reveal(Seq::filter);
            }
            for order in it: orders
                invariant
                    it.seq() == all,
                    kept@ == with_status(all.take(it.index() as int), wanted),
            {
                proof {
                    reveal(Seq::filter);
                    assert(all.take(it.index() + 1).drop_last() =~= all.take(it.index() as int));
                }
                if order.status == wanted {
                    kept.push(order);
                }
            }
            assert(all.take(all.len() as int) =~= all);
            kept
        },
        None => orders,
    }
}

// ---------------------------------------------------------------------------
// Dashboard
// ---------------------------------------------------------------------------

/// What the dashboard shows: the whole picture, and the slice being viewed.
#[derive(Debug, Clone, PartialEq, Eq)]
pub struct Dashboard {
    /// Over every order the caller owns, whatever the filter.
    pub totals: DashboardTotals,
    /// The filter that was applied, which is none when the one that was asked
    /// for is not known.
    pub filter: Option<OrderStatus>,
    pub orders: Vec<OrderSummary>,
}

/// The filter that a `?status=` value asks for.
pub open spec fn filter_named(raw: Option<Seq<char>>) -> Option<OrderStatus> {
    match raw {
        Some(name) => status_named(name),
        None => None,
    }
}

/// The filter that a `?status=` value asks for. An absent value and one that
/// names no status are both no filter.
pub fn requested_filter(raw: Option<&str>) -> (r: Option<OrderStatus>)
    ensures
        r == filter_named(
            match raw {
                Some(name) => Some(name@),
                None => None,
            },
        ),
{
    match raw {
        Some(name) => OrderStatus::parse(name),
        None => None,
    }
}

/// The dashboard over every order that a caller owns. The totals are taken
/// before anything is filtered.
pub fn list_orders(all: Vec<OrderSummary>, filter: Option<OrderStatus>) -> (r: Dashboard)
    ensures
        totals_describe(r.totals, all@),
        r.filter == filter,
        r.orders@ == filtered(all@, filter),
{
    let totals = summarise_orders(all.as_slice());
    Dashboard { totals, filter, orders: filter_by_status(all, filter) }
}

// ---------------------------------------------------------------------------
// Laws
// ---------------------------------------------------------------------------

/// Names tell statuses apart, and the name of a status is read as that status
/// and no other.
pub proof fn law_status_names_read_back(status: OrderStatus, raw: Seq<char>)
    ensures
        status_named(status.name()) == Some(status),
        status_named(raw) == Some(status) ==> raw == status.name(),
{
    reveal_strlit("pending");
    reveal_strlit("partially_paid");
    reveal_strlit("paid");
    reveal_strlit("overdue");
    assert("pending"@.len() == 7);
    assert("partially_paid"@.len() == 14);
    assert("paid"@.len() == 4);
    assert("overdue"@.len() == 7);
    assert("pending"@[0] == 'p');
    assert("overdue"@[0] == 'o');
}

/// Every status is listed exactly once, at its own place.
pub proof fn law_every_status_is_listed(status: OrderStatus)
    ensures
        OrderStatus::ALL@.len() == 4,
        OrderStatus::ALL@[status.place()] == status,
        forall|k: int| 0 <= k < 4 && OrderStatus::ALL@[k] == status ==> k == status.place(),
{
}

/// A settled order stays settled, however late it gets.
pub proof fn law_settled_stays_settled(
    total_cents: int,
    paid_cents: int,
    due_date: CalendarDate,
    today: CalendarDate,
)
    ensures
        paid_cents >= total_cents <==> status_of(total_cents, paid_cents, due_date, today)
            == OrderStatus::Paid,
{
}

/// A part payment does not soften an order that is late.
pub proof fn law_late_is_late_whatever_was_paid(
    total_cents: int,
    paid_cents: int,
    due_date: CalendarDate,
    today: CalendarDate,
)
    requires
        paid_cents < total_cents,
    ensures
        status_of(total_cents, paid_cents, due_date, today) == OrderStatus::Overdue
            <==> due_date.precedes(today),
{
}

/// As days pass without a payment, a status stays what it is or becomes overdue.
pub proof fn law_time_only_makes_overdue(
    total_cents: int,
    paid_cents: int,
    due_date: CalendarDate,
    today: CalendarDate,
    later: CalendarDate,
)
    requires
        today.precedes(later),
    ensures
        status_of(total_cents, paid_cents, due_date, later) == status_of(
            total_cents,
            paid_cents,
            due_date,
            today,
        ) || status_of(total_cents, paid_cents, due_date, later) == OrderStatus::Overdue,
{
}

/// A sum over the orders.
pub open spec fn plain_sum(orders: Seq<OrderSummary>, part: spec_fn(OrderSummary) -> int) -> int
    decreases orders.len(),
{
    if orders.len() == 0 {
        0
    } else {
        plain_sum(orders.drop_last(), part) + part(orders.last())
    }
}

/// A pinned sum of amounts that are not negative is their sum, or the largest
/// amount there is.
pub proof fn law_totals_are_sums(orders: Seq<OrderSummary>, part: spec_fn(OrderSummary) -> int)
    requires
        forall|k: int| 0 <= k < orders.len() ==> 0 <= #[trigger] part(orders[k]),
    ensures
        0 <= plain_sum(orders, part),
        pinned_sum(orders, part) == cents::clamped(plain_sum(orders, part)),
    decreases orders.len(),
{
    if orders.len() > 0 {
        assert forall|k: int| 0 <= k < orders.drop_last().len() implies 0 <= #[trigger] part(
            orders.drop_last()[k],
        ) by {
            assert(orders.drop_last()[k] == orders[k]);
        }
        law_totals_are_sums(orders.drop_last(), part);
        assert(0 <= part(orders[orders.len() - 1]));
    }
}

/// A credit never travels: one order owes nothing less than zero, so the
/// outstanding amount is at least what any single order owes.
pub proof fn law_credit_does_not_travel(orders: Seq<OrderSummary>, k: int)
    requires
        0 <= k < orders.len(),
    ensures
        pinned_sum(orders, |order: OrderSummary| owed_on(order)) >= owed_on(orders[k]),
        pinned_sum(orders, |order: OrderSummary| owed_on(order)) >= 0,
{
    let part = |order: OrderSummary| owed_on(order);
    law_totals_are_sums(orders, part);
    lemma_part_of_sum(orders, part, k);
}

proof fn lemma_part_of_sum(orders: Seq<OrderSummary>, part: spec_fn(OrderSummary) -> int, k: int)
    requires
        0 <= k < orders.len(),
        forall|j: int| 0 <= j < orders.len() ==> 0 <= #[trigger] part(orders[j]),
    ensures
        part(orders[k]) <= plain_sum(orders, part),
    decreases orders.len(),
{
    let rest = orders.drop_last();
    assert forall|j: int| 0 <= j < rest.len() implies 0 <= #[trigger] part(rest[j]) by {
        assert(rest[j] == orders[j]);
    }
    law_totals_are_sums(rest, part);
    assert(0 <= part(orders[orders.len() - 1]));
    if k < orders.len() - 1 {
        lemma_part_of_sum(rest, part, k);
        assert(rest[k] == orders[k]);
    }
}

/// The counts by status add up to the number of orders.
pub proof fn law_counts_add_up(orders: Seq<OrderSummary>)
    ensures
        with_status(orders, OrderStatus::Pending).len() + with_status(
            orders,
            OrderStatus::PartiallyPaid,
        ).len() + with_status(orders, OrderStatus::Paid).len() + with_status(
            orders,
            OrderStatus::Overdue,
        ).len() == orders.len(),
    decreases orders.len(),
{
    reveal(Seq::filter);
    if orders.len() > 0 {
        law_counts_add_up(orders.drop_last());
    }
}

/// The number beside a filter is the number of orders behind it.
pub proof fn law_count_is_the_length_of_the_slice(
    totals: DashboardTotals,
    orders: Seq<OrderSummary>,
    status: OrderStatus,
)
    requires
        totals_describe(totals, orders),
    ensures
        totals.by_status@[status.place()] == filtered(orders, Some(status)).len(),
        totals.order_count == filtered(orders, None).len(),
{
}

/// A filtered list holds orders of that status only, none of them is missing,
/// and filtering again changes nothing.
pub proof fn law_filter_keeps_exactly_the_matching(
    orders: Seq<OrderSummary>,
    status: OrderStatus,
    order: OrderSummary,
)
    ensures
        filtered(orders, Some(status)).contains(order) <==> orders.contains(order) && order.status
            == status,
        filtered(filtered(orders, Some(status)), Some(status)) == filtered(orders, Some(status)),
{
    lemma_filter_members(orders, status, order);
    lemma_filter_twice(orders, status);
}

proof fn lemma_filter_members(orders: Seq<OrderSummary>, status: OrderStatus, order: OrderSummary)
    ensures
        with_status(orders, status).contains(order) <==> orders.contains(order) && order.status
            == status,
    decreases orders.len(),
{
    reveal(Seq::filter);
    if orders.len() > 0 {
        let rest = orders.drop_last();
        lemma_filter_members(rest, status, order);
        assert(rest.push(orders.last()) =~= orders);
        broadcast use vstd::seq_lib::group_seq_properties;

        if orders.last().status == status {
            assert(with_status(orders, status) == with_status(rest, status).push(orders.last()));
        }
    }
}

proof fn lemma_filter_twice(orders: Seq<OrderSummary>, status: OrderStatus)
    ensures
        with_status(with_status(orders, status), status) == with_status(orders, status),
    decreases orders.len(),
{
    reveal(Seq::filter);
    if orders.len() > 0 {
        let rest = orders.drop_last();
        lemma_filter_twice(rest, status);
        if orders.last().status == status {
            let kept = with_status(rest, status);
            assert(kept.push(orders.last()).drop_last() =~= kept);
        }
    }
}

/// Whether the orders come soonest due first.
pub open spec fn soonest_first(orders: Seq<OrderSummary>) -> bool {
    forall|i: int, j: int|
        0 <= i < j < orders.len() ==> !(#[trigger] orders[j]).due_date.precedes(
            (#[trigger] orders[i]).due_date,
        )
}

/// A filtered list is in the order of the whole one.
pub proof fn law_filter_keeps_the_order(orders: Seq<OrderSummary>, filter: Option<OrderStatus>)
    requires
        soonest_first(orders),
    ensures
        soonest_first(filtered(orders, filter)),
{
    if let Some(status) = filter {
        lemma_filter_is_sorted(orders, status);
    }
}

proof fn lemma_filter_is_sorted(orders: Seq<OrderSummary>, status: OrderStatus)
    requires
        soonest_first(orders),
    ensures
        soonest_first(with_status(orders, status)),
    decreases orders.len(),
{
    reveal(Seq::filter);
    if orders.len() > 0 {
        let rest = orders.drop_last();
        let kept = with_status(rest, status);
        lemma_filter_is_sorted(rest, status);
        assert forall|i: int| 0 <= i < kept.len() implies !orders.last().due_date.precedes(
            (#[trigger] kept[i]).due_date,
        ) by {
            assert(kept.contains(kept[i]));
            lemma_filter_members(rest, status, kept[i]);
            let k = choose|k: int| 0 <= k < rest.len() && rest[k] == kept[i];
            assert(orders[k] == kept[i]);
            assert(orders[orders.len() - 1] == orders.last());
        }
    }
}

/// Until it is due, an order that is not settled is partially paid exactly if
/// something was paid, and pending otherwise. The day it is due is not late yet.
pub proof fn law_before_it_is_due(
    total_cents: int,
    paid_cents: int,
    due_date: CalendarDate,
    today: CalendarDate,
)
    requires
        paid_cents < total_cents,
        today == due_date || today.precedes(due_date),
    ensures
        paid_cents > 0 <==> status_of(total_cents, paid_cents, due_date, today)
            == OrderStatus::PartiallyPaid,
        paid_cents <= 0 <==> status_of(total_cents, paid_cents, due_date, today)
            == OrderStatus::Pending,
{
}

/// What is paid and what is still owed make up the total, and a credit is owed the
/// other way round. Only a difference that cannot be held is pinned.
pub proof fn law_paid_and_owed_make_up_the_total(total_cents: i64, paid_cents: i64)
    ensures
        i64::MIN <= total_cents - paid_cents <= i64::MAX ==> amount_due(
            total_cents as int,
            paid_cents as int,
        ) + paid_cents == total_cents,
        total_cents - paid_cents > i64::MAX ==> amount_due(total_cents as int, paid_cents as int)
            == i64::MAX,
        total_cents - paid_cents < i64::MIN ==> amount_due(total_cents as int, paid_cents as int)
            == i64::MIN,
{
}

/// The figures over no orders are all zero.
pub proof fn law_no_orders_no_figures(totals: DashboardTotals)
    requires
        totals_describe(totals, Seq::empty()),
    ensures
        totals.order_count == 0,
        totals.total_cents == 0,
        totals.paid_cents == 0,
        totals.outstanding_cents == 0,
        totals.by_status@ =~= seq![0usize, 0usize, 0usize, 0usize],
{
    reveal(Seq::filter);
    assert(totals.by_status@[OrderStatus::Pending.place()] == 0);
    assert(totals.by_status@[OrderStatus::PartiallyPaid.place()] == 0);
    assert(totals.by_status@[OrderStatus::Paid.place()] == 0);
    assert(totals.by_status@[OrderStatus::Overdue.place()] == 0);
}

/// One more order adds one to the number of orders and to its own status, its total
/// to what was billed, what was paid on it to what was paid, and to the outstanding
/// amount what is left of its total, whatever its status. An order that was paid
/// past its total adds nothing there. A figure that cannot be held stays at the end
/// of its range.
pub proof fn law_one_more_order(
    before: DashboardTotals,
    after: DashboardTotals,
    orders: Seq<OrderSummary>,
    order: OrderSummary,
)
    requires
        totals_describe(before, orders),
        totals_describe(after, orders.push(order)),
        order.total_cents - order.paid_cents <= i64::MAX,
    ensures
        after.order_count == before.order_count + 1,
        i64::MIN <= before.total_cents + order.total_cents <= i64::MAX ==> after.total_cents
            == before.total_cents + order.total_cents,
        before.total_cents + order.total_cents > i64::MAX ==> after.total_cents == i64::MAX,
        i64::MIN <= before.paid_cents + order.paid_cents <= i64::MAX ==> after.paid_cents
            == before.paid_cents + order.paid_cents,
        before.paid_cents + order.paid_cents > i64::MAX ==> after.paid_cents == i64::MAX,
        order.paid_cents >= order.total_cents ==> after.outstanding_cents
            == before.outstanding_cents,
        order.paid_cents < order.total_cents && before.outstanding_cents + (order.total_cents
            - order.paid_cents) <= i64::MAX ==> after.outstanding_cents == before.outstanding_cents
            + (order.total_cents - order.paid_cents),
        order.paid_cents < order.total_cents && before.outstanding_cents + (order.total_cents
            - order.paid_cents) > i64::MAX ==> after.outstanding_cents == i64::MAX,
        after.by_status@[0] == before.by_status@[0] + (if order.status == OrderStatus::Pending {
            1int
        } else {
            0int
        }),
        after.by_status@[1] == before.by_status@[1] + (if order.status
            == OrderStatus::PartiallyPaid {
            1int
        } else {
            0int
        }),
        after.by_status@[2] == before.by_status@[2] + (if order.status == OrderStatus::Paid {
            1int
        } else {
            0int
        }),
        after.by_status@[3] == before.by_status@[3] + (if order.status == OrderStatus::Overdue {
            1int
        } else {
            0int
        }),
{
    let all = orders.push(order);
    assert(all.drop_last() =~= orders);
    reveal(Seq::filter);
    law_totals_are_sums(orders, |order: OrderSummary| owed_on(order));
    assert(0 <= before.outstanding_cents);
    let pending = OrderStatus::Pending;
    let part = OrderStatus::PartiallyPaid;
    let paid = OrderStatus::Paid;
    let late = OrderStatus::Overdue;
    assert(after.by_status@[pending.place()] == with_status(all, pending).len());
    assert(after.by_status@[part.place()] == with_status(all, part).len());
    assert(after.by_status@[paid.place()] == with_status(all, paid).len());
    assert(after.by_status@[late.place()] == with_status(all, late).len());
    assert(before.by_status@[pending.place()] == with_status(orders, pending).len());
    assert(before.by_status@[part.place()] == with_status(orders, part).len());
    assert(before.by_status@[paid.place()] == with_status(orders, paid).len());
    assert(before.by_status@[late.place()] == with_status(orders, late).len());
}

/// While no order is paid past its total and nothing is pinned, what was paid and
/// what is outstanding make up what was billed, whatever the orders' statuses.
pub proof fn law_paid_and_outstanding_make_up_the_billed(
    totals: DashboardTotals,
    orders: Seq<OrderSummary>,
)
    requires
        totals_describe(totals, orders),
        forall|k: int|
            0 <= k < orders.len() ==> 0 <= (#[trigger] orders[k]).paid_cents
                <= orders[k].total_cents,
        totals.total_cents < i64::MAX,
    ensures
        totals.outstanding_cents + totals.paid_cents == totals.total_cents,
{
    let total = |order: OrderSummary| order.total_cents as int;
    let paid = |order: OrderSummary| order.paid_cents as int;
    let owed = |order: OrderSummary| owed_on(order);
    law_totals_are_sums(orders, total);
    law_totals_are_sums(orders, paid);
    law_totals_are_sums(orders, owed);
    lemma_parts_of_the_billed(orders);
}

proof fn lemma_parts_of_the_billed(orders: Seq<OrderSummary>)
    requires
        forall|k: int|
            0 <= k < orders.len() ==> 0 <= (#[trigger] orders[k]).paid_cents
                <= orders[k].total_cents,
    ensures
        plain_sum(orders, |order: OrderSummary| owed_on(order)) + plain_sum(
            orders,
            |order: OrderSummary| order.paid_cents as int,
        ) == plain_sum(orders, |order: OrderSummary| order.total_cents as int),
    decreases orders.len(),
{
    if orders.len() > 0 {
        let rest = orders.drop_last();
        assert forall|k: int| 0 <= k < rest.len() implies 0 <= (#[trigger] rest[k]).paid_cents
            <= rest[k].total_cents by {
            assert(rest[k] == orders[k]);
        }
        lemma_parts_of_the_billed(rest);
        assert(orders.last() == orders[orders.len() - 1]);
    }
}

/// A filter is applied exactly if it is asked for by the name of a status.
pub proof fn law_filters_are_asked_for_by_name(raw: Option<Seq<char>>, status: OrderStatus)
    ensures
        filter_named(raw) == Some(status) <==> raw == Some(status.name()),
        raw is None ==> filter_named(raw) is None,
        filtered(Seq::empty(), filter_named(raw)).len() == 0,
{
    law_status_names_read_back(status, status.name());
    if let Some(name) = raw {
        law_status_names_read_back(status, name);
    }
    reveal(Seq::filter);
}

} // verus!
