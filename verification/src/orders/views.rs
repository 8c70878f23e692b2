//! What the pages about orders show.

use vstd::prelude::*;

use crate::app;
use crate::app::{MoneyText, StatusBadge};
use crate::date::CalendarDate;
use crate::error::{AppError, AppErrorView, AppResult};
use crate::ids;
use crate::orders::editor;
use crate::orders::ledger;
use crate::orders::ledger::StoredOrder;
use crate::orders::read;
use crate::orders::read::{OrderDetail, OrderLine, OrderRow};
use crate::orders::status;
use crate::orders::status::{DashboardTotals, OrderStatus, OrderSummary};
use crate::payments;
use crate::payments::{PaymentHistory, PaymentRecord};
use crate::text;

verus! {

/// Whether a badge is that of a status.
pub open spec fn shows_status(badge: StatusBadge, status: OrderStatus) -> bool {
    badge.tone@ == app::tone_of(status.name()) && badge.label@ == status.label_text()
}

// ---------------------------------------------------------------------------
// The status filter
// ---------------------------------------------------------------------------

/// One link in the status filter.
#[derive(Debug, Clone, PartialEq, Eq)]
pub struct FilterLink {
    pub href: String,
    pub label: &'static str,
    pub count: usize,
    /// The count for a reader who only hears the link.
    pub spoken: String,
    /// Whether the link is the filter that was applied.
    pub selected: bool,
}

/// A count of orders, as it is read out behind a link.
pub open spec fn spoken_count(count: nat) -> Seq<char> {
    if count == 1 {
        " (1 order)"@
    } else {
        " ("@ + text::decimal(count) + " orders)"@
    }
}

/// Whether a link is the one for a filter.
pub open spec fn link_for(
    link: FilterLink,
    filter: Option<OrderStatus>,
    totals: DashboardTotals,
    current: Option<OrderStatus>,
) -> bool {
    &&& link.selected == (current == filter)
    &&& link.spoken@ == spoken_count(link.count as nat)
    &&& match filter {
        Some(status) => {
            &&& link.href@ == "/?status="@ + status.name()
            &&& link.label@ == status.label_text()
            &&& link.count == totals.by_status@[status.place()]
        },
        None => {
            &&& link.href@ == "/"@
            &&& link.label@ == "All"@
            &&& link.count == totals.order_count
        },
    }
}

/// A count of orders, as it is read out behind a link.
fn speak_count(count: usize) -> (r: String)
    ensures
        r@ == spoken_count(count as nat),
{
    if count == 1 {
        return " (1 order)".to_owned();
    }
    let mut r = " (".to_owned();
    r.append(text::decimal_text(count as u64).as_str());
    r.append(" orders)");
    r
}

/// The link to one status.
fn status_link(status: OrderStatus, totals: &DashboardTotals, current: Option<OrderStatus>) -> (r:
    FilterLink)
    ensures
        link_for(r, Some(status), *totals, current),
{
    let mut href = "/?status=".to_owned();
    href.append(status.as_str());
    let count: usize = totals.count_of(status);
    let selected = match current {
        Some(other) => other == status,
        None => false,
    };
    FilterLink { href, label: status.label(), count, spoken: speak_count(count), selected }
}

/// The links of the status filter: all orders, then every status. The links are
/// the only record of which filter is applied.
pub fn status_filter(totals: &DashboardTotals, current: Option<OrderStatus>) -> (r: Vec<FilterLink>)
    ensures
        r@.len() == 5,
        link_for(r@[0], None, *totals, current),
        forall|status: OrderStatus|
            link_for(r@[1 + #[trigger] status.place()], Some(status), *totals, current),
{
    let mut links: Vec<FilterLink> = Vec::new();
    links.push(
        FilterLink {
            href: "/".to_owned(),
            label: "All",
            count: totals.order_count,
            spoken: speak_count(totals.order_count),
            selected: current.is_none(),
        },
    );
    links.push(status_link(OrderStatus::Pending, totals, current));
    links.push(status_link(OrderStatus::PartiallyPaid, totals, current));
    links.push(status_link(OrderStatus::Paid, totals, current));
    links.push(status_link(OrderStatus::Overdue, totals, current));
    links
}

// ---------------------------------------------------------------------------
// The dashboard
// ---------------------------------------------------------------------------

/// The four figures above the order list.
#[derive(Debug, Clone, PartialEq, Eq)]
pub struct DashboardTiles {
    pub orders: String,
    pub billed: MoneyText,
    pub paid: MoneyText,
    pub outstanding: MoneyText,
}

impl DashboardTiles {
    /// Shows the totals. Nothing is added up here.
    pub fn new(totals: &DashboardTotals) -> (r: Self)
        ensures
            r.orders@ == text::decimal(totals.order_count as nat),
            app::shows_money(r.billed, totals.total_cents as int),
            app::shows_money(r.paid, totals.paid_cents as int),
            app::shows_money(r.outstanding, totals.outstanding_cents as int),
    {
        DashboardTiles {
            orders: text::decimal_text(totals.order_count as u64),
            billed: MoneyText::new(totals.total_cents),
            paid: MoneyText::new(totals.paid_cents),
            outstanding: MoneyText::new(totals.outstanding_cents),
        }
    }
}

/// Nothing to show, and which of the two reasons it is.
#[derive(Debug, Clone, PartialEq, Eq)]
pub struct EmptyState {
    pub message: String,
    pub link: &'static str,
    pub href: &'static str,
}

/// Says why the list is empty: the caller has no orders, or the filter matches
/// none of them. The two have different next actions.
pub fn empty_state(no_orders_at_all: bool, filter: Option<OrderStatus>) -> (r: EmptyState)
    ensures
        match filter {
            Some(status) if !no_orders_at_all => {
                &&& r.message@ == "No "@ + status.label_text().map_values(
                    |c: char| app::ascii_lower(c),
                ) + " orders."@
                &&& r.link@ == "Show every order"@
                &&& r.href@ == "/"@
            },
            _ => {
                &&& r.message@ == "No orders yet."@
                &&& r.link@ == "Create the first one"@
                &&& r.href@ == "/orders/new"@
            },
        },
{
    match filter {
        Some(status) if !no_orders_at_all => {
            let label = status.label();
            proof {
                lemma_labels_are_ascii(status);
            }
            let mut message = "No ".to_owned();
            message.append(label.to_lowercase().as_str());
            message.append(" orders.");
            EmptyState { message, link: "Show every order", href: "/" }
        },
        _ => EmptyState {
            message: "No orders yet.".to_owned(),
            link: "Create the first one",
            href: "/orders/new",
        },
    }
}

proof fn lemma_labels_are_ascii(status: OrderStatus)
    ensures
        app::all_ascii(status.label_text()),
{
    reveal_strlit("Pending");
    reveal_strlit("Partially paid");
    reveal_strlit("Paid");
    reveal_strlit("Overdue");
}

/// One row of the order table.
#[derive(Debug, Clone, PartialEq, Eq)]
pub struct OrderTableRow {
    pub status: &'static str,
    pub href: String,
    pub customer: String,
    pub due: String,
    pub badge: StatusBadge,
    pub item_count: i64,
    pub total: MoneyText,
    pub paid: MoneyText,
    pub amount_due: MoneyText,
}

/// Whether a row of the table shows an order.
pub open spec fn shows_order(row: OrderTableRow, order: OrderSummary) -> bool {
    &&& row.status@ == order.status.name()
    &&& row.href@ == editor::order_path_text(order.id)
    &&& row.customer@ == order.customer@
    &&& row.due@ == order.due_date.text()
    &&& shows_status(row.badge, order.status)
    &&& row.item_count == order.item_count
    &&& app::shows_money(row.total, order.total_cents as int)
    &&& app::shows_money(row.paid, order.paid_cents as int)
    &&& app::shows_money(
        row.amount_due,
        status::amount_due(order.total_cents as int, order.paid_cents as int),
    )
}

/// The order table, one row per order and in the same order.
pub fn order_table(orders: &[OrderSummary]) -> (r: Vec<OrderTableRow>)
    requires
        forall|i: int| 0 <= i < orders@.len() ==> (#[trigger] orders@[i]).due_date.wf(),
    ensures
        r@.len() == orders@.len(),
        forall|i: int| 0 <= i < r@.len() ==> shows_order(#[trigger] r@[i], orders@[i]),
{
    let mut rows: Vec<OrderTableRow> = Vec::new();
    let mut i: usize = 0;
    while i < orders.len()
        invariant
            i <= orders@.len(),
            rows@.len() == i,
            forall|j: int| 0 <= j < orders@.len() ==> (#[trigger] orders@[j]).due_date.wf(),
            forall|j: int| 0 <= j < i ==> shows_order(#[trigger] rows@[j], orders@[j]),
        decreases orders@.len() - i,
    {
        let order = &orders[i];
        rows.push(
            OrderTableRow {
                status: order.status.as_str(),
                href: editor::order_path(order.id),
                customer: order.customer.clone(),
                due: order.due_date.to_string(),
                badge: StatusBadge::of(order.status),
                item_count: order.item_count,
                total: MoneyText::new(order.total_cents),
                paid: MoneyText::new(order.paid_cents),
                amount_due: MoneyText::new(order.amount_due_cents()),
            },
        );
        i = i + 1;
    }
    rows
}

// ---------------------------------------------------------------------------
// One order
// ---------------------------------------------------------------------------

/// One line of the order's page.
#[derive(Debug, Clone, PartialEq, Eq)]
pub struct DetailLine {
    pub description: String,
    pub quantity: i64,
    pub unit_price: MoneyText,
    pub line_total: MoneyText,
}

/// Whether a line of the page shows a line of the order.
pub open spec fn shows_line(shown: DetailLine, line: OrderLine) -> bool {
    &&& shown.description@ == line.description@
    &&& shown.quantity == line.quantity
    &&& app::shows_money(shown.unit_price, line.unit_price_cents as int)
    &&& app::shows_money(shown.line_total, line.line_total_cents as int)
}

/// The order's page.
#[derive(Debug, Clone, PartialEq, Eq)]
pub struct OrderDetailView {
    pub customer: String,
    pub due: String,
    pub badge: StatusBadge,
    pub lines: Vec<DetailLine>,
    pub total: MoneyText,
    pub paid: MoneyText,
    pub amount_due: MoneyText,
    pub history: Option<PaymentHistory>,
    /// Why the order can no longer be changed, if it cannot.
    pub notice: Option<&'static str>,
    /// The largest payment that the form offers, or none where a statement that
    /// nothing is owed takes its place.
    pub payable_cents: Option<i64>,
    /// Where the order can be edited, together with a way to delete it, while
    /// either is possible.
    pub edit_href: Option<String>,
}

/// Whether a page shows an order.
pub open spec fn shows_detail(page: OrderDetailView, order: OrderDetail) -> bool {
    let maximum = payments::maximum_payment(order.total_cents as int, order.paid_cents as int);
    &&& page.customer@ == order.customer@
    &&& page.due@ == order.due_date.text()
    &&& shows_status(page.badge, order.status)
    &&& page.lines@.len() == order.items@.len()
    &&& forall|i: int|
        0 <= i < page.lines@.len() ==> shows_line(#[trigger] page.lines@[i], order.items@[i])
    &&& app::shows_money(page.total, order.total_cents as int)
    &&& app::shows_money(page.paid, order.paid_cents as int)
    &&& app::shows_money(
        page.amount_due,
        status::amount_due(order.total_cents as int, order.paid_cents as int),
    )
    &&& match page.history {
        Some(history) => {
            &&& order.payments@.len() > 0
            &&& history.rows@.len() == order.payments@.len()
            &&& forall|i: int|
                0 <= i < order.payments@.len() ==> payments::shows_payment(
                    #[trigger] history.rows@[i],
                    order.payments@[i],
                )
            &&& history.count@ == payments::count_text(order.payments@.len())
            &&& app::shows_money(history.paid, order.paid_cents as int)
        },
        None => order.payments@.len() == 0,
    }
    &&& match page.notice {
        Some(notice) => !order.editable && notice@
            == "This order has payments recorded against it and can no longer be changed."@,
        None => order.editable,
    }
    &&& match page.payable_cents {
        Some(cents) => cents > 0 && cents == maximum,
        None => maximum == 0,
    }
    &&& match page.edit_href {
        Some(href) => order.editable && href@ == editor::order_path_text(order.id) + "/edit"@,
        None => !order.editable,
    }
}

/// The lines of the order's page.
fn detail_lines(items: &Vec<OrderLine>) -> (r: Vec<DetailLine>)
    ensures
        r@.len() == items@.len(),
        forall|i: int| 0 <= i < r@.len() ==> shows_line(#[trigger] r@[i], items@[i]),
{
    let mut lines: Vec<DetailLine> = Vec::new();
    let mut i: usize = 0;
    while i < items.len()
        invariant
            i <= items@.len(),
            lines@.len() == i,
            forall|j: int| 0 <= j < i ==> shows_line(#[trigger] lines@[j], items@[j]),
        decreases items@.len() - i,
    {
        let line = &items[i];
        lines.push(
            DetailLine {
                description: line.description.clone(),
                quantity: line.quantity,
                unit_price: MoneyText::new(line.unit_price_cents),
                line_total: MoneyText::new(line.line_total_cents),
            },
        );
        i = i + 1;
    }
    lines
}

impl OrderDetailView {
    /// Shows an order. The limit that the payment form offers comes from the
    /// function that a transaction decides by.
    pub fn new(order: &OrderDetail) -> (r: Self)
        requires
            order.due_date.wf(),
            forall|i: int|
                0 <= i < order.payments@.len() ==> (#[trigger] order.payments@[i]).paid_on.wf(),
        ensures
            shows_detail(r, *order),
    {
        let maximum_cents: i64 = payments::calculate_maximum_payment_cents(
            order.total_cents,
            order.paid_cents,
        );
        let edit_href = if order.editable {
            let mut href = editor::order_path(order.id);
            href.append("/edit");
            Some(href)
        } else {
            None
        };
        OrderDetailView {
            customer: order.customer.clone(),
            due: order.due_date.to_string(),
            badge: StatusBadge::of(order.status),
            lines: detail_lines(&order.items),
            total: MoneyText::new(order.total_cents),
            paid: MoneyText::new(order.paid_cents),
            amount_due: MoneyText::new(order.amount_due_cents()),
            history: PaymentHistory::new(order.payments.as_slice(), order.paid_cents),
            notice: if order.editable {
                None
            } else {
                Some("This order has payments recorded against it and can no longer be changed.")
            },
            payable_cents: if maximum_cents > 0 { Some(maximum_cents) } else { None },
            edit_href,
        }
    }
}

/// The order to edit, or the reason why there is no form: it could not be read,
/// or it has payments.
pub fn edit_page(order: AppResult<OrderDetail>) -> (r: AppResult<OrderDetail>)
    ensures
        match order {
            Ok(order) => if order.editable {
                r == Ok::<OrderDetail, AppError>(order)
            } else {
                r matches Err(error) && error@ == AppErrorView::OrderHasPayments
            },
            Err(_) => r == order,
        },
{
    match order {
        Ok(order) => if order.editable {
            Ok(order)
        } else {
            Err(AppError::OrderHasPayments)
        },
        Err(error) => Err(error),
    }
}

/// The order that a page is about, given what its address was read as. An address
/// that names no order gets the answer for an order that does not exist.
pub fn page_order(found: Option<u128>) -> (r: AppResult<u128>)
    ensures
        match found {
            Some(id) => r == Ok::<u128, AppError>(id),
            None => r matches Err(error) && error@ == AppErrorView::NotFound,
        },
{
    match found {
        Some(id) => Ok(id),
        None => Err(AppError::NotFound),
    }
}

/// The order that the last segment of an address names.
pub fn use_order_id(raw: Option<&str>) -> (r: Option<u128>)
    ensures
        match raw {
            Some(raw) => r == ids::parsed_id(raw@) && forall|id: u128|
                raw@ == #[trigger] ids::id_text(id) ==> r == Some(id),
            None => r is None,
        },
{
    match raw {
        Some(raw) => ids::find_id(raw),
        None => None,
    }
}

// ---------------------------------------------------------------------------
// Laws
// ---------------------------------------------------------------------------

/// A payment form is offered exactly while something is owed, and it offers as
/// much as a payment can be accepted for.
pub proof fn law_form_offers_what_is_accepted(page: OrderDetailView, order: OrderDetail, amount: int)
    requires
        shows_detail(page, order),
        0 < amount,
    ensures
        page.payable_cents matches Some(most) ==> (payments::payment_refusal(
            order.total_cents as int,
            order.paid_cents as int,
            amount,
        ) is None <==> amount <= most),
        page.payable_cents is None ==> payments::payment_refusal(
            order.total_cents as int,
            order.paid_cents as int,
            amount,
        ) is Some,
{
}

/// The page of a stored order shows its payments newest first, each exactly once,
/// and under them what they add up to. Without payments it shows no history.
pub proof fn law_page_shows_payments_newest_first(
    orders: Map<u128, StoredOrder>,
    owner: Seq<char>,
    id: u128,
    row: OrderRow,
    items: Vec<OrderLine>,
    payments: Vec<PaymentRecord>,
    today: CalendarDate,
    page: OrderDetailView,
)
    requires
        ledger::all_sound(orders),
        read::reads_return(orders, owner, id, Some(row), items@, payments@),
        shows_detail(page, read::detail_on(row, items, payments, today)),
    ensures
        page.history is None <==> orders[id].payments.len() == 0,
        page.history matches Some(history) ==> {
            &&& history.rows@.len() == orders[id].payments.len()
            &&& forall|i: int|
                0 <= i < history.rows@.len() ==> payments::shows_payment(
                    #[trigger] history.rows@[i],
                    payments@[i],
                )
            &&& payments::newest_first(payments@)
            &&& read::as_stored(payments@).to_multiset() == orders[id].payments.to_multiset()
            &&& app::shows_money(history.paid, ledger::paid_in_all(orders[id].payments))
        },
{
    broadcast use vstd::seq_lib::group_to_multiset_ensures;

    let stored = read::as_stored(payments@);
    assert(stored.len() == stored.to_multiset().len());
    assert(orders[id].payments.len() == orders[id].payments.to_multiset().len());
}

/// Exactly one link of the filter is marked as current.
pub proof fn law_one_filter_is_current(
    links: Seq<FilterLink>,
    totals: DashboardTotals,
    current: Option<OrderStatus>,
    i: int,
)
    requires
        links.len() == 5,
        link_for(links[0], None, totals, current),
        forall|status: OrderStatus|
            link_for(links[1 + #[trigger] status.place()], Some(status), totals, current),
        0 <= i < 5,
    ensures
        links[i].selected <==> i == match current {
            Some(status) => 1 + status.place(),
            None => 0,
        },
{
    assert(link_for(
        links[1 + OrderStatus::Pending.place()],
        Some(OrderStatus::Pending),
        totals,
        current,
    ));
    assert(link_for(
        links[1 + OrderStatus::PartiallyPaid.place()],
        Some(OrderStatus::PartiallyPaid),
        totals,
        current,
    ));
    assert(link_for(
        links[1 + OrderStatus::Paid.place()],
        Some(OrderStatus::Paid),
        totals,
        current,
    ));
    assert(link_for(
        links[1 + OrderStatus::Overdue.place()],
        Some(OrderStatus::Overdue),
        totals,
        current,
    ));
}

/// The table shows of each order what it owes, what it came to and what was paid, and
/// where it stands, and links to its own page.
pub proof fn law_table_shows_the_order(row: OrderTableRow, order: OrderSummary)
    requires
        shows_order(row, order),
        i64::MIN <= order.total_cents - order.paid_cents <= i64::MAX,
    ensures
        row.total.cents == order.total_cents,
        row.paid.cents == order.paid_cents,
        row.amount_due.cents + row.paid.cents == row.total.cents,
        row.amount_due.negative <==> order.paid_cents > order.total_cents,
        row.total.text@ == app::money_text(order.total_cents as int),
        row.paid.text@ == app::money_text(order.paid_cents as int),
        row.amount_due.text@ == app::money_text(order.total_cents - order.paid_cents),
        row.customer@ == order.customer@,
        row.due@ == order.due_date.text(),
        row.item_count == order.item_count,
        row.status@ == order.status.name(),
        row.badge.label@ == order.status.label_text(),
        row.href@ == "/orders/"@ + ids::id_text(order.id),
{
}

/// The page shows of an order what it owes, what it came to and what was paid, where
/// it stands, and every line in its place. It offers a payment of what is owed while
/// something is, and a way to edit the order while it can be edited.
pub proof fn law_page_shows_the_order(page: OrderDetailView, order: OrderDetail)
    requires
        shows_detail(page, order),
        i64::MIN <= order.total_cents - order.paid_cents <= i64::MAX,
    ensures
        page.total.cents == order.total_cents,
        page.paid.cents == order.paid_cents,
        page.amount_due.cents + page.paid.cents == page.total.cents,
        page.total.text@ == app::money_text(order.total_cents as int),
        page.paid.text@ == app::money_text(order.paid_cents as int),
        page.amount_due.text@ == app::money_text(order.total_cents - order.paid_cents),
        page.customer@ == order.customer@,
        page.due@ == order.due_date.text(),
        page.badge.label@ == order.status.label_text(),
        page.lines@.len() == order.items@.len(),
        forall|i: int|
            0 <= i < order.items@.len() ==> {
                let shown = #[trigger] page.lines@[i];
                let line = order.items@[i];
                &&& shown.description@ == line.description@
                &&& shown.quantity == line.quantity
                &&& shown.unit_price.cents == line.unit_price_cents
                &&& shown.line_total.cents == line.line_total_cents
                &&& shown.unit_price.text@ == app::money_text(line.unit_price_cents as int)
                &&& shown.line_total.text@ == app::money_text(line.line_total_cents as int)
            },
        page.payable_cents is Some <==> order.paid_cents < order.total_cents,
        page.payable_cents matches Some(cents) ==> cents == order.total_cents - order.paid_cents,
        page.edit_href is Some <==> order.editable,
        page.notice is None <==> order.editable,
{
    assert forall|i: int| 0 <= i < order.items@.len() implies shows_line(
        #[trigger] page.lines@[i],
        order.items@[i],
    ) by {}
}

/// A row of the history shows the day and the amount of its payment.
pub proof fn law_history_shows_the_payment(
    row: payments::PaymentHistoryRow,
    payment: PaymentRecord,
)
    requires
        payments::shows_payment(row, payment),
    ensures
        row.paid_on@ == payment.paid_on.text(),
        row.amount.cents == payment.amount_cents,
        row.amount.text@ == app::money_text(payment.amount_cents as int),
{
}

/// The number beside a link of the filter is the number of orders that the link leads
/// to, and the link asks for the filter it stands for.
pub proof fn law_links_count_what_they_lead_to(
    link: FilterLink,
    filter: Option<OrderStatus>,
    totals: DashboardTotals,
    orders: Seq<OrderSummary>,
    current: Option<OrderStatus>,
)
    requires
        link_for(link, filter, totals, current),
        status::totals_describe(totals, orders),
    ensures
        link.count == status::filtered(orders, filter).len(),
        filter matches Some(wanted) ==> link.href@.skip("/?status="@.len() as int) == wanted.name()
            && status::filter_named(Some(link.href@.skip("/?status="@.len() as int))) == filter,
        filter is None ==> link.href@ == "/"@,
        link.selected <==> current == filter,
{
    if let Some(wanted) = filter {
        status::law_count_is_the_length_of_the_slice(totals, orders, wanted);
        status::law_status_names_read_back(wanted, wanted.name());
        assert(link.href@.skip("/?status="@.len() as int) =~= wanted.name());
    }
}

} // verus!
