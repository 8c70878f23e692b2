//! What the transactions amount to together.
//!
//! A model of the stored orders and of any number of transactions that run at
//! the same time, one statement of one transaction after the other. A statement
//! sees what was committed and what its own transaction wrote. Locking a row
//! waits for whoever holds it, any statement may fail, and a transaction that
//! ends without a commit leaves nothing behind.

use vstd::prelude::*;

use crate::date::CalendarDate;
use crate::error::{AppErrorView, DatabaseFailure};
use crate::orders::store;
use crate::orders::store::{
    ItemRowView, Outcome, Reply, Stage, StatementView, TransactionView, WorkView,
};
use crate::orders::validate;
use crate::orders::validate::{ValidatedItemView, ValidatedOrderView};
use crate::payments;
use crate::payments::ValidatedPayment;

verus! {

// ---------------------------------------------------------------------------
// What is stored
// ---------------------------------------------------------------------------

/// One stored payment.
pub struct StoredPayment {
    pub id: u128,
    pub payment: ValidatedPayment,
}

/// One stored order, with its line items in position order and its payments in
/// the order in which they were recorded.
#[verifier::ext_equal]
pub struct StoredOrder {
    pub owner: Seq<char>,
    pub customer: Seq<char>,
    pub due_date: CalendarDate,
    pub total_cents: int,
    pub items: Seq<ValidatedItemView>,
    pub payments: Seq<StoredPayment>,
}

/// What was paid in all.
pub open spec fn paid_in_all(payments: Seq<StoredPayment>) -> int
    decreases payments.len(),
{
    if payments.len() == 0 {
        0
    } else {
        paid_in_all(payments.drop_last()) + payments.last().payment.amount_cents
    }
}

/// Whether one of the payments has this identifier.
pub open spec fn id_taken(payments: Seq<StoredPayment>, id: u128) -> bool {
    exists|i: int| 0 <= i < payments.len() && (#[trigger] payments[i]).id == id
}

impl StoredOrder {
    /// What holds of every stored order: its total is the sum of its lines, every
    /// payment is of something and has an identifier of its own, and the payments
    /// do not exceed the total.
    pub open spec fn sound(self) -> bool {
        &&& forall|i: int| 0 <= i < self.items.len() ==> (#[trigger] self.items[i]).wf()
        &&& self.total_cents == validate::sum_of_lines(self.items)
        &&& 0 <= self.total_cents <= i64::MAX
        &&& forall|i: int|
            0 <= i < self.payments.len() ==> (#[trigger] self.payments[i]).payment.wf()
        &&& forall|i: int, j: int|
            0 <= i < j < self.payments.len() ==> (#[trigger] self.payments[i]).id != (
            #[trigger] self.payments[j]).id
        &&& paid_in_all(self.payments) <= self.total_cents
    }
}

/// An order as it is stored without its line items.
pub open spec fn header(
    owner: Seq<char>,
    order: ValidatedOrderView,
    payments: Seq<StoredPayment>,
) -> StoredOrder {
    StoredOrder {
        owner,
        customer: order.customer,
        due_date: order.due_date,
        total_cents: order.total_cents,
        items: Seq::empty(),
        payments,
    }
}

// ---------------------------------------------------------------------------
// Transactions at work
// ---------------------------------------------------------------------------

/// What a transaction has written to its order so far, seen by nobody else.
pub enum Draft {
    Untouched,
    Written(StoredOrder),
    Removed,
}

/// A transaction at work.
pub struct Session {
    pub tx: TransactionView,
    /// Whether it holds the lock on its order's row.
    pub holds: bool,
    pub draft: Draft,
}

/// The stored orders, who holds the lock on which of them, and the transactions
/// at work.
pub struct World {
    pub orders: Map<u128, StoredOrder>,
    pub locks: Map<u128, nat>,
    pub sessions: Map<nat, Session>,
}

impl Session {
    /// The order that the transaction is about.
    pub open spec fn order_id(self) -> u128 {
        self.tx.work.order_id()
    }
}

/// The order as the transaction sees it.
pub open spec fn seen(w: World, s: Session) -> Option<StoredOrder> {
    match s.draft {
        Draft::Untouched => if w.orders.contains_key(s.order_id()) {
            Some(w.orders[s.order_id()])
        } else {
            None
        },
        Draft::Written(order) => Some(order),
        Draft::Removed => None,
    }
}

/// What the database replies to the statement that a transaction waits for, when
/// it does not fail. Nothing while somebody else holds the lock.
pub open spec fn reply_to(w: World, s: Session) -> Option<Reply> {
    match store::statement_of(s.tx) {
        StatementView::LockOrder { owner, order_id } => if !w.orders.contains_key(order_id)
            || w.orders[order_id].owner != owner {
            Some(Reply::Exists(false))
        } else if w.locks.contains_key(order_id) {
            None
        } else {
            Some(Reply::Exists(true))
        },
        StatementView::CheckPayments { .. } => Some(
            Reply::Exists(seen(w, s) matches Some(order) && order.payments.len() > 0),
        ),
        StatementView::ReadTotal { .. } => Some(
            Reply::Amount(
                match seen(w, s) {
                    Some(order) => Some(order.total_cents as i64),
                    None => None,
                },
            ),
        ),
        StatementView::SumPayments { .. } => Some(
            Reply::Amount(
                match seen(w, s) {
                    Some(order) => Some(paid_in_all(order.payments) as i64),
                    None => Some(0i64),
                },
            ),
        ),
        StatementView::InsertOrder { order_id, .. } => if w.orders.contains_key(order_id)
            || w.locks.contains_key(order_id) {
            Some(Reply::Failed(DatabaseFailure::Rejected))
        } else {
            Some(Reply::Done)
        },
        StatementView::InsertPayment { payment_id, .. } => match seen(w, s) {
            Some(order) => if id_taken(order.payments, payment_id) {
                Some(Reply::Failed(DatabaseFailure::Rejected))
            } else {
                Some(Reply::Done)
            },
            None => Some(Reply::Failed(DatabaseFailure::Rejected)),
        },
        _ => Some(Reply::Done),
    }
}

/// What the transaction has written once its statement is carried out.
pub open spec fn draft_after(w: World, s: Session) -> Draft {
    match (store::statement_of(s.tx), seen(w, s)) {
        (StatementView::InsertOrder { owner, order, .. }, _) => Draft::Written(
            header(owner, order, Seq::empty()),
        ),
        (StatementView::UpdateOrder { order, .. }, Some(old)) => Draft::Written(
            StoredOrder {
                customer: order.customer,
                due_date: order.due_date,
                total_cents: order.total_cents,
                ..old
            },
        ),
        (StatementView::DeleteItems { .. }, Some(old)) => Draft::Written(
            StoredOrder { items: Seq::empty(), ..old },
        ),
        (StatementView::InsertItems { rows, .. }, Some(old)) => Draft::Written(
            StoredOrder {
                items: old.items + store::in_position_order(rows).map_values(
                    |row: ItemRowView| row.item,
                ),
                ..old
            },
        ),
        (StatementView::DeleteOrder { .. }, _) => Draft::Removed,
        (StatementView::InsertPayment { payment_id, payment, .. }, Some(old)) => Draft::Written(
            StoredOrder {
                payments: old.payments.push(StoredPayment { id: payment_id, payment }),
                ..old
            },
        ),
        _ => s.draft,
    }
}

/// Whether the transaction holds the lock once its statement was replied to.
pub open spec fn holds_after(s: Session, reply: Reply) -> bool {
    s.holds || s.tx.stage == Stage::LockOrder && reply == Reply::Exists(true) || s.tx.stage
        == Stage::InsertOrder && reply == Reply::Done
}

/// The stored orders with what a transaction wrote.
pub open spec fn applied(orders: Map<u128, StoredOrder>, order_id: u128, draft: Draft) -> Map<
    u128,
    StoredOrder,
> {
    match draft {
        Draft::Untouched => orders,
        Draft::Written(order) => orders.insert(order_id, order),
        Draft::Removed => orders.remove(order_id),
    }
}

/// Whether a transaction may get this reply: the database's own, or a failure.
pub open spec fn may_reply(w: World, s: Session, reply: Reply) -> bool {
    reply is Failed || reply_to(w, s) == Some(reply)
}

/// One statement of the transaction `n` is run and replied to.
///
/// A commit that is reported as failed may have taken place or not.
pub open spec fn statement_runs(w: World, w2: World, n: nat, reply: Reply) -> bool {
    let s = w.sessions[n];
    let id = s.order_id();
    &&& w.sessions.contains_key(n)
    &&& may_reply(w, s, reply)
    &&& match store::outcome(s.tx, reply) {
        Outcome::Next(stage) => {
            let next = Session {
                tx: TransactionView { work: s.tx.work, stage },
                holds: holds_after(s, reply),
                draft: draft_after(w, s),
            };
            &&& w2.orders == w.orders
            &&& w2.locks == (if next.holds { w.locks.insert(id, n) } else { w.locks })
            &&& w2.sessions == w.sessions.insert(n, next)
        },
        Outcome::End(_) => {
            &&& w2.locks == (if s.holds { w.locks.remove(id) } else { w.locks })
            &&& w2.sessions == w.sessions.remove(n)
            &&& if s.tx.stage == Stage::Commit {
                if reply == Reply::Done {
                    w2.orders == applied(w.orders, id, s.draft)
                } else {
                    w2.orders == w.orders || w2.orders == applied(w.orders, id, s.draft)
                }
            } else {
                w2.orders == w.orders
            }
        },
    }
}

/// Whether the work is for an order or a payment that has survived validation.
pub open spec fn validated(work: WorkView) -> bool {
    match work {
        WorkView::Create { order, .. } => order.wf(),
        WorkView::Replace { order, .. } => order.wf(),
        WorkView::Delete { .. } => true,
        WorkView::Pay { payment, .. } => payment.wf(),
    }
}

/// A transaction begins.
pub open spec fn begins(w: World, w2: World, n: nat, work: WorkView) -> bool {
    &&& !w.sessions.contains_key(n)
    &&& validated(work)
    &&& w2.orders == w.orders
    &&& w2.locks == w.locks
    &&& w2.sessions == w.sessions.insert(
        n,
        Session {
            tx: TransactionView { work, stage: Stage::Begin },
            holds: false,
            draft: Draft::Untouched,
        },
    )
}

/// One thing happens: a transaction begins, or one of its statements runs.
pub open spec fn step(w: World, w2: World) -> bool {
    ||| exists|n: nat, reply: Reply| #[trigger] statement_runs(w, w2, n, reply)
    ||| exists|n: nat, work: WorkView| #[trigger] begins(w, w2, n, work)
}

// ---------------------------------------------------------------------------
// What always holds
// ---------------------------------------------------------------------------

/// The change that a piece of work makes to the stored orders.
pub open spec fn change(orders: Map<u128, StoredOrder>, work: WorkView) -> Draft {
    match work {
        WorkView::Create { owner, order, .. } => Draft::Written(
            StoredOrder { items: order.items, ..header(owner, order, Seq::empty()) },
        ),
        WorkView::Replace { owner, order_id, order } => Draft::Written(
            StoredOrder {
                items: order.items,
                ..header(owner, order, orders[order_id].payments)
            },
        ),
        WorkView::Delete { .. } => Draft::Removed,
        WorkView::Pay { order_id, payment_id, payment, .. } => Draft::Written(
            StoredOrder {
                payments: orders[order_id].payments.push(
                    StoredPayment { id: payment_id, payment },
                ),
                ..orders[order_id]
            },
        ),
    }
}

/// Whether the work is about a stored order that belongs to whoever asked.
pub open spec fn owned(orders: Map<u128, StoredOrder>, work: WorkView) -> bool {
    orders.contains_key(work.order_id()) && orders[work.order_id()].owner == work.owner()
}

/// Whether the work is about an order of whoever asked that has room for the
/// payment.
pub open spec fn has_room(orders: Map<u128, StoredOrder>, work: WorkView) -> bool {
    let order = orders[work.order_id()];
    &&& owned(orders, work)
    &&& work matches WorkView::Pay { payment, .. } && paid_in_all(order.payments)
        + payment.amount_cents <= order.total_cents
}

/// Whether the stored orders let the work go ahead: a new order has an unused
/// identifier, and an existing one is the caller's own and has no payments, or
/// room for the new one under an unused identifier.
pub open spec fn allowed(orders: Map<u128, StoredOrder>, work: WorkView) -> bool {
    match work {
        WorkView::Create { order_id, .. } => !orders.contains_key(order_id),
        WorkView::Replace { order_id, .. } => owned(orders, work)
            && orders[order_id].payments.len() == 0,
        WorkView::Delete { order_id, .. } => owned(orders, work)
            && orders[order_id].payments.len() == 0,
        WorkView::Pay { order_id, payment_id, .. } => has_room(orders, work) && !id_taken(
            orders[order_id].payments,
            payment_id,
        ),
    }
}

/// What a transaction knows at each stage, and what it has written by then.
pub open spec fn at_stage(orders: Map<u128, StoredOrder>, s: Session) -> bool {
    let work = s.tx.work;
    match s.tx.stage {
        Stage::Begin => !s.holds && s.draft is Untouched,
        Stage::LockOrder => !s.holds && s.draft is Untouched,
        Stage::InsertOrder => !s.holds && s.draft is Untouched,
        Stage::CheckPayments => s.holds && s.draft is Untouched && owned(orders, work),
        Stage::ReadTotal => s.holds && s.draft is Untouched && owned(orders, work),
        Stage::SumPayments { total_cents } => s.holds && s.draft is Untouched && owned(orders, work)
            && orders[work.order_id()].total_cents == total_cents,
        Stage::UpdateOrder => s.holds && s.draft is Untouched && allowed(orders, work),
        Stage::DeleteOrder => s.holds && s.draft is Untouched && allowed(orders, work),
        Stage::InsertPayment => s.holds && s.draft is Untouched && has_room(orders, work),
        Stage::DeleteItems => s.holds && allowed(orders, work) && (s.draft matches Draft::Written(
            order,
        ) && change(orders, work) == Draft::Written(
            StoredOrder { items: store::written_items(work), ..order },
        )),
        Stage::InsertItems => s.holds && allowed(orders, work) && (s.draft matches Draft::Written(
            order,
        ) && order.items == Seq::<ValidatedItemView>::empty() && change(orders, work)
            == Draft::Written(StoredOrder { items: store::written_items(work), ..order })),
        Stage::Commit => s.holds && allowed(orders, work) && s.draft == change(orders, work),
    }
}

/// Whether the transaction `n` is where it should be, and the locks agree with
/// what it holds.
pub open spec fn session_ok(w: World, n: nat) -> bool {
    let s = w.sessions[n];
    &&& s.tx.wf()
    &&& validated(s.tx.work)
    &&& s.holds <==> w.locks.contains_key(s.order_id()) && w.locks[s.order_id()] == n
    &&& at_stage(w.orders, s)
}

/// Whether every stored order is sound.
pub open spec fn all_sound(orders: Map<u128, StoredOrder>) -> bool {
    forall|id: u128| orders.contains_key(id) ==> (#[trigger] orders[id]).sound()
}

/// What holds in every world that is ever reached.
pub open spec fn consistent(w: World) -> bool {
    &&& all_sound(w.orders)
    &&& forall|n: nat| w.sessions.contains_key(n) ==> #[trigger] session_ok(w, n)
    &&& forall|id: u128| #[trigger]
        w.locks.contains_key(id) ==> {
            &&& w.sessions.contains_key(w.locks[id])
            &&& w.sessions[w.locks[id]].holds
            &&& w.sessions[w.locks[id]].order_id() == id
        }
}

/// A world in which nothing is going on.
pub open spec fn at_rest(w: World) -> bool {
    all_sound(w.orders) && w.locks == Map::<u128, nat>::empty() && w.sessions == Map::<
        nat,
        Session,
    >::empty()
}

/// A change that is allowed leaves every order sound.
proof fn lemma_change_is_sound(orders: Map<u128, StoredOrder>, work: WorkView)
    requires
        all_sound(orders),
        validated(work),
        allowed(orders, work),
    ensures
        all_sound(applied(orders, work.order_id(), change(orders, work))),
{
    let id = work.order_id();
    let after = applied(orders, id, change(orders, work));
    match work {
        WorkView::Create { order, .. } => {
            assert(after[id].sound());
        },
        WorkView::Replace { order, .. } => {
            assert(orders[id].sound());
            assert(after[id].sound());
        },
        WorkView::Delete { .. } => {},
        WorkView::Pay { payment_id, payment, .. } => {
            assert(orders[id].sound());
            let old = orders[id].payments;
            let new = after[id].payments;
            assert(new.drop_last() =~= old);
            assert(paid_in_all(new) == paid_in_all(old) + payment.amount_cents);
            assert(after[id].sound());
        },
    }
    assert forall|other: u128| after.contains_key(other) implies (
    #[trigger] after[other]).sound() by {
        if other != id {
            assert(orders[other].sound());
        }
    }
}

/// The payments of a sound order add up to an amount in range.
pub proof fn lemma_paid_is_in_range(payments: Seq<StoredPayment>)
    requires
        forall|i: int| 0 <= i < payments.len() ==> (#[trigger] payments[i]).payment.wf(),
    ensures
        0 <= paid_in_all(payments),
        payments.len() > 0 ==> 0 < paid_in_all(payments),
    decreases payments.len(),
{
    if payments.len() > 0 {
        lemma_paid_is_in_range(payments.drop_last());
        assert(payments.last().payment.wf());
    }
}

/// A transaction that goes on is where it should be.
proof fn lemma_own_stage(w: World, w2: World, n: nat, reply: Reply)
    requires
        consistent(w),
        statement_runs(w, w2, n, reply),
        store::outcome(w.sessions[n].tx, reply) is Next,
    ensures
        session_ok(w2, n),
{
    let s = w.sessions[n];
    let id = s.order_id();
    assert(session_ok(w, n));
    assert(reply_to(w, s) == Some(reply));
    let s2 = w2.sessions[n];
    match s.tx.stage {
        Stage::SumPayments { total_cents } => {
            assert(w.orders[id].sound());
            lemma_paid_is_in_range(w.orders[id].payments);
            payments::law_accepted_payments_fit(
                w.orders[id].total_cents,
                paid_in_all(w.orders[id].payments),
                s.tx.work->payment.amount_cents as int,
            );
        },
        Stage::ReadTotal => {
            assert(w.orders[id].sound());
        },
        Stage::InsertItems => {
            let items = store::written_items(s.tx.work);
            store::law_positions_keep_the_order(items);
            assert(Seq::<ValidatedItemView>::empty() + items =~= items);
        },
        _ => {},
    }
}

/// A step of one transaction leaves every other one where it should be.
proof fn lemma_other_stage(w: World, w2: World, n: nat, reply: Reply, m: nat)
    requires
        consistent(w),
        statement_runs(w, w2, n, reply),
        w.sessions.contains_key(m),
        m != n,
    ensures
        w2.sessions.contains_key(m),
        w2.sessions[m] == w.sessions[m],
        session_ok(w2, m),
{
    assert(session_ok(w, n));
    assert(session_ok(w, m));
}

/// Whatever happens, a consistent world stays consistent.
pub proof fn law_every_step_keeps_consistent(w: World, w2: World)
    requires
        consistent(w),
        step(w, w2),
    ensures
        consistent(w2),
{
    if exists|n: nat, reply: Reply| #[trigger] statement_runs(w, w2, n, reply) {
        let (n, reply) = choose|n: nat, reply: Reply| #[trigger] statement_runs(w, w2, n, reply);
        let s = w.sessions[n];
        assert(session_ok(w, n));
        if s.tx.stage == Stage::Commit {
            lemma_change_is_sound(w.orders, s.tx.work);
        }
        assert forall|m: nat| w2.sessions.contains_key(m) implies #[trigger] session_ok(w2, m) by {
            if m == n {
                lemma_own_stage(w, w2, n, reply);
            } else {
                lemma_other_stage(w, w2, n, reply, m);
            }
        }
    } else {
        let (n, work) = choose|n: nat, work: WorkView| #[trigger] begins(w, w2, n, work);
        assert forall|m: nat| w2.sessions.contains_key(m) implies #[trigger] session_ok(w2, m) by {
            if m != n {
                assert(session_ok(w, m));
            }
        }
    }
}

// ---------------------------------------------------------------------------
// Laws
// ---------------------------------------------------------------------------

/// A course of events, from a world at rest.
pub open spec fn course(worlds: Seq<World>) -> bool {
    &&& worlds.len() > 0
    &&& at_rest(worlds[0])
    &&& forall|i: int| 0 <= i < worlds.len() - 1 ==> #[trigger] step(worlds[i], worlds[i + 1])
}

/// Every world that is ever reached is consistent.
pub proof fn law_every_world_is_consistent(worlds: Seq<World>, i: int)
    requires
        course(worlds),
        0 <= i < worlds.len(),
    ensures
        consistent(worlds[i]),
    decreases i,
{
    if i > 0 {
        law_every_world_is_consistent(worlds, i - 1);
        assert(step(worlds[i - 1], worlds[i - 1 + 1]));
        law_every_step_keeps_consistent(worlds[i - 1], worlds[i]);
    }
}

/// The payments against an order never exceed its total, and the total is always
/// the sum of its lines, however many transactions run at the same time and
/// wherever they fail.
pub proof fn law_payments_never_exceed_the_total(worlds: Seq<World>, i: int, id: u128)
    requires
        course(worlds),
        0 <= i < worlds.len(),
        worlds[i].orders.contains_key(id),
    ensures
        paid_in_all(worlds[i].orders[id].payments) <= worlds[i].orders[id].total_cents,
        worlds[i].orders[id].total_cents == validate::sum_of_lines(worlds[i].orders[id].items),
{
    law_every_world_is_consistent(worlds, i);
    assert(worlds[i].orders[id].sound());
}

/// A transaction either makes its whole change or none of it, and only if the
/// change is allowed at that moment.
pub proof fn law_all_or_nothing(w: World, w2: World, n: nat, reply: Reply)
    requires
        consistent(w),
        statement_runs(w, w2, n, reply),
    ensures
        ({
            let work = w.sessions[n].tx.work;
            w2.orders == w.orders || allowed(w.orders, work) && w2.orders == applied(
                w.orders,
                work.order_id(),
                change(w.orders, work),
            )
        }),
{
    assert(session_ok(w, n));
}

/// A transaction that reports success has made exactly its change.
pub proof fn law_success_means_done(w: World, w2: World, n: nat, reply: Reply, id: u128)
    requires
        consistent(w),
        statement_runs(w, w2, n, reply),
        store::outcome(w.sessions[n].tx, reply) == Outcome::End(Ok(id)),
    ensures
        ({
            let work = w.sessions[n].tx.work;
            &&& id == work.result_id()
            &&& allowed(w.orders, work)
            &&& w2.orders == applied(w.orders, work.order_id(), change(w.orders, work))
        }),
{
    assert(session_ok(w, n));
}

/// A transaction that reports an error has changed nothing, unless it was the
/// commit itself whose fate is unknown.
pub proof fn law_refusals_change_nothing(w: World, w2: World, n: nat, reply: Reply)
    requires
        statement_runs(w, w2, n, reply),
        store::outcome(w.sessions[n].tx, reply) matches Outcome::End(Err(_)),
        w.sessions[n].tx.stage != Stage::Commit,
    ensures
        w2.orders == w.orders,
{
}

/// A payment that is refused as too large is told exactly what is still owed at
/// that moment, and is larger than that.
pub proof fn law_refusal_tells_what_is_owed(
    w: World,
    w2: World,
    n: nat,
    reply: Reply,
    maximum_cents: int,
)
    requires
        consistent(w),
        statement_runs(w, w2, n, reply),
        store::outcome(w.sessions[n].tx, reply) == Outcome::End(
            Err(AppErrorView::PaymentExceedsAmountDue { maximum_cents }),
        ),
    ensures
        ({
            let order = w.orders[w.sessions[n].order_id()];
            &&& owned(w.orders, w.sessions[n].tx.work)
            &&& maximum_cents == order.total_cents - paid_in_all(order.payments)
            &&& w.sessions[n].tx.work matches WorkView::Pay { payment, .. }
                && payment.amount_cents > maximum_cents
            &&& w2.orders == w.orders
        }),
{
    let s = w.sessions[n];
    assert(session_ok(w, n));
    assert(w.orders[s.order_id()].sound());
    lemma_paid_is_in_range(w.orders[s.order_id()].payments);
}

/// An order with a payment is neither edited nor deleted: all that can happen to
/// it is one more payment.
pub proof fn law_paid_orders_are_frozen(w: World, w2: World, id: u128)
    requires
        consistent(w),
        step(w, w2),
        w.orders.contains_key(id),
        w.orders[id].payments.len() > 0,
    ensures
        w2.orders.contains_key(id),
        w2.orders[id] == (StoredOrder { payments: w2.orders[id].payments, ..w.orders[id] }),
        w.orders[id].payments.is_prefix_of(w2.orders[id].payments),
        w2.orders[id].payments.len() <= w.orders[id].payments.len() + 1,
{
    if exists|n: nat, reply: Reply| #[trigger] statement_runs(w, w2, n, reply) {
        let (n, reply) = choose|n: nat, reply: Reply| #[trigger] statement_runs(w, w2, n, reply);
        law_all_or_nothing(w, w2, n, reply);
    }
}

/// Work on behalf of anybody but the owner never changes an order.
pub proof fn law_strangers_change_nothing(w: World, w2: World, n: nat, reply: Reply, id: u128)
    requires
        consistent(w),
        statement_runs(w, w2, n, reply),
        w.orders.contains_key(id),
        w.orders[id].owner != w.sessions[n].tx.work.owner(),
    ensures
        w2.orders.contains_key(id),
        w2.orders[id] == w.orders[id],
{
    law_all_or_nothing(w, w2, n, reply);
}

/// Somebody else's order is answered like one that does not exist, whether it is
/// locked or not.
pub proof fn law_strangers_learn_nothing(w: World, s: Session)
    requires
        s.tx.stage == Stage::LockOrder,
        !owned(w.orders, s.tx.work),
    ensures
        reply_to(w, s) == Some(Reply::Exists(false)),
        store::outcome(s.tx, Reply::Exists(false)) == Outcome::End(Err(AppErrorView::NotFound)),
{
}

/// Work on one order leaves every other one as it is.
pub proof fn law_other_orders_are_untouched(
    w: World,
    w2: World,
    n: nat,
    reply: Reply,
    other: u128,
)
    requires
        consistent(w),
        statement_runs(w, w2, n, reply),
        other != w.sessions[n].order_id(),
    ensures
        w2.orders.contains_key(other) == w.orders.contains_key(other),
        w.orders.contains_key(other) ==> w2.orders[other] == w.orders[other],
{
    law_all_or_nothing(w, w2, n, reply);
}

// ---------------------------------------------------------------------------
// A transaction on its own
// ---------------------------------------------------------------------------

/// The answer to a piece of work that nothing gets in the way of.
pub open spec fn answer_alone(orders: Map<u128, StoredOrder>, work: WorkView) -> Result<
    u128,
    AppErrorView,
> {
    let order = orders[work.order_id()];
    match work {
        WorkView::Create { order_id, .. } => if orders.contains_key(order_id) {
            Err(AppErrorView::Internal)
        } else {
            Ok(order_id)
        },
        _ => if !owned(orders, work) {
            Err(AppErrorView::NotFound)
        } else {
            match work {
                WorkView::Pay { payment_id, payment, .. } => {
                    match payments::payment_refusal(
                        order.total_cents,
                        paid_in_all(order.payments),
                        payment.amount_cents as int,
                    ) {
                        Some(refusal) => Err(refusal),
                        None => if id_taken(order.payments, payment_id) {
                            Err(AppErrorView::Internal)
                        } else {
                            Ok(payment_id)
                        },
                    }
                },
                _ => if order.payments.len() > 0 {
                    Err(AppErrorView::OrderHasPayments)
                } else {
                    Ok(work.order_id())
                },
            }
        },
    }
}

/// The world after a statement of the transaction `n` that it goes on from.
pub open spec fn gone_on(w: World, n: nat, reply: Reply, stage: Stage) -> World {
    let s = w.sessions[n];
    World {
        orders: w.orders,
        locks: if holds_after(s, reply) { w.locks.insert(s.order_id(), n) } else { w.locks },
        sessions: w.sessions.insert(
            n,
            Session {
                tx: TransactionView { work: s.tx.work, stage },
                holds: holds_after(s, reply),
                draft: draft_after(w, s),
            },
        ),
    }
}

/// The stored orders and the answer, once at most `count` statements of the
/// transaction `n` have run in a row. No answer if it is not over by then.
pub open spec fn run_alone(w: World, n: nat, count: nat) -> (
    Map<u128, StoredOrder>,
    Option<Result<u128, AppErrorView>>,
)
    decreases count,
{
    let s = w.sessions[n];
    match reply_to(w, s) {
        Some(reply) => if count == 0 {
            (w.orders, None)
        } else {
            match store::outcome(s.tx, reply) {
                Outcome::Next(stage) => run_alone(gone_on(w, n, reply, stage), n, (count - 1) as nat),
                Outcome::End(result) => (
                    if s.tx.stage == Stage::Commit {
                        applied(w.orders, s.order_id(), s.draft)
                    } else {
                        w.orders
                    },
                    Some(result),
                ),
            }
        },
        None => (w.orders, None),
    }
}

/// A transaction that nothing gets in the way of comes to an end: with its change
/// made when that is allowed, and with the right error and nothing changed when
/// it is not.
pub proof fn law_work_gets_its_answer(w: World, n: nat)
    requires
        consistent(w),
        w.sessions.contains_key(n),
        w.sessions[n].tx.stage == Stage::Begin,
        !w.locks.contains_key(w.sessions[n].order_id()),
    ensures
        ({
            let work = w.sessions[n].tx.work;
            let answer = answer_alone(w.orders, work);
            &&& answer is Ok <==> allowed(w.orders, work)
            &&& run_alone(w, n, 8) == (
                if answer is Ok {
                    applied(w.orders, work.order_id(), change(w.orders, work))
                } else {
                    w.orders
                },
                Some(answer),
            )
        }),
{
    let work = w.sessions[n].tx.work;
    let id = work.order_id();
    assert(session_ok(w, n));
    if owned(w.orders, work) {
        assert(w.orders[id].sound());
        lemma_paid_is_in_range(w.orders[id].payments);
    }
    let items = store::written_items(work);
    store::law_positions_keep_the_order(items);
    assert(Seq::<ValidatedItemView>::empty() + items =~= items);
    reveal_with_fuel(run_alone, 9);
    match work {
        WorkView::Create { .. } => {},
        WorkView::Replace { .. } => {},
        WorkView::Delete { .. } => {},
        WorkView::Pay { payment, .. } => {
            if owned(w.orders, work) {
                payments::law_accepted_payments_fit(
                    w.orders[id].total_cents,
                    paid_in_all(w.orders[id].payments),
                    payment.amount_cents as int,
                );
            }
        },
    }
}

// ---------------------------------------------------------------------------
// One after the other
// ---------------------------------------------------------------------------

/// One thing that happens.
pub enum Event {
    /// A transaction begins.
    Begins { n: nat, work: WorkView },
    /// A statement of a transaction is run and replied to.
    Runs { n: nat, reply: Reply },
}

/// Whether an event leads from one world to the next.
pub open spec fn happens(w: World, w2: World, event: Event) -> bool {
    match event {
        Event::Begins { n, work } => begins(w, w2, n, work),
        Event::Runs { n, reply } => statement_runs(w, w2, n, reply),
    }
}

/// A course of events from a world at rest, with a record of what happened.
pub open spec fn recorded(worlds: Seq<World>, events: Seq<Event>) -> bool {
    &&& worlds.len() == events.len() + 1
    &&& at_rest(worlds[0])
    &&& forall|i: int|
        0 <= i < events.len() ==> happens(worlds[i], worlds[i + 1], #[trigger] events[i])
}

/// A piece of work that was decided, and how it was answered. There is no answer
/// for a change that was made although its commit was reported as failed.
pub struct Settled {
    pub work: WorkView,
    pub answer: Option<Result<u128, AppErrorView>>,
}

/// The piece of work that an event decides, if any. A statement that fails decides
/// nothing, unless it is a commit that took place.
pub open spec fn settled_by(w: World, w2: World, event: Event) -> Option<Settled> {
    match event {
        Event::Begins { .. } => None,
        Event::Runs { n, reply } => {
            let tx = w.sessions[n].tx;
            match store::outcome(tx, reply) {
                Outcome::Next(_) => None,
                Outcome::End(answer) => if !(reply is Failed) {
                    Some(Settled { work: tx.work, answer: Some(answer) })
                } else if w2.orders != w.orders {
                    Some(Settled { work: tx.work, answer: None })
                } else {
                    None
                },
            }
        },
    }
}

/// The pieces of work that a course of events decided, first decision first.
pub open spec fn settled(worlds: Seq<World>, events: Seq<Event>) -> Seq<Settled>
    decreases events.len(),
{
    if events.len() == 0 {
        Seq::empty()
    } else {
        let i = events.len() - 1;
        let earlier = settled(worlds.drop_last(), events.drop_last());
        match settled_by(worlds[i], worlds[i + 1], events[i]) {
            Some(decided) => earlier.push(decided),
            None => earlier,
        }
    }
}

/// The work behind a list of decisions.
pub open spec fn works_of(decisions: Seq<Settled>) -> Seq<WorkView> {
    decisions.map_values(|decided: Settled| decided.work)
}

/// The stored orders after a piece of work that nothing gets in the way of.
pub open spec fn after_alone(orders: Map<u128, StoredOrder>, work: WorkView) -> Map<
    u128,
    StoredOrder,
> {
    if answer_alone(orders, work) is Ok {
        applied(orders, work.order_id(), change(orders, work))
    } else {
        orders
    }
}

/// The stored orders after some pieces of work, each done before the next begins.
pub open spec fn one_at_a_time(orders: Map<u128, StoredOrder>, works: Seq<WorkView>) -> Map<
    u128,
    StoredOrder,
>
    decreases works.len(),
{
    if works.len() == 0 {
        orders
    } else {
        after_alone(one_at_a_time(orders, works.drop_last()), works.last())
    }
}

/// However many transactions are at work, one that is decided is answered as if it
/// were alone with the orders as they are at that moment, and leaves them as if it
/// were. It is not told of an internal error: those come of failed statements.
pub proof fn law_decided_as_if_alone(
    w: World,
    w2: World,
    n: nat,
    reply: Reply,
    answer: Result<u128, AppErrorView>,
)
    requires
        consistent(w),
        statement_runs(w, w2, n, reply),
        !(reply is Failed),
        store::outcome(w.sessions[n].tx, reply) == Outcome::End(answer),
    ensures
        answer == answer_alone(w.orders, w.sessions[n].tx.work),
        answer != Err::<u128, AppErrorView>(AppErrorView::Internal),
        w2.orders == after_alone(w.orders, w.sessions[n].tx.work),
{
    let s = w.sessions[n];
    let id = s.order_id();
    assert(session_ok(w, n));
    if w.orders.contains_key(id) {
        assert(w.orders[id].sound());
        lemma_paid_is_in_range(w.orders[id].payments);
    }
}

/// Transactions that run at the same time are answered, and leave the orders, as if
/// they had been done one after the other, in the order in which they were decided.
pub proof fn law_as_if_one_at_a_time(worlds: Seq<World>, events: Seq<Event>)
    requires
        recorded(worlds, events),
    ensures
        ({
            let decisions = settled(worlds, events);
            let works = works_of(decisions);
            &&& consistent(worlds.last())
            &&& worlds.last().orders == one_at_a_time(worlds[0].orders, works)
            &&& forall|k: int|
                0 <= k < decisions.len() ==> {
                    let alone = answer_alone(
                        one_at_a_time(worlds[0].orders, works.take(k)),
                        works[k],
                    );
                    &&& alone != Err::<u128, AppErrorView>(AppErrorView::Internal)
                    &&& match (#[trigger] decisions[k]).answer {
                        Some(answer) => answer == alone,
                        None => alone is Ok,
                    }
                }
        }),
    decreases events.len(),
{
    let decisions = settled(worlds, events);
    let works = works_of(decisions);
    if events.len() > 0 {
        let i = events.len() - 1;
        let w = worlds[i];
        let w2 = worlds[i + 1];
        let event = events[i];
        let front = worlds.drop_last();
        assert forall|j: int| 0 <= j < events.drop_last().len() implies happens(
            front[j],
            front[j + 1],
            #[trigger] events.drop_last()[j],
        ) by {
            assert(happens(worlds[j], worlds[j + 1], events[j]));
        }
        law_as_if_one_at_a_time(front, events.drop_last());
        assert(front.last() == w);
        assert(happens(w, w2, event));
        assert(step(w, w2));
        law_every_step_keeps_consistent(w, w2);
        let earlier = settled(front, events.drop_last());
        if let Event::Runs { n, reply } = event {
            assert(session_ok(w, n));
            law_all_or_nothing(w, w2, n, reply);
            lemma_allowed_is_accepted(w.orders, w.sessions[n].tx.work);
            if let Outcome::End(answer) = store::outcome(w.sessions[n].tx, reply) {
                if !(reply is Failed) {
                    law_decided_as_if_alone(w, w2, n, reply, answer);
                }
            }
        }
        if let Some(decided) = settled_by(w, w2, event) {
            assert(works.drop_last() =~= works_of(earlier));
            assert(works.last() == decided.work);
        }
        assert forall|k: int| 0 <= k < decisions.len() implies {
            let alone = answer_alone(one_at_a_time(worlds[0].orders, works.take(k)), works[k]);
            &&& alone != Err::<u128, AppErrorView>(AppErrorView::Internal)
            &&& match (#[trigger] decisions[k]).answer {
                Some(answer) => answer == alone,
                None => alone is Ok,
            }
        } by {
            if k < earlier.len() {
                assert(decisions[k] == earlier[k]);
                assert(works.take(k) =~= works_of(earlier).take(k));
            } else {
                assert(works.take(k) =~= works_of(earlier));
            }
        }
    }
}

/// Work that is allowed is answered with success.
proof fn lemma_allowed_is_accepted(orders: Map<u128, StoredOrder>, work: WorkView)
    requires
        all_sound(orders),
        validated(work),
    ensures
        answer_alone(orders, work) is Ok <==> allowed(orders, work),
{
    let id = work.order_id();
    if orders.contains_key(id) {
        assert(orders[id].sound());
        lemma_paid_is_in_range(orders[id].payments);
        if let WorkView::Pay { payment, .. } = work {
            payments::law_accepted_payments_fit(
                orders[id].total_cents,
                paid_in_all(orders[id].payments),
                payment.amount_cents as int,
            );
        }
    }
}

/// How many of some pieces of work are about a given order.
pub open spec fn how_many_on(works: Seq<WorkView>, id: u128) -> nat
    decreases works.len(),
{
    if works.len() == 0 {
        0
    } else {
        how_many_on(works.drop_last(), id) + if works.last().order_id() == id {
            1nat
        } else {
            0nat
        }
    }
}

/// How many decisions about a given order report success.
pub open spec fn successes_on(decisions: Seq<Settled>, id: u128) -> nat
    decreases decisions.len(),
{
    if decisions.len() == 0 {
        0
    } else {
        successes_on(decisions.drop_last(), id) + if decisions.last().work.order_id() == id
            && decisions.last().answer matches Some(Ok(_)) {
            1nat
        } else {
            0nat
        }
    }
}

/// Whether all work on an order is payments of one amount by its owner.
pub open spec fn equal_payments(
    works: Seq<WorkView>,
    id: u128,
    owner: Seq<char>,
    amount: int,
) -> bool {
    forall|k: int|
        0 <= k < works.len() && (#[trigger] works[k]).order_id() == id ==> {
            &&& works[k] matches WorkView::Pay { payment, .. } && payment.amount_cents == amount
            &&& works[k].owner() == owner
        }
}

/// The answer to a payment of `amount` after `earlier` others of the same amount,
/// while `due` was owed before them: success while there is room, and then what
/// the accepted ones have left.
pub open spec fn equal_payment_answer(
    payment_id: u128,
    due: int,
    amount: int,
    earlier: nat,
) -> Result<u128, AppErrorView> {
    if (earlier + 1) * amount <= due {
        Ok(payment_id)
    } else {
        Err(AppErrorView::PaymentExceedsAmountDue { maximum_cents: due % amount })
    }
}

/// How many of some equal payments fit into what is owed.
pub open spec fn how_many_fit(due: int, amount: int, asked: nat) -> int {
    if asked < due / amount {
        asked as int
    } else {
        due / amount
    }
}

/// One more payment fits exactly while fewer than all that fit were made, and
/// those leave the remainder.
proof fn lemma_room(due: int, amount: int, earlier: nat)
    requires
        0 <= due,
        0 < amount,
    ensures
        ({
            let fit = how_many_fit(due, amount, earlier);
            &&& earlier < due / amount <==> (earlier + 1) * amount <= due
            &&& 0 <= fit <= earlier
            &&& 0 <= fit * amount <= due
            &&& (earlier + 1) * amount <= due ==> {
                &&& fit == earlier
                &&& how_many_fit(due, amount, earlier + 1) * amount == fit * amount + amount
                &&& fit * amount + amount <= due
            }
            &&& (earlier + 1) * amount > due ==> {
                &&& how_many_fit(due, amount, earlier + 1) == fit
                &&& due - fit * amount == due % amount
            }
        }),
        0 <= due % amount < amount,
{
    let room = due / amount;
    let rest = due % amount;
    vstd::arithmetic::div_mod::lemma_fundamental_div_mod(due, amount);
    assert(0 <= room && 0 <= rest < amount) by (nonlinear_arith)
        requires
            0 <= due,
            0 < amount,
            room == due / amount,
            rest == due % amount,
    ;
    assert(earlier < room <==> (earlier + 1) * amount <= due) by (nonlinear_arith)
        requires
            0 < amount,
            0 <= rest < amount,
            due == amount * room + rest,
    ;
    let fit = how_many_fit(due, amount, earlier);
    assert(0 <= fit * amount <= room * amount) by (nonlinear_arith)
        requires
            0 <= fit <= room,
            0 < amount,
    ;
    assert(room * amount == amount * room) by (nonlinear_arith);
    assert((earlier + 1) * amount == earlier * amount + amount) by (nonlinear_arith);
}

/// What one more of some equal payments is answered.
proof fn lemma_one_more_payment(
    orders: Map<u128, StoredOrder>,
    work: WorkView,
    due: int,
    amount: int,
    earlier: nat,
)
    requires
        owned(orders, work),
        work matches WorkView::Pay { payment, .. } && payment.amount_cents == amount,
        0 <= due <= i64::MAX,
        0 < amount,
        orders[work.order_id()].total_cents - paid_in_all(orders[work.order_id()].payments) == due
            - how_many_fit(due, amount, earlier) * amount,
        answer_alone(orders, work) != Err::<u128, AppErrorView>(AppErrorView::Internal),
    ensures
        answer_alone(orders, work) == equal_payment_answer(work.result_id(), due, amount, earlier),
{
    lemma_room(due, amount, earlier);
}

/// An order on which nothing but equal payments was done, one at a time.
proof fn lemma_equal_payments(
    orders: Map<u128, StoredOrder>,
    works: Seq<WorkView>,
    id: u128,
    amount: int,
)
    requires
        orders.contains_key(id),
        orders[id].sound(),
        0 < amount,
        equal_payments(works, id, orders[id].owner, amount),
        forall|k: int|
            0 <= k < works.len() ==> answer_alone(
                one_at_a_time(orders, works.take(k)),
                #[trigger] works[k],
            ) != Err::<u128, AppErrorView>(AppErrorView::Internal),
    ensures
        ({
            let after = one_at_a_time(orders, works);
            let paid = paid_in_all(orders[id].payments);
            let due = orders[id].total_cents - paid;
            let fit = how_many_fit(due, amount, how_many_on(works, id));
            &&& 0 <= due <= i64::MAX
            &&& after.contains_key(id)
            &&& after[id].owner == orders[id].owner
            &&& after[id].total_cents == orders[id].total_cents
            &&& paid_in_all(after[id].payments) == paid + fit * amount
        }),
    decreases works.len(),
{
    let due = orders[id].total_cents - paid_in_all(orders[id].payments);
    lemma_paid_is_in_range(orders[id].payments);
    if works.len() == 0 {
        lemma_room(due, amount, 0);
        assert(0 * amount == 0) by (nonlinear_arith);
    } else {
        let front = works.drop_last();
        let last = works.last();
        assert forall|k: int| 0 <= k < front.len() implies answer_alone(
            one_at_a_time(orders, front.take(k)),
            #[trigger] front[k],
        ) != Err::<u128, AppErrorView>(AppErrorView::Internal) by {
            assert(front.take(k) =~= works.take(k));
            assert(front[k] == works[k]);
        }
        lemma_equal_payments(orders, front, id, amount);
        assert(works.take(works.len() - 1) =~= front);
        let before = one_at_a_time(orders, front);
        let after = one_at_a_time(orders, works);
        let earlier = how_many_on(front, id);
        assert(after == after_alone(before, last));
        if last.order_id() != id {
            assert(how_many_on(works, id) == earlier);
            assert(after.contains_key(id) && after[id] == before[id]);
        } else {
            assert(works[works.len() - 1] == last);
            lemma_room(due, amount, earlier);
            lemma_one_more_payment(before, last, due, amount, earlier);
            if let WorkView::Pay { payment_id, payment, .. } = last {
                let grown = before[id].payments.push(StoredPayment { id: payment_id, payment });
                assert(grown.drop_last() =~= before[id].payments);
                assert(how_many_on(works, id) == earlier + 1);
                if answer_alone(before, last) is Ok {
                    assert(after[id].payments == grown);
                    assert(paid_in_all(grown) == paid_in_all(before[id].payments) + amount);
                } else {
                    assert(after == before);
                }
            }
        }
    }
}

/// Payments of one amount by the owner of an order, made at the same time and with
/// anything else going on elsewhere: the first ones to be decided are accepted
/// while there is room, and every later one is refused with what is left.
pub proof fn law_equal_payments_fill_the_order(
    worlds: Seq<World>,
    events: Seq<Event>,
    id: u128,
    amount: int,
    k: int,
)
    requires
        recorded(worlds, events),
        worlds[0].orders.contains_key(id),
        0 < amount,
        equal_payments(
            works_of(settled(worlds, events)),
            id,
            worlds[0].orders[id].owner,
            amount,
        ),
        0 <= k < settled(worlds, events).len(),
        settled(worlds, events)[k].work.order_id() == id,
        settled(worlds, events)[k].answer is Some,
    ensures
        ({
            let order = worlds[0].orders[id];
            let decided = settled(worlds, events)[k];
            decided.answer == Some(
                equal_payment_answer(
                    decided.work.result_id(),
                    order.total_cents - paid_in_all(order.payments),
                    amount,
                    how_many_on(works_of(settled(worlds, events)).take(k), id),
                ),
            )
        }),
{
    let orders = worlds[0].orders;
    let decisions = settled(worlds, events);
    let works = works_of(decisions);
    law_as_if_one_at_a_time(worlds, events);
    assert(orders[id].sound());
    assert forall|j: int| 0 <= j < k implies answer_alone(
        one_at_a_time(orders, works.take(k).take(j)),
        #[trigger] works.take(k)[j],
    ) != Err::<u128, AppErrorView>(AppErrorView::Internal) by {
        assert(works.take(k).take(j) =~= works.take(j));
        assert(works[j] == decisions[j].work);
    }
    lemma_equal_payments(orders, works.take(k), id, amount);
    assert(works[k] == decisions[k].work);
    lemma_one_more_payment(
        one_at_a_time(orders, works.take(k)),
        works[k],
        orders[id].total_cents - paid_in_all(orders[id].payments),
        amount,
        how_many_on(works.take(k), id),
    );
    assert(decisions[k].answer == Some(
        answer_alone(one_at_a_time(orders, works.take(k)), works[k]),
    ));
}

/// Exactly as many of such payments are accepted as fit into what was owed.
pub proof fn law_as_many_succeed_as_fit(
    worlds: Seq<World>,
    events: Seq<Event>,
    id: u128,
    amount: int,
)
    requires
        recorded(worlds, events),
        worlds[0].orders.contains_key(id),
        0 < amount,
        equal_payments(
            works_of(settled(worlds, events)),
            id,
            worlds[0].orders[id].owner,
            amount,
        ),
        forall|k: int|
            0 <= k < settled(worlds, events).len() ==> (#[trigger] settled(
                worlds,
                events,
            )[k]).answer is Some,
    ensures
        ({
            let order = worlds[0].orders[id];
            successes_on(settled(worlds, events), id) == how_many_fit(
                order.total_cents - paid_in_all(order.payments),
                amount,
                how_many_on(works_of(settled(worlds, events)), id),
            )
        }),
{
    let decisions = settled(worlds, events);
    let works = works_of(decisions);
    lemma_successes(worlds, events, id, amount, decisions.len() as int);
    assert(decisions.take(decisions.len() as int) =~= decisions);
    assert(works.take(works.len() as int) =~= works);
}

/// How many of the first `k` decisions report success.
proof fn lemma_successes(
    worlds: Seq<World>,
    events: Seq<Event>,
    id: u128,
    amount: int,
    k: int,
)
    requires
        recorded(worlds, events),
        worlds[0].orders.contains_key(id),
        0 < amount,
        equal_payments(
            works_of(settled(worlds, events)),
            id,
            worlds[0].orders[id].owner,
            amount,
        ),
        forall|j: int|
            0 <= j < settled(worlds, events).len() ==> (#[trigger] settled(
                worlds,
                events,
            )[j]).answer is Some,
        0 <= k <= settled(worlds, events).len(),
    ensures
        ({
            let order = worlds[0].orders[id];
            successes_on(settled(worlds, events).take(k), id) == how_many_fit(
                order.total_cents - paid_in_all(order.payments),
                amount,
                how_many_on(works_of(settled(worlds, events)).take(k), id),
            )
        }),
    decreases k,
{
    let order = worlds[0].orders[id];
    let due = order.total_cents - paid_in_all(order.payments);
    let decisions = settled(worlds, events);
    let works = works_of(decisions);
    assert(order.sound());
    lemma_room(due, amount, 0);
    if k > 0 {
        lemma_successes(worlds, events, id, amount, k - 1);
        assert(decisions.take(k).drop_last() =~= decisions.take(k - 1));
        assert(works.take(k).drop_last() =~= works.take(k - 1));
        assert(decisions.take(k).last() == decisions[k - 1]);
        assert(works.take(k).last() == decisions[k - 1].work);
        if decisions[k - 1].work.order_id() == id {
            law_equal_payments_fill_the_order(worlds, events, id, amount, k - 1);
            lemma_room(due, amount, how_many_on(works.take(k - 1), id));
        }
    }
}

/// Of two payments of the whole balance that are made at the same time, exactly one
/// succeeds, and the other is told that nothing is owed any more.
pub proof fn law_one_of_two_final_payments_wins(worlds: Seq<World>, events: Seq<Event>, id: u128)
    requires
        recorded(worlds, events),
        worlds[0].orders.contains_key(id),
        ({
            let order = worlds[0].orders[id];
            let due = order.total_cents - paid_in_all(order.payments);
            let decisions = settled(worlds, events);
            &&& 0 < due
            &&& decisions.len() == 2
            &&& decisions[0].work.order_id() == id
            &&& decisions[1].work.order_id() == id
            &&& decisions[0].answer is Some
            &&& decisions[1].answer is Some
            &&& equal_payments(works_of(decisions), id, order.owner, due)
        }),
    ensures
        settled(worlds, events)[0].answer == Some(
            Ok::<u128, AppErrorView>(settled(worlds, events)[0].work.result_id()),
        ),
        settled(worlds, events)[1].answer == Some(
            Err::<u128, AppErrorView>(AppErrorView::PaymentExceedsAmountDue { maximum_cents: 0 }),
        ),
{
    let order = worlds[0].orders[id];
    let due = order.total_cents - paid_in_all(order.payments);
    let works = works_of(settled(worlds, events));
    law_equal_payments_fill_the_order(worlds, events, id, due, 0);
    law_equal_payments_fill_the_order(worlds, events, id, due, 1);
    assert(how_many_on(works.take(0), id) == 0);
    assert(works.take(1).drop_last() =~= works.take(0));
    assert(works.take(1).last() == works[0]);
    assert(how_many_on(works.take(1), id) == 1);
    assert((0 + 1) * due == due && (1 + 1) * due > due) by (nonlinear_arith)
        requires
            0 < due,
    ;
    assert(due % due == 0) by (nonlinear_arith)
        requires
            0 < due,
    ;
}

// ---------------------------------------------------------------------------
// Sums
// ---------------------------------------------------------------------------

/// What was paid in all is what the first payments and the rest come to together,
/// and one payment comes to its amount.
pub proof fn law_payments_add_up(a: Seq<StoredPayment>, b: Seq<StoredPayment>)
    ensures
        paid_in_all(a + b) == paid_in_all(a) + paid_in_all(b),
        b.len() == 1 ==> paid_in_all(b) == b[0].payment.amount_cents,
        b.len() == 0 ==> paid_in_all(b) == 0,
    decreases b.len(),
{
    if b.len() == 0 {
        assert(a + b =~= a);
    } else {
        law_payments_add_up(a, b.drop_last());
        assert((a + b).drop_last() =~= a + b.drop_last());
        assert((a + b).last() == b.last());
        if b.len() == 1 {
            assert(b.drop_last().len() == 0);
        }
    }
}

} // verus!
