//! The transactions that write.
//!
//! Every write is one transaction on one connection, and this module decides it:
//! which statement to run next, and what each reply leads to. The program around
//! the library runs the statements; dropping a transaction before its commit
//! rolls it back.
//!
//! A change to an existing order takes the lock on the order's row before it
//! reads anything. That row stands in as the lock for the payments as well, so a
//! sum read behind it stays true until the commit.

use vstd::prelude::*;

use crate::error;
use crate::error::{AppError, AppErrorView, AppResult, DatabaseFailure};
use crate::ids;
use crate::orders::validate;
use crate::orders::validate::{ValidatedItem, ValidatedItemView, ValidatedOrder, ValidatedOrderView};
use crate::payments;
use crate::payments::ValidatedPayment;

verus! {

// ---------------------------------------------------------------------------
// Rows of line items
// ---------------------------------------------------------------------------

/// One row of the line item table.
#[derive(Debug, Clone, PartialEq, Eq)]
pub struct ItemRow {
    pub id: u128,
    pub position: i32,
    pub description: String,
    pub quantity: i64,
    pub unit_price_cents: i64,
    pub line_total_cents: i64,
}

/// What an [`ItemRow`] holds, apart from its own identifier.
#[verifier::ext_equal]
pub struct ItemRowView {
    pub position: int,
    pub item: ValidatedItemView,
}

impl View for ItemRow {
    type V = ItemRowView;

    open spec fn view(&self) -> ItemRowView {
        ItemRowView {
            position: self.position as int,
            item: ValidatedItemView {
                description: self.description@,
                quantity: self.quantity as int,
                unit_price_cents: self.unit_price_cents as int,
                line_total_cents: self.line_total_cents as int,
            },
        }
    }
}

/// Whether the positions of so many rows fit their column.
pub open spec fn positions_fit(count: nat) -> bool {
    count <= i32::MAX + 1
}

/// The rows for the line items of an order: the items in order, each at its
/// place.
pub open spec fn rows_of(items: Seq<ValidatedItemView>) -> Seq<ItemRowView> {
    Seq::new(items.len(), |i: int| ItemRowView { position: i, item: items[i] })
}

/// The rows for the line items of an order, each with a new identifier. More
/// rows than there are positions is a defect, not something to truncate.
pub fn item_rows(items: &Vec<ValidatedItem>) -> (r: AppResult<Vec<ItemRow>>)
    ensures
        match r {
            Ok(rows) => {
                &&& positions_fit(items@.len())
                &&& rows@.map_values(|row: ItemRow| row@) == rows_of(validate::item_views(items@))
                &&& forall|i: int| 0 <= i < rows@.len() ==> (#[trigger] rows@[i]).position == i
                &&& forall|i: int| 0 <= i < rows@.len() ==> ids::is_version_7((#[trigger] rows@[i]).id)
            },
            Err(error) => error@ == AppErrorView::Internal && !positions_fit(items@.len()),
        },
{
    if items.len() > 0x8000_0000 {
        return Err(AppError::Internal);
    }
    let ghost views = validate::item_views(items@);
    let mut rows: Vec<ItemRow> = Vec::new();
    let mut i: usize = 0;
    while i < items.len()
        invariant
            i <= items@.len() <= 0x8000_0000,
            views == validate::item_views(items@),
            rows@.len() == i,
            forall|j: int| 0 <= j < i ==> (#[trigger] rows@[j])@ == rows_of(views)[j],
            forall|j: int| 0 <= j < i ==> (#[trigger] rows@[j]).position == j,
            forall|j: int| 0 <= j < i ==> ids::is_version_7((#[trigger] rows@[j]).id),
        decreases items@.len() - i,
    {
        let item = &items[i];
        rows.push(
            ItemRow {
                id: ids::new_id(),
                position: i as i32,
                description: item.description.clone(),
                quantity: item.quantity,
                unit_price_cents: item.unit_price_cents,
                line_total_cents: item.line_total_cents,
            },
        );
        assert(rows@[i as int]@ == rows_of(views)[i as int]);
        i = i + 1;
    }
    assert(rows@.map_values(|row: ItemRow| row@) =~= rows_of(views));
    Ok(rows)
}

// ---------------------------------------------------------------------------
// Work, statements and replies
// ---------------------------------------------------------------------------

/// What a transaction is there to do.
#[derive(Debug)]
enum Work {
    Create { owner: String, order_id: u128, order: ValidatedOrder },
    Replace { owner: String, order_id: u128, order: ValidatedOrder },
    Delete { owner: String, order_id: u128 },
    Pay { owner: String, order_id: u128, payment_id: u128, payment: ValidatedPayment },
}

/// What a transaction is there to do.
pub enum WorkView {
    Create { owner: Seq<char>, order_id: u128, order: ValidatedOrderView },
    Replace { owner: Seq<char>, order_id: u128, order: ValidatedOrderView },
    Delete { owner: Seq<char>, order_id: u128 },
    Pay { owner: Seq<char>, order_id: u128, payment_id: u128, payment: ValidatedPayment },
}

impl WorkView {
    /// The order that the work is about.
    pub open spec fn order_id(self) -> u128 {
        match self {
            WorkView::Create { order_id, .. } => order_id,
            WorkView::Replace { order_id, .. } => order_id,
            WorkView::Delete { order_id, .. } => order_id,
            WorkView::Pay { order_id, .. } => order_id,
        }
    }

    /// On whose behalf the work is done.
    pub open spec fn owner(self) -> Seq<char> {
        match self {
            WorkView::Create { owner, .. } => owner,
            WorkView::Replace { owner, .. } => owner,
            WorkView::Delete { owner, .. } => owner,
            WorkView::Pay { owner, .. } => owner,
        }
    }

    /// The identifier of what the work leaves behind: the payment, or the order.
    pub open spec fn result_id(self) -> u128 {
        match self {
            WorkView::Pay { payment_id, .. } => payment_id,
            _ => self.order_id(),
        }
    }
}

/// The statement that a transaction waits for.
#[derive(Debug, Clone, Copy, PartialEq, Eq, Structural)]
pub enum Stage {
    Begin,
    LockOrder,
    CheckPayments,
    ReadTotal,
    SumPayments { total_cents: i64 },
    InsertOrder,
    UpdateOrder,
    DeleteItems,
    InsertItems,
    DeleteOrder,
    InsertPayment,
    Commit,
}

/// A statement for the program to run on the transaction's connection.
#[derive(Debug)]
pub enum Statement<'a> {
    /// Open the transaction.
    Begin,
    /// Lock the row of this order, if it exists and belongs to this owner.
    LockOrder { owner: &'a str, order_id: u128 },
    /// Ask whether any payment is recorded against the order.
    CheckPayments { order_id: u128 },
    /// Read the order's total.
    ReadTotal { order_id: u128 },
    /// Read the sum of the order's payments, zero when there are none.
    SumPayments { order_id: u128 },
    InsertOrder { owner: &'a str, order_id: u128, order: &'a ValidatedOrder },
    UpdateOrder { order_id: u128, order: &'a ValidatedOrder },
    DeleteItems { order_id: u128 },
    InsertItems { order_id: u128, rows: Vec<ItemRow> },
    /// Delete the order, and with it its line items.
    DeleteOrder { order_id: u128 },
    InsertPayment { payment_id: u128, order_id: u128, payment: ValidatedPayment },
    /// Make the changes permanent and release the lock.
    Commit,
}

/// What a [`Statement`] says.
pub enum StatementView {
    Begin,
    LockOrder { owner: Seq<char>, order_id: u128 },
    CheckPayments { order_id: u128 },
    ReadTotal { order_id: u128 },
    SumPayments { order_id: u128 },
    InsertOrder { owner: Seq<char>, order_id: u128, order: ValidatedOrderView },
    UpdateOrder { order_id: u128, order: ValidatedOrderView },
    DeleteItems { order_id: u128 },
    InsertItems { order_id: u128, rows: Seq<ItemRowView> },
    DeleteOrder { order_id: u128 },
    InsertPayment { payment_id: u128, order_id: u128, payment: ValidatedPayment },
    Commit,
}

impl<'a> View for Statement<'a> {
    type V = StatementView;

    open spec fn view(&self) -> StatementView {
        match self {
            Statement::Begin => StatementView::Begin,
            Statement::LockOrder { owner, order_id } => StatementView::LockOrder {
                owner: owner@,
                order_id: *order_id,
            },
            Statement::CheckPayments { order_id } => StatementView::CheckPayments {
                order_id: *order_id,
            },
            Statement::ReadTotal { order_id } => StatementView::ReadTotal { order_id: *order_id },
            Statement::SumPayments { order_id } => StatementView::SumPayments {
                order_id: *order_id,
            },
            Statement::InsertOrder { owner, order_id, order } => StatementView::InsertOrder {
                owner: owner@,
                order_id: *order_id,
                order: order@,
            },
            Statement::UpdateOrder { order_id, order } => StatementView::UpdateOrder {
                order_id: *order_id,
                order: order@,
            },
            Statement::DeleteItems { order_id } => StatementView::DeleteItems {
                order_id: *order_id,
            },
            Statement::InsertItems { order_id, rows } => StatementView::InsertItems {
                order_id: *order_id,
                rows: rows@.map_values(|row: ItemRow| row@),
            },
            Statement::DeleteOrder { order_id } => StatementView::DeleteOrder {
                order_id: *order_id,
            },
            Statement::InsertPayment { payment_id, order_id, payment } =>
                StatementView::InsertPayment {
                    payment_id: *payment_id,
                    order_id: *order_id,
                    payment: *payment,
                },
            Statement::Commit => StatementView::Commit,
        }
    }
}

/// What the database replied to a statement.
#[derive(Debug, Clone, Copy, PartialEq, Eq, Structural)]
pub enum Reply {
    /// The statement was carried out.
    Done,
    /// Whether there is such a row.
    Exists(bool),
    /// The amount that was read, if there was a row to read it from.
    Amount(Option<i64>),
    /// The statement failed.
    Failed(DatabaseFailure),
}

/// Where a reply leads.
pub enum Outcome {
    /// To the next statement.
    Next(Stage),
    /// To the end, with the identifier of what was written or with an error.
    End(Result<u128, AppErrorView>),
}

// ---------------------------------------------------------------------------
// The course of a transaction
// ---------------------------------------------------------------------------

/// A transaction between two statements: what it is there to do, and the
/// statement that it waits for.
pub struct TransactionView {
    pub work: WorkView,
    pub stage: Stage,
}

/// The line items that a piece of work writes.
pub open spec fn written_items(work: WorkView) -> Seq<ValidatedItemView> {
    match work {
        WorkView::Create { order, .. } => order.items,
        WorkView::Replace { order, .. } => order.items,
        _ => Seq::empty(),
    }
}

impl TransactionView {
    /// Whether the work ever waits for this statement.
    pub open spec fn wf(self) -> bool {
        match self.stage {
            Stage::Begin => true,
            Stage::Commit => true,
            Stage::LockOrder => !(self.work is Create),
            Stage::CheckPayments => self.work is Replace || self.work is Delete,
            Stage::ReadTotal => self.work is Pay,
            Stage::SumPayments { .. } => self.work is Pay,
            Stage::InsertOrder => self.work is Create,
            Stage::UpdateOrder => self.work is Replace,
            Stage::DeleteItems => self.work is Replace,
            Stage::InsertItems => (self.work is Create || self.work is Replace) && positions_fit(
                written_items(self.work).len(),
            ),
            Stage::DeleteOrder => self.work is Delete,
            Stage::InsertPayment => self.work is Pay,
        }
    }
}

/// The statement that a transaction waits for.
pub open spec fn statement_of(tx: TransactionView) -> StatementView {
    let order_id = tx.work.order_id();
    let owner = tx.work.owner();
    match (tx.stage, tx.work) {
        (Stage::LockOrder, _) => StatementView::LockOrder { owner, order_id },
        (Stage::CheckPayments, _) => StatementView::CheckPayments { order_id },
        (Stage::ReadTotal, _) => StatementView::ReadTotal { order_id },
        (Stage::SumPayments { .. }, _) => StatementView::SumPayments { order_id },
        (Stage::InsertOrder, WorkView::Create { order, .. }) => StatementView::InsertOrder {
            owner,
            order_id,
            order,
        },
        (Stage::UpdateOrder, WorkView::Replace { order, .. }) => StatementView::UpdateOrder {
            order_id,
            order,
        },
        (Stage::DeleteItems, _) => StatementView::DeleteItems { order_id },
        (Stage::InsertItems, _) => StatementView::InsertItems {
            order_id,
            rows: rows_of(written_items(tx.work)),
        },
        (Stage::DeleteOrder, _) => StatementView::DeleteOrder { order_id },
        (Stage::InsertPayment, WorkView::Pay { payment_id, payment, .. }) =>
            StatementView::InsertPayment { payment_id, order_id, payment },
        (Stage::Commit, _) => StatementView::Commit,
        _ => StatementView::Begin,
    }
}

/// Where a transaction goes once the order itself is written: to its line items,
/// if there are any.
pub open spec fn after_the_order(work: WorkView) -> Outcome {
    let count = written_items(work).len();
    if count == 0 {
        Outcome::Next(Stage::Commit)
    } else if positions_fit(count) {
        Outcome::Next(Stage::InsertItems)
    } else {
        Outcome::End(Err(AppErrorView::Internal))
    }
}

/// Where a reply leads a transaction. A failed statement ends it, and so does a
/// reply of a kind that the statement cannot have.
pub open spec fn outcome(tx: TransactionView, reply: Reply) -> Outcome {
    match (tx.stage, reply) {
        (_, Reply::Failed(failure)) => Outcome::End(Err(error::database_error(failure))),
        (Stage::Begin, Reply::Done) => Outcome::Next(
            if tx.work is Create {
                Stage::InsertOrder
            } else {
                Stage::LockOrder
            },
        ),
        (Stage::LockOrder, Reply::Exists(false)) => Outcome::End(Err(AppErrorView::NotFound)),
        (Stage::LockOrder, Reply::Exists(true)) => Outcome::Next(
            if tx.work is Pay {
                Stage::ReadTotal
            } else {
                Stage::CheckPayments
            },
        ),
        (Stage::CheckPayments, Reply::Exists(true)) => Outcome::End(
            Err(AppErrorView::OrderHasPayments),
        ),
        (Stage::CheckPayments, Reply::Exists(false)) => Outcome::Next(
            if tx.work is Replace {
                Stage::UpdateOrder
            } else {
                Stage::DeleteOrder
            },
        ),
        (Stage::ReadTotal, Reply::Amount(None)) => Outcome::End(Err(AppErrorView::NotFound)),
        (Stage::ReadTotal, Reply::Amount(Some(total_cents))) => Outcome::Next(
            Stage::SumPayments { total_cents },
        ),
        (Stage::SumPayments { total_cents }, Reply::Amount(Some(paid_cents))) => {
            match payments::payment_refusal(
                total_cents as int,
                paid_cents as int,
                tx.work->payment.amount_cents as int,
            ) {
                Some(refusal) => Outcome::End(Err(refusal)),
                None => Outcome::Next(Stage::InsertPayment),
            }
        },
        (Stage::InsertOrder, Reply::Done) => after_the_order(tx.work),
        (Stage::UpdateOrder, Reply::Done) => Outcome::Next(Stage::DeleteItems),
        (Stage::DeleteItems, Reply::Done) => after_the_order(tx.work),
        (Stage::InsertItems, Reply::Done) => Outcome::Next(Stage::Commit),
        (Stage::DeleteOrder, Reply::Done) => Outcome::Next(Stage::Commit),
        (Stage::InsertPayment, Reply::Done) => Outcome::Next(Stage::Commit),
        (Stage::Commit, Reply::Done) => Outcome::End(Ok(tx.work.result_id())),
        _ => Outcome::End(Err(AppErrorView::Internal)),
    }
}

/// A write transaction.
#[derive(Debug)]
pub struct WriteTransaction {
    work: Work,
    stage: Stage,
}

/// Where a reply led.
#[derive(Debug)]
pub enum Progress {
    /// Run the transaction's next statement.
    Continue(WriteTransaction),
    /// The transaction is over: committed, or to be rolled back.
    Finished(AppResult<u128>),
}

impl View for Work {
    type V = WorkView;

    closed spec fn view(&self) -> WorkView {
        match self {
            Work::Create { owner, order_id, order } => WorkView::Create {
                owner: owner@,
                order_id: *order_id,
                order: order@,
            },
            Work::Replace { owner, order_id, order } => WorkView::Replace {
                owner: owner@,
                order_id: *order_id,
                order: order@,
            },
            Work::Delete { owner, order_id } => WorkView::Delete {
                owner: owner@,
                order_id: *order_id,
            },
            Work::Pay { owner, order_id, payment_id, payment } => WorkView::Pay {
                owner: owner@,
                order_id: *order_id,
                payment_id: *payment_id,
                payment: *payment,
            },
        }
    }
}

impl View for WriteTransaction {
    type V = TransactionView;

    closed spec fn view(&self) -> TransactionView {
        TransactionView { work: self.work@, stage: self.stage }
    }
}

/// The transaction that writes an order and all of its line items, or neither.
pub fn insert_order(owner_user_id: &str, order_id: u128, order: ValidatedOrder) -> (r:
    WriteTransaction)
    ensures
        r@.work == (WorkView::Create { owner: owner_user_id@, order_id, order: order@ }),
        r@.stage == Stage::Begin,
{
    WriteTransaction {
        work: Work::Create { owner: owner_user_id.to_owned(), order_id, order },
        stage: Stage::Begin,
    }
}

/// The transaction that replaces an order's contents. The line items are deleted
/// and inserted again: a line has no identity that an edit could preserve.
pub fn update_order_transaction(owner_user_id: &str, order_id: u128, order: ValidatedOrder) -> (r:
    WriteTransaction)
    ensures
        r@.work == (WorkView::Replace { owner: owner_user_id@, order_id, order: order@ }),
        r@.stage == Stage::Begin,
{
    WriteTransaction {
        work: Work::Replace { owner: owner_user_id.to_owned(), order_id, order },
        stage: Stage::Begin,
    }
}

/// The transaction that deletes an order.
pub fn delete_order_transaction(owner_user_id: &str, order_id: u128) -> (r: WriteTransaction)
    ensures
        r@.work == (WorkView::Delete { owner: owner_user_id@, order_id }),
        r@.stage == Stage::Begin,
{
    WriteTransaction {
        work: Work::Delete { owner: owner_user_id.to_owned(), order_id },
        stage: Stage::Begin,
    }
}

/// The transaction that records a payment, or refuses it.
pub fn record_payment_transaction(
    owner_user_id: &str,
    order_id: u128,
    payment_id: u128,
    payment: ValidatedPayment,
) -> (r: WriteTransaction)
    ensures
        r@.work == (WorkView::Pay { owner: owner_user_id@, order_id, payment_id, payment }),
        r@.stage == Stage::Begin,
{
    WriteTransaction {
        work: Work::Pay { owner: owner_user_id.to_owned(), order_id, payment_id, payment },
        stage: Stage::Begin,
    }
}

/// What a lock that was asked for leads to: nothing if the row was found, and
/// otherwise one answer for a missing order and for somebody else's.
pub fn lock_owned_order(found: bool) -> (r: AppResult<()>)
    ensures
        found ==> r is Ok,
        !found ==> (r matches Err(error) && error@ == AppErrorView::NotFound),
{
    if found {
        Ok(())
    } else {
        Err(AppError::NotFound)
    }
}

/// Refuses to change an order that money has been recorded against.
pub fn ensure_no_payments(has_payments: bool) -> (r: AppResult<()>)
    ensures
        !has_payments ==> r is Ok,
        has_payments ==> (r matches Err(error) && error@ == AppErrorView::OrderHasPayments),
{
    if has_payments {
        Err(AppError::OrderHasPayments)
    } else {
        Ok(())
    }
}

impl Work {
    fn order_id(&self) -> (r: u128)
        ensures
            r == self@.order_id(),
    {
        match self {
            Work::Create { order_id, .. } => *order_id,
            Work::Replace { order_id, .. } => *order_id,
            Work::Delete { order_id, .. } => *order_id,
            Work::Pay { order_id, .. } => *order_id,
        }
    }

    fn owner(&self) -> (r: &str)
        ensures
            r@ == self@.owner(),
    {
        match self {
            Work::Create { owner, .. } => owner.as_str(),
            Work::Replace { owner, .. } => owner.as_str(),
            Work::Delete { owner, .. } => owner.as_str(),
            Work::Pay { owner, .. } => owner.as_str(),
        }
    }

    fn result_id(&self) -> (r: u128)
        ensures
            r == self@.result_id(),
    {
        match self {
            Work::Pay { payment_id, .. } => *payment_id,
            _ => self.order_id(),
        }
    }

    /// Where the transaction goes once the order itself is written.
    fn after_the_order(&self) -> (r: AppResult<Stage>)
        ensures
            match r {
                Ok(stage) => after_the_order(self@) == Outcome::Next(stage),
                Err(error) => after_the_order(self@) == Outcome::End(Err(error@)),
            },
    {
        let count: usize = match self {
            Work::Create { order, .. } => order.items.len(),
            Work::Replace { order, .. } => order.items.len(),
            _ => 0,
        };
        if count == 0 {
            Ok(Stage::Commit)
        } else if count <= 0x8000_0000 {
            Ok(Stage::InsertItems)
        } else {
            Err(AppError::Internal)
        }
    }
}

impl WriteTransaction {
    /// A transaction only ever waits for a statement of its work.
    #[verifier::type_invariant]
    spec fn on_course(self) -> bool {
        self@.wf()
    }

    /// The statement to run next.
    pub fn statement(&self) -> (r: Statement<'_>)
        ensures
            r@ == statement_of(self@),
            r matches Statement::InsertItems { rows, .. } ==> forall|i: int|
                0 <= i < rows@.len() ==> ids::is_version_7((#[trigger] rows@[i]).id),
    {
        proof {
            use_type_invariant(self);
        }
        let order_id: u128 = self.work.order_id();
        match (self.stage, &self.work) {
            (Stage::Begin, _) => Statement::Begin,
            (Stage::LockOrder, _) => Statement::LockOrder { owner: self.work.owner(), order_id },
            (Stage::CheckPayments, _) => Statement::CheckPayments { order_id },
            (Stage::ReadTotal, _) => Statement::ReadTotal { order_id },
            (Stage::SumPayments { .. }, _) => Statement::SumPayments { order_id },
            (Stage::InsertOrder, Work::Create { owner, order, .. }) => Statement::InsertOrder {
                owner: owner.as_str(),
                order_id,
                order,
            },
            (Stage::UpdateOrder, Work::Replace { order, .. }) => Statement::UpdateOrder {
                order_id,
                order,
            },
            (Stage::DeleteItems, _) => Statement::DeleteItems { order_id },
            (Stage::InsertItems, Work::Create { order, .. }) => match item_rows(&order.items) {
                Ok(rows) => Statement::InsertItems { order_id, rows },
                Err(_) => vstd::pervasive::unreached(),
            },
            (Stage::InsertItems, Work::Replace { order, .. }) => match item_rows(&order.items) {
                Ok(rows) => Statement::InsertItems { order_id, rows },
                Err(_) => vstd::pervasive::unreached(),
            },
            (Stage::DeleteOrder, _) => Statement::DeleteOrder { order_id },
            (Stage::InsertPayment, Work::Pay { payment_id, payment, .. }) =>
                Statement::InsertPayment { payment_id: *payment_id, order_id, payment: *payment },
            (Stage::Commit, _) => Statement::Commit,
            _ => vstd::pervasive::unreached(),
        }
    }

    /// Where the reply leads: the next stage, or the end.
    fn decide(&self, reply: Reply) -> (r: Result<Stage, AppResult<u128>>)
        ensures
            match r {
                Ok(stage) => outcome(self@, reply) == Outcome::Next(stage) && (TransactionView {
                    work: self@.work,
                    stage,
                }).wf(),
                Err(Ok(id)) => outcome(self@, reply) == Outcome::End(Ok(id)),
                Err(Err(error)) => outcome(self@, reply) == Outcome::End(Err(error@)),
            },
    {
        proof {
            use_type_invariant(self);
        }
        match (self.stage, reply) {
            (_, Reply::Failed(failure)) => Err(Err(AppError::from_database(failure))),
            (Stage::Begin, Reply::Done) => match self.work {
                Work::Create { .. } => Ok(Stage::InsertOrder),
                _ => Ok(Stage::LockOrder),
            },
            (Stage::LockOrder, Reply::Exists(found)) => match lock_owned_order(found) {
                Ok(_) => match self.work {
                    Work::Pay { .. } => Ok(Stage::ReadTotal),
                    _ => Ok(Stage::CheckPayments),
                },
                Err(error) => Err(Err(error)),
            },
            (Stage::CheckPayments, Reply::Exists(has_payments)) => match ensure_no_payments(
                has_payments,
            ) {
                Ok(_) => match self.work {
                    Work::Replace { .. } => Ok(Stage::UpdateOrder),
                    _ => Ok(Stage::DeleteOrder),
                },
                Err(error) => Err(Err(error)),
            },
            (Stage::ReadTotal, Reply::Amount(total)) => match total {
                Some(total_cents) => Ok(Stage::SumPayments { total_cents }),
                None => Err(Err(AppError::NotFound)),
            },
            (Stage::SumPayments { total_cents }, Reply::Amount(Some(paid_cents))) => {
                match &self.work {
                    Work::Pay { payment, .. } => match payments::decide_payment(
                        total_cents,
                        paid_cents,
                        payment.amount_cents,
                    ) {
                        Ok(_) => Ok(Stage::InsertPayment),
                        Err(error) => Err(Err(error)),
                    },
                    _ => Err(Err(AppError::Internal)),
                }
            },
            (Stage::UpdateOrder, Reply::Done) => Ok(Stage::DeleteItems),
            (Stage::InsertOrder, Reply::Done) | (Stage::DeleteItems, Reply::Done) => {
                match self.work.after_the_order() {
                    Ok(stage) => Ok(stage),
                    Err(error) => Err(Err(error)),
                }
            },
            (Stage::InsertItems, Reply::Done) | (Stage::DeleteOrder, Reply::Done)
            | (Stage::InsertPayment, Reply::Done) => Ok(Stage::Commit),
            (Stage::Commit, Reply::Done) => Err(Ok(self.work.result_id())),
            _ => Err(Err(AppError::Internal)),
        }
    }

    /// Takes the reply to the last statement, and goes on or ends.
    pub fn advance(self, reply: Reply) -> (r: Progress)
        ensures
            match r {
                Progress::Continue(tx) => {
                    &&& tx@.wf()
                    &&& tx@.work == self@.work
                    &&& outcome(self@, reply) == Outcome::Next(tx@.stage)
                },
                Progress::Finished(Ok(id)) => outcome(self@, reply) == Outcome::End(Ok(id)),
                Progress::Finished(Err(error)) => outcome(self@, reply) == Outcome::End(
                    Err(error@),
                ),
            },
    {
        match self.decide(reply) {
            Ok(stage) => Progress::Continue(WriteTransaction { work: self.work, stage }),
            Err(result) => Progress::Finished(result),
        }
    }
}

// ---------------------------------------------------------------------------
// Laws
// ---------------------------------------------------------------------------

/// Some rows with one more, behind every row that does not stand later.
pub open spec fn placed(rows: Seq<ItemRowView>, row: ItemRowView) -> Seq<ItemRowView>
    decreases rows.len(),
{
    if rows.len() == 0 || rows.last().position <= row.position {
        rows.push(row)
    } else {
        placed(rows.drop_last(), row).push(rows.last())
    }
}

/// Rows in the order of their positions.
pub open spec fn in_position_order(rows: Seq<ItemRowView>) -> Seq<ItemRowView>
    decreases rows.len(),
{
    if rows.len() == 0 {
        rows
    } else {
        placed(in_position_order(rows.drop_last()), rows.last())
    }
}

/// Whether the positions grow from row to row.
pub open spec fn positions_grow(rows: Seq<ItemRowView>) -> bool {
    forall|i: int, j: int|
        0 <= i < j < rows.len() ==> (#[trigger] rows[i]).position < (#[trigger] rows[j]).position
}

/// Every line of an order has a row of its own, with its description, its numbers
/// and a position that no other row has. The positions grow with the place of the
/// line, so that the rows in the order of their positions are the lines in the order
/// in which they were submitted.
pub proof fn law_positions_keep_the_order(items: Seq<ValidatedItemView>)
    ensures
        rows_of(items).len() == items.len(),
        forall|i: int| 0 <= i < items.len() ==> (#[trigger] rows_of(items)[i]).item == items[i],
        forall|i: int, j: int|
            0 <= i < j < items.len() ==> (#[trigger] rows_of(items)[i]).position < (
            #[trigger] rows_of(items)[j]).position,
        forall|i: int| 0 <= i < items.len() ==> 0 <= (#[trigger] rows_of(items)[i]).position,
        in_position_order(rows_of(items)).map_values(|row: ItemRowView| row.item) == items,
{
    lemma_in_order_already(rows_of(items));
    assert(rows_of(items).map_values(|row: ItemRowView| row.item) =~= items);
}

/// Rows whose positions grow are in order already.
pub proof fn lemma_in_order_already(rows: Seq<ItemRowView>)
    requires
        positions_grow(rows),
    ensures
        in_position_order(rows) == rows,
    decreases rows.len(),
{
    if rows.len() > 0 {
        let front = rows.drop_last();
        assert(positions_grow(front)) by {
            assert forall|i: int, j: int| 0 <= i < j < front.len() implies (
            #[trigger] front[i]).position < (#[trigger] front[j]).position by {
                assert(rows[i].position < rows[j].position);
            }
        }
        lemma_in_order_already(front);
        if front.len() > 0 {
            assert(rows[rows.len() - 2].position < rows[rows.len() - 1].position);
        }
        assert(front.push(rows.last()) =~= rows);
    }
}

/// A transaction hands out the identifier of what it was made for, and works on
/// behalf of whoever it was made for.
pub proof fn law_work_is_about_one_order(
    owner: Seq<char>,
    order_id: u128,
    payment_id: u128,
    order: ValidatedOrderView,
    payment: ValidatedPayment,
)
    ensures
        (WorkView::Create { owner, order_id, order }).order_id() == order_id,
        (WorkView::Replace { owner, order_id, order }).order_id() == order_id,
        (WorkView::Delete { owner, order_id }).order_id() == order_id,
        (WorkView::Pay { owner, order_id, payment_id, payment }).order_id() == order_id,
        (WorkView::Create { owner, order_id, order }).owner() == owner,
        (WorkView::Replace { owner, order_id, order }).owner() == owner,
        (WorkView::Delete { owner, order_id }).owner() == owner,
        (WorkView::Pay { owner, order_id, payment_id, payment }).owner() == owner,
        (WorkView::Create { owner, order_id, order }).result_id() == order_id,
        (WorkView::Replace { owner, order_id, order }).result_id() == order_id,
        (WorkView::Delete { owner, order_id }).result_id() == order_id,
        (WorkView::Pay { owner, order_id, payment_id, payment }).result_id() == payment_id,
{
}

/// Success is reported only once the commit was carried out, and names what was
/// written.
pub proof fn law_success_only_after_the_commit(tx: TransactionView, reply: Reply, id: u128)
    requires
        outcome(tx, reply) == Outcome::End(Ok(id)),
    ensures
        tx.stage == Stage::Commit,
        reply == Reply::Done,
        id == tx.work.result_id(),
{
}

/// A statement that fails ends the transaction with an error that says no more than
/// that the database cannot be reached, or nothing at all.
pub proof fn law_a_failure_ends_the_work(tx: TransactionView, failure: DatabaseFailure)
    ensures
        outcome(tx, Reply::Failed(failure)) matches Outcome::End(Err(error)) && (
        error::error_status(error) == if failure == DatabaseFailure::Unreachable {
            503int
        } else {
            500int
        }) && error::error_fields(error).len() == 0,
{
}

/// The database is handed what the statement says: the values of the order, the rows
/// and the payment themselves.
pub proof fn law_statements_say_what_they_hold(statement: Statement<'_>)
    ensures
        statement matches Statement::InsertPayment { payment_id, order_id, payment } ==> (
        statement@ matches StatementView::InsertPayment {
            payment_id: said_id,
            order_id: said_order,
            payment: said,
        } && said_id == payment_id && said_order == order_id && said.amount_cents
            == payment.amount_cents && said.paid_on == payment.paid_on),
        statement matches Statement::InsertOrder { owner, order_id, order } ==> (
        statement@ matches StatementView::InsertOrder {
            owner: said_owner,
            order_id: said_id,
            order: said,
        } && said_owner == owner@ && said_id == order_id && said.customer == order.customer@
            && said.due_date == order.due_date && said.total_cents == order.total_cents),
        statement matches Statement::UpdateOrder { order_id, order } ==> (
        statement@ matches StatementView::UpdateOrder { order_id: said_id, order: said } && said_id
            == order_id && said.customer == order.customer@ && said.due_date == order.due_date
            && said.total_cents == order.total_cents),
        statement matches Statement::LockOrder { owner, order_id } ==> (
        statement@ matches StatementView::LockOrder { owner: said_owner, order_id: said_id }
            && said_owner == owner@ && said_id == order_id),
        statement matches Statement::InsertItems { order_id, rows } ==> (
        statement@ matches StatementView::InsertItems { order_id: said_id, rows: said } && said_id
            == order_id && said.len() == rows@.len() && forall|i: int|
            0 <= i < rows@.len() ==> (#[trigger] said[i]).position == rows@[i].position
                && said[i].item.description == rows@[i].description@ && said[i].item.quantity
                == rows@[i].quantity && said[i].item.unit_price_cents == rows@[i].unit_price_cents
                && said[i].item.line_total_cents == rows@[i].line_total_cents),
        statement matches Statement::DeleteOrder { order_id } ==> statement@ == (
        StatementView::DeleteOrder { order_id }),
        statement matches Statement::DeleteItems { order_id } ==> statement@ == (
        StatementView::DeleteItems { order_id }),
        statement is Commit <==> statement@ is Commit,
        statement is Begin <==> statement@ is Begin,
{
}

/// As many rows fit as there are positions from zero on.
pub proof fn law_how_many_rows_fit(count: nat)
    ensures
        positions_fit(count) <==> count == 0 || count - 1 <= i32::MAX,
{
}

/// A payment goes ahead exactly if what was paid before and the payment together stay
/// within the total. Otherwise the transaction ends with what is left to pay.
pub proof fn law_payments_go_ahead_within_the_total(
    tx: TransactionView,
    total_cents: i64,
    paid_cents: i64,
    payment: ValidatedPayment,
)
    requires
        tx.stage == (Stage::SumPayments { total_cents }),
        tx.work matches WorkView::Pay { payment: paying, .. } && paying == payment,
        0 < payment.amount_cents,
        0 <= paid_cents <= total_cents,
    ensures
        outcome(tx, Reply::Amount(Some(paid_cents))) == Outcome::Next(Stage::InsertPayment)
            <==> paid_cents + payment.amount_cents <= total_cents,
        paid_cents + payment.amount_cents > total_cents ==> outcome(
            tx,
            Reply::Amount(Some(paid_cents)),
        ) == Outcome::End(
            Err(
                AppErrorView::PaymentExceedsAmountDue { maximum_cents: total_cents - paid_cents },
            ),
        ),
{
    payments::law_refusal_names_what_is_left(total_cents, paid_cents, payment.amount_cents);
}

/// A change to an existing order asks for the lock first. Without the row there is
/// nothing to change, and with payments nothing may be changed or deleted.
pub proof fn law_existing_orders_are_locked_first(tx: TransactionView)
    requires
        !(tx.work is Create),
    ensures
        tx.stage == Stage::Begin ==> outcome(tx, Reply::Done) == Outcome::Next(Stage::LockOrder),
        tx.stage == Stage::LockOrder ==> outcome(tx, Reply::Exists(false)) == Outcome::End(
            Err(AppErrorView::NotFound),
        ),
        tx.stage == Stage::LockOrder ==> statement_of(tx) == (StatementView::LockOrder {
            owner: tx.work.owner(),
            order_id: tx.work.order_id(),
        }),
        tx.stage == Stage::LockOrder && !(tx.work is Pay) ==> outcome(tx, Reply::Exists(true))
            == Outcome::Next(Stage::CheckPayments),
        tx.stage == Stage::CheckPayments ==> outcome(tx, Reply::Exists(true)) == Outcome::End(
            Err(AppErrorView::OrderHasPayments),
        ),
{
}

/// A reply of a kind that a statement cannot have ends the transaction as a defect.
pub proof fn law_replies_of_another_kind_are_defects(tx: TransactionView, reply: Reply)
    requires
        !(reply is Failed),
        match tx.stage {
            Stage::LockOrder => !(reply is Exists),
            Stage::CheckPayments => !(reply is Exists),
            Stage::ReadTotal => !(reply is Amount),
            Stage::SumPayments { .. } => !(reply matches Reply::Amount(Some(_))),
            _ => !(reply is Done),
        },
    ensures
        outcome(tx, reply) == Outcome::End(Err(AppErrorView::Internal)),
{
}

/// Putting rows in the order of their positions keeps every row, and leaves none
/// behind a row that stands later.
pub proof fn law_position_order_is_an_order(rows: Seq<ItemRowView>)
    ensures
        in_position_order(rows).to_multiset() == rows.to_multiset(),
        forall|i: int, j: int|
            0 <= i < j < in_position_order(rows).len() ==> (
            #[trigger] in_position_order(rows)[i]).position <= (
            #[trigger] in_position_order(rows)[j]).position,
    decreases rows.len(),
{
    broadcast use vstd::seq_lib::group_to_multiset_ensures;

    if rows.len() > 0 {
        let front = rows.drop_last();
        law_position_order_is_an_order(front);
        lemma_placed(in_position_order(front), rows.last());
        assert(front.push(rows.last()) =~= rows);
    }
}

proof fn lemma_placed(rows: Seq<ItemRowView>, row: ItemRowView)
    requires
        forall|i: int, j: int|
            0 <= i < j < rows.len() ==> (#[trigger] rows[i]).position <= (
            #[trigger] rows[j]).position,
    ensures
        placed(rows, row).to_multiset() == rows.push(row).to_multiset(),
        placed(rows, row).len() == rows.len() + 1,
        forall|i: int, j: int|
            0 <= i < j < placed(rows, row).len() ==> (#[trigger] placed(rows, row)[i]).position <= (
            #[trigger] placed(rows, row)[j]).position,
        forall|i: int|
            0 <= i < placed(rows, row).len() ==> (#[trigger] placed(rows, row)[i]).position
                <= row.position || rows.len() > 0 && placed(rows, row)[i].position
                <= rows.last().position,
    decreases rows.len(),
{
    broadcast use vstd::seq_lib::group_to_multiset_ensures;

    if rows.len() > 0 && rows.last().position > row.position {
        let front = rows.drop_last();
        assert forall|i: int, j: int| 0 <= i < j < front.len() implies (
        #[trigger] front[i]).position <= (#[trigger] front[j]).position by {
            assert(rows[i].position <= rows[j].position);
        }
        lemma_placed(front, row);
        if front.len() > 0 {
            assert(rows[rows.len() - 2].position <= rows[rows.len() - 1].position);
        }
        assert(front.push(rows.last()) =~= rows);
        let inner = placed(front, row);
        assert(placed(rows, row) == inner.push(rows.last()));
        assert(rows.push(row).to_multiset() =~= front.push(row).to_multiset().insert(rows.last()));
    } else {
        assert forall|i: int| 0 <= i < rows.len() implies (#[trigger] rows[i]).position
            <= row.position by {
            assert(rows[rows.len() - 1] == rows.last());
            if i < rows.len() - 1 {
                assert(rows[i].position <= rows[rows.len() - 1].position);
            }
        }
    }
}

} // verus!
