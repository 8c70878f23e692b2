//! The write transactions and the HTTP interface, against a store in memory that
//! runs their statements.

use std::collections::BTreeMap;

use orders_and_settlements::app::MoneyText;
use orders_and_settlements::auth::{caller, session_reply, AuthReply, AuthUser, Caller, RawReply};
use orders_and_settlements::date::CalendarDate;
use orders_and_settlements::error::{AppError, AppResult, DatabaseFailure};
use orders_and_settlements::http::RequestHead;
use orders_and_settlements::ids;
use orders_and_settlements::orders::api;
use orders_and_settlements::orders::read::{order_detail, order_summaries, OrderRow, SummaryRow};
use orders_and_settlements::orders::service::{
    create_order_service, delete_order_service, record_payment_service, update_order_service,
};
use orders_and_settlements::orders::store::{
    insert_order, item_rows, record_payment_transaction, Progress, Reply, Statement,
    WriteTransaction,
};
use orders_and_settlements::orders::views::OrderDetailView;
use orders_and_settlements::orders::{
    NewOrderInput, OrderDetail, OrderItemInput, OrderLine, OrderStatus, OrderSummary,
    ValidatedItem, ValidatedOrder,
};
use orders_and_settlements::payments::{NewPaymentInput, PaymentRecord, ValidatedPayment};

// ---------------------------------------------------------------------------
// The store
// ---------------------------------------------------------------------------

#[derive(Clone, Debug)]
struct Stored {
    owner: String,
    customer: String,
    due_date: CalendarDate,
    total_cents: i64,
    items: Vec<(i32, OrderLine)>,
    payments: Vec<PaymentRecord>,
}

#[derive(Clone, Debug)]
enum Draft {
    Untouched,
    Written(Stored),
    Removed,
}

struct Session {
    number: usize,
    order_id: Option<u128>,
    draft: Draft,
}

#[derive(Default)]
struct Database {
    orders: BTreeMap<u128, Stored>,
    locks: BTreeMap<u128, usize>,
    sessions: usize,
    /// How many statements may still run before one fails.
    working: Option<usize>,
}

impl Database {
    fn open(&mut self) -> Session {
        self.sessions += 1;
        Session {
            number: self.sessions,
            order_id: None,
            draft: Draft::Untouched,
        }
    }

    fn seen(&self, session: &Session, order_id: u128) -> Option<Stored> {
        match &session.draft {
            Draft::Untouched => self.orders.get(&order_id).cloned(),
            Draft::Written(order) => Some(order.clone()),
            Draft::Removed => None,
        }
    }

    fn lock(&mut self, session: &mut Session, order_id: u128) {
        self.locks.insert(order_id, session.number);
        session.order_id = Some(order_id);
    }

    fn close(&mut self, session: &Session) {
        let number = session.number;
        self.locks.retain(|_, holder| *holder != number);
    }

    /// Runs a statement, or nothing while somebody else holds the lock.
    fn run(&mut self, session: &mut Session, statement: &Statement<'_>) -> Option<Reply> {
        if let Some(left) = self.working {
            if left == 0 {
                return Some(Reply::Failed(DatabaseFailure::Unreachable));
            }
            self.working = Some(left - 1);
        }
        let reply = match statement {
            Statement::Begin => Reply::Done,
            Statement::LockOrder { owner, order_id } => match self.orders.get(order_id) {
                Some(order) if order.owner == *owner => {
                    if self.locks.contains_key(order_id) {
                        return None;
                    }
                    self.lock(session, *order_id);
                    Reply::Exists(true)
                }
                _ => Reply::Exists(false),
            },
            Statement::CheckPayments { order_id } => Reply::Exists(
                self.seen(session, *order_id)
                    .map(|order| !order.payments.is_empty())
                    .unwrap_or(false),
            ),
            Statement::ReadTotal { order_id } => Reply::Amount(
                self.seen(session, *order_id)
                    .map(|order| order.total_cents),
            ),
            Statement::SumPayments { order_id } => Reply::Amount(Some(
                self.seen(session, *order_id)
                    .map(|order| order.payments.iter().map(|p| p.amount_cents).sum())
                    .unwrap_or(0),
            )),
            Statement::InsertOrder {
                owner,
                order_id,
                order,
            } => {
                if self.orders.contains_key(order_id) || self.locks.contains_key(order_id) {
                    Reply::Failed(DatabaseFailure::Rejected)
                } else {
                    self.lock(session, *order_id);
                    session.draft = Draft::Written(Stored {
                        owner: owner.to_string(),
                        customer: order.customer.clone(),
                        due_date: order.due_date,
                        total_cents: order.total_cents,
                        items: vec![],
                        payments: vec![],
                    });
                    Reply::Done
                }
            }
            Statement::UpdateOrder { order_id, order } => {
                if let Some(mut old) = self.seen(session, *order_id) {
                    old.customer = order.customer.clone();
                    old.due_date = order.due_date;
                    old.total_cents = order.total_cents;
                    session.draft = Draft::Written(old);
                }
                Reply::Done
            }
            Statement::DeleteItems { order_id } => {
                if let Some(mut old) = self.seen(session, *order_id) {
                    old.items.clear();
                    session.draft = Draft::Written(old);
                }
                Reply::Done
            }
            Statement::InsertItems { order_id, rows } => {
                let mut old = self.seen(session, *order_id).expect("the order is there");
                let mut reply = Reply::Done;
                for row in rows {
                    // The table's own constraint.
                    if row.line_total_cents != row.quantity * row.unit_price_cents {
                        reply = Reply::Failed(DatabaseFailure::Rejected);
                    }
                    old.items.push((
                        row.position,
                        OrderLine {
                            description: row.description.clone(),
                            quantity: row.quantity,
                            unit_price_cents: row.unit_price_cents,
                            line_total_cents: row.line_total_cents,
                        },
                    ));
                }
                session.draft = Draft::Written(old);
                reply
            }
            Statement::DeleteOrder { .. } => {
                session.draft = Draft::Removed;
                Reply::Done
            }
            Statement::InsertPayment {
                payment_id,
                order_id,
                payment,
            } => {
                let mut old = self.seen(session, *order_id).expect("the order is there");
                if old.payments.iter().any(|p| p.id == *payment_id) {
                    return Some(Reply::Failed(DatabaseFailure::Rejected));
                }
                old.payments.push(PaymentRecord {
                    id: *payment_id,
                    amount_cents: payment.amount_cents,
                    paid_on: payment.paid_on,
                });
                session.draft = Draft::Written(old);
                Reply::Done
            }
            Statement::Commit => {
                if let Some(order_id) = session.order_id {
                    match &session.draft {
                        Draft::Untouched => {}
                        Draft::Written(order) => {
                            self.orders.insert(order_id, order.clone());
                        }
                        Draft::Removed => {
                            self.orders.remove(&order_id);
                        }
                    }
                }
                Reply::Done
            }
        };
        Some(reply)
    }

    /// Runs a transaction to its end.
    fn write(&mut self, transaction: WriteTransaction) -> AppResult<u128> {
        self.write_all(vec![transaction]).remove(0)
    }

    /// Runs transactions at the same time, one statement of each in turn.
    fn write_all(&mut self, transactions: Vec<WriteTransaction>) -> Vec<AppResult<u128>> {
        let mut results: Vec<Option<AppResult<u128>>> = transactions.iter().map(|_| None).collect();
        let mut running: Vec<(usize, Session, WriteTransaction)> = transactions
            .into_iter()
            .enumerate()
            .map(|(index, transaction)| (index, self.open(), transaction))
            .collect();
        while !running.is_empty() {
            let mut next = Vec::new();
            for (index, mut session, transaction) in running {
                let statement = transaction.statement();
                match self.run(&mut session, &statement) {
                    None => {
                        drop(statement);
                        next.push((index, session, transaction));
                    }
                    Some(reply) => {
                        drop(statement);
                        match transaction.advance(reply) {
                            Progress::Continue(transaction) => {
                                next.push((index, session, transaction))
                            }
                            Progress::Finished(result) => {
                                self.close(&session);
                                results[index] = Some(result);
                            }
                        }
                    }
                }
            }
            running = next;
        }
        results.into_iter().map(|result| result.unwrap()).collect()
    }

    fn find(&self, owner: &str, order_id: u128) -> AppResult<OrderDetail> {
        let stored = self
            .orders
            .get(&order_id)
            .filter(|order| order.owner == owner);
        let row = stored.map(|order| OrderRow {
            id: order_id,
            customer: order.customer.clone(),
            due_date: order.due_date,
            total_cents: order.total_cents,
            paid_cents: order.payments.iter().map(|p| p.amount_cents).sum(),
            has_payments: !order.payments.is_empty(),
        });
        let mut items = stored.map(|order| order.items.clone()).unwrap_or_default();
        items.sort_by_key(|(position, _)| *position);
        let mut payments = stored.map(|order| order.payments.clone()).unwrap_or_default();
        payments.sort_by_key(|p| {
            let day = p.paid_on;
            std::cmp::Reverse((day.year, day.month, day.day, p.id))
        });
        order_detail(
            row,
            items.into_iter().map(|(_, line)| line).collect(),
            payments,
            today(),
        )
    }

    fn list(&self, owner: &str) -> Vec<OrderSummary> {
        let mut rows: Vec<SummaryRow> = self
            .orders
            .iter()
            .filter(|(_, order)| order.owner == owner)
            .map(|(id, order)| SummaryRow {
                id: *id,
                customer: order.customer.clone(),
                due_date: order.due_date,
                total_cents: order.total_cents,
                paid_cents: order.payments.iter().map(|p| p.amount_cents).sum(),
                item_count: order.items.len() as i64,
            })
            .collect();
        rows.sort_by_key(|row| (row.due_date.year, row.due_date.month, row.due_date.day));
        order_summaries(rows, today())
    }
}

fn day(year: i32, month: u32, day: u32) -> CalendarDate {
    CalendarDate::new(year, month, day).expect("a real calendar date")
}

fn today() -> CalendarDate {
    day(2026, 8, 13)
}

fn item(description: &str, quantity: &str, unit_price: &str) -> OrderItemInput {
    OrderItemInput {
        description: description.to_string(),
        quantity: quantity.to_string(),
        unit_price: unit_price.to_string(),
    }
}

fn order(items: Vec<OrderItemInput>) -> NewOrderInput {
    NewOrderInput {
        customer: "Acme Corp".to_string(),
        due_date: "2026-09-30".to_string(),
        items,
    }
}

fn failed_fields(error: &AppError) -> Vec<String> {
    let mut fields: Vec<String> = error
        .field_errors()
        .iter()
        .map(|failure| failure.field.clone())
        .collect();
    fields.sort();
    fields
}

fn create(db: &mut Database, owner: &str, input: &NewOrderInput) -> AppResult<u128> {
    let transaction = create_order_service(owner, input)?;
    db.write(transaction)
}

fn update(db: &mut Database, owner: &str, id: u128, input: &NewOrderInput) -> AppResult<u128> {
    let transaction = update_order_service(owner, id, input)?;
    db.write(transaction)
}

fn delete(db: &mut Database, owner: &str, id: u128) -> AppResult<u128> {
    db.write(delete_order_service(owner, id))
}

fn pay(db: &mut Database, owner: &str, id: u128, input: &NewPaymentInput) -> AppResult<u128> {
    let transaction = record_payment_service(owner, id, input)?;
    db.write(transaction)
}

const OWNER: &str = "test-owner-1";
const STRANGER: &str = "test-owner-2";

// ---------------------------------------------------------------------------
// Persistence
// ---------------------------------------------------------------------------

#[test]
fn stores_an_order_with_its_line_items_in_order() {
    let mut db = Database::default();
    let input = order(vec![
        item("Consulting", "3", "19.99"),
        item("Licence", "1", "1000.00"),
        item("Support", "12", "5.00"),
    ]);

    let order_id = create(&mut db, OWNER, &input).expect("the order is valid");

    let stored = &db.orders[&order_id];
    assert_eq!(stored.owner, OWNER);
    assert_eq!(stored.customer, "Acme Corp");
    assert_eq!(stored.due_date, day(2026, 9, 30));
    // 5997 + 100000 + 6000. Recomputed by the server, never sent by the client.
    assert_eq!(stored.total_cents, 111_997);

    let items = &stored.items;
    assert_eq!(items.len(), 3);
    assert_eq!(items[0].0, 0);
    assert_eq!(items[0].1.description, "Consulting");
    assert_eq!(items[0].1.quantity, 3);
    assert_eq!(items[0].1.unit_price_cents, 1_999);
    assert_eq!(items[0].1.line_total_cents, 5_997);
    assert_eq!(items[2].0, 2);
    assert_eq!(items[2].1.description, "Support");
    assert_eq!(items[2].1.line_total_cents, 6_000);
}

#[test]
fn an_invalid_order_never_reaches_the_database() {
    let mut db = Database::default();

    let error = create(&mut db, OWNER, &order(vec![item("", "0", "")]))
        .expect_err("the order is not valid");
    assert_eq!(error.code(), "VALIDATION_FAILED");

    assert_eq!(db.orders.len(), 0);
    assert_eq!(db.sessions, 0);
}

fn corrupt_order() -> ValidatedOrder {
    ValidatedOrder {
        customer: "Acme Corp".to_string(),
        due_date: day(2026, 9, 30),
        total_cents: 5_997,
        items: vec![ValidatedItem {
            description: "Consulting".to_string(),
            quantity: 3,
            unit_price_cents: 1_999,
            line_total_cents: 1,
        }],
    }
}

#[test]
fn a_rejected_line_item_rolls_back_the_whole_order() {
    let mut db = Database::default();

    // Hand-built, bypassing the validator: `line_total_cents` disagrees with
    // `quantity * unit_price_cents`, which the constraint refuses. The order row
    // is inserted first, so this proves the rollback rather than the ordering of
    // the statements.
    let error = db
        .write(insert_order(OWNER, ids::new_id(), corrupt_order()))
        .expect_err("the constraint rejects the line item");
    assert_eq!(error, AppError::Internal);

    assert_eq!(
        db.orders.len(),
        0,
        "the order row must not survive its items"
    );
}

#[test]
fn two_owners_writing_at_once_stay_separate() {
    let mut db = Database::default();

    let consulting = order(vec![item("Consulting", "1", "1.00")]);
    let licence = order(vec![item("Licence", "2", "2.00")]);

    let results = db.write_all(vec![
        create_order_service(OWNER, &consulting).unwrap(),
        create_order_service(STRANGER, &licence).unwrap(),
    ]);

    let left = results[0].clone().expect("the first order is valid");
    let right = results[1].clone().expect("the second order is valid");
    assert_ne!(left, right);
    assert_eq!(db.orders[&left].owner, OWNER);
}

#[test]
fn an_order_without_items_is_written_without_a_statement_for_them() {
    let mut db = Database::default();
    let mut empty = corrupt_order();
    empty.items.clear();
    let id = db
        .write(insert_order(OWNER, 7, empty))
        .expect("there is nothing to reject");
    assert_eq!(id, 7);
    assert!(db.orders[&7].items.is_empty());
}

#[test]
fn an_identifier_that_is_taken_is_refused() {
    let mut db = Database::default();
    let validated = |customer: &str| ValidatedOrder {
        customer: customer.to_string(),
        ..corrupt_order()
    };
    let mut first = validated("First");
    first.items.clear();
    let mut second = validated("Second");
    second.items.clear();
    assert_eq!(db.write(insert_order(OWNER, 7, first)), Ok(7));
    assert_eq!(
        db.write(insert_order(OWNER, 7, second)),
        Err(AppError::Internal)
    );
    assert_eq!(db.orders[&7].customer, "First");
}

#[test]
fn a_failure_at_any_statement_leaves_nothing_behind() {
    let input = order(vec![item("Consulting", "1", "1.00")]);
    // Begin, insert the order, insert its items, commit.
    for working in 0..4 {
        let mut db = Database {
            working: Some(working),
            ..Database::default()
        };
        assert_eq!(
            create(&mut db, OWNER, &input),
            Err(AppError::DependencyUnavailable("PostgreSQL".to_string())),
            "after {working} statements"
        );
        assert!(db.orders.is_empty());
        assert!(db.locks.is_empty());
    }
    let mut db = Database {
        working: Some(4),
        ..Database::default()
    };
    assert!(create(&mut db, OWNER, &input).is_ok());
}

#[test]
fn a_reply_of_the_wrong_kind_ends_the_transaction() {
    let transaction = delete_order_service(OWNER, 7);
    match transaction.advance(Reply::Exists(true)) {
        Progress::Finished(result) => assert_eq!(result, Err(AppError::Internal)),
        Progress::Continue(_) => panic!("that is no reply to the first statement"),
    }
}

#[test]
fn rows_take_the_positions_of_their_items() {
    let items: Vec<ValidatedItem> = (0..3)
        .map(|n| ValidatedItem {
            description: format!("item {n}"),
            quantity: n + 1,
            unit_price_cents: 10,
            line_total_cents: 10 * (n + 1),
        })
        .collect();
    let rows = item_rows(&items).expect("three rows fit");
    for (index, row) in rows.iter().enumerate() {
        assert_eq!(row.position, index as i32);
        assert_eq!(row.description, items[index].description);
        assert_eq!(row.line_total_cents, items[index].line_total_cents);
    }
    assert!(rows[0].id < rows[1].id && rows[1].id < rows[2].id);
}

#[test]
fn every_line_item_is_inserted_under_an_identifier_of_version_seven() {
    let mut transaction = create_order_service(
        OWNER,
        &order(vec![item("A", "1", "1.00"), item("B", "2", "2.00")]),
    )
    .unwrap();
    let mut seen = Vec::new();
    loop {
        if let Statement::InsertItems { rows, .. } = transaction.statement() {
            seen = rows.iter().map(|row| row.id).collect();
        }
        match transaction.advance(Reply::Done) {
            Progress::Continue(next) => transaction = next,
            Progress::Finished(result) => {
                assert!(result.is_ok());
                break;
            }
        }
    }
    assert_eq!(seen.len(), 2);
    for id in seen {
        assert_eq!((id >> 76) & 0xf, 7, "the version");
        assert_eq!((id >> 62) & 0x3, 2, "the variant");
    }
}

// ---------------------------------------------------------------------------
// Reads, edits, and deletes
// ---------------------------------------------------------------------------

#[test]
fn lists_only_the_callers_orders_soonest_due_first() {
    let mut db = Database::default();

    let mut later = order(vec![item("Consulting", "1", "10.00")]);
    later.due_date = "2026-12-01".to_string();
    later.customer = "Later Ltd".to_string();
    let mut sooner = order(vec![
        item("Licence", "2", "5.00"),
        item("Support", "1", "1.00"),
    ]);
    sooner.due_date = "2026-09-01".to_string();
    sooner.customer = "Sooner Ltd".to_string();

    create(&mut db, OWNER, &later).expect("the later order is valid");
    create(&mut db, OWNER, &sooner).expect("the sooner order is valid");
    create(&mut db, STRANGER, &order(vec![item("Other", "1", "1.00")]))
        .expect("the stranger's order is valid");

    let listed = db.list(OWNER);

    assert_eq!(listed.len(), 2, "the stranger's order must not appear");
    assert_eq!(listed[0].customer, "Sooner Ltd");
    assert_eq!(listed[1].customer, "Later Ltd");

    assert_eq!(listed[0].item_count, 2);
    assert_eq!(listed[1].item_count, 1);

    assert_eq!(listed[0].total_cents, 1_100);
    assert_eq!(listed[0].paid_cents, 0);
    assert_eq!(listed[0].amount_due_cents(), 1_100);
}

#[test]
fn reads_one_order_with_its_items_in_the_order_they_were_entered() {
    let mut db = Database::default();

    let input = order(vec![
        item("Consulting", "3", "19.99"),
        item("Licence", "1", "$1,000.00"),
    ]);
    let order_id = create(&mut db, OWNER, &input).expect("the order is valid");

    let detail = db.find(OWNER, order_id).expect("the order is readable");

    assert_eq!(detail.id, order_id);
    assert_eq!(detail.customer, "Acme Corp");
    assert_eq!(detail.total_cents, 105_997);
    assert_eq!(detail.amount_due_cents(), 105_997);
    assert!(detail.editable, "an order with no payments can be changed");

    let descriptions: Vec<&str> = detail
        .items
        .iter()
        .map(|line| line.description.as_str())
        .collect();
    assert_eq!(descriptions, vec!["Consulting", "Licence"]);
    assert_eq!(detail.items[0].line_total_cents, 5_997);
}

#[test]
fn a_stranger_cannot_read_someone_elses_order() {
    let mut db = Database::default();

    let order_id = create(&mut db, OWNER, &order(vec![item("X", "1", "1.00")]))
        .expect("the order is valid");

    let refused = db
        .find(STRANGER, order_id)
        .expect_err("a stranger must not read it");

    // The same answer an id that was never written gets. A `403` here would
    // confirm to the stranger that this id exists.
    assert_eq!(refused, AppError::NotFound);
    assert_eq!(refused.status_code(), 404);
}

#[test]
fn an_id_that_was_never_written_is_not_found() {
    let db = Database::default();

    let missing = db
        .find(OWNER, ids::new_id())
        .expect_err("nothing was written under this id");

    assert_eq!(missing, AppError::NotFound);
}

#[test]
fn an_edit_replaces_the_items_and_recomputes_the_total() {
    let mut db = Database::default();

    let order_id = create(
        &mut db,
        OWNER,
        &order(vec![
            item("Consulting", "3", "19.99"),
            item("Licence", "1", "1000.00"),
        ]),
    )
    .expect("the order is valid");

    let mut edited = order(vec![item("Support", "2", "25.00")]);
    edited.customer = "Acme Holdings".to_string();
    edited.due_date = "2026-10-15".to_string();

    update(&mut db, OWNER, order_id, &edited).expect("the edit is valid");

    let detail = db.find(OWNER, order_id).expect("the order is still readable");

    assert_eq!(detail.customer, "Acme Holdings");
    assert_eq!(detail.due_date, day(2026, 10, 15));
    // Recomputed from the submitted strings, not adjusted from the old total.
    assert_eq!(detail.total_cents, 5_000);
    assert_eq!(detail.items.len(), 1, "the old items are gone, not merged");
    assert_eq!(detail.items[0].description, "Support");

    // The new row starts at position 0 again.
    let positions: Vec<i32> = db.orders[&order_id]
        .items
        .iter()
        .map(|(position, _)| *position)
        .collect();
    assert_eq!(positions, vec![0]);
}

#[test]
fn an_invalid_edit_leaves_the_stored_order_untouched() {
    let mut db = Database::default();

    let order_id = create(
        &mut db,
        OWNER,
        &order(vec![item("Consulting", "3", "19.99")]),
    )
    .expect("the order is valid");

    let refused = update(&mut db, OWNER, order_id, &order(vec![]))
        .expect_err("an order with no items is not valid");
    assert_eq!(failed_fields(&refused), vec!["items"]);

    let detail = db.find(OWNER, order_id).expect("the order survived");
    assert_eq!(detail.total_cents, 5_997);
    assert_eq!(detail.items.len(), 1);
}

#[test]
fn a_stranger_cannot_edit_or_delete_someone_elses_order() {
    let mut db = Database::default();

    let order_id = create(&mut db, OWNER, &order(vec![item("X", "1", "1.00")]))
        .expect("the order is valid");

    let edit = update(
        &mut db,
        STRANGER,
        order_id,
        &order(vec![item("Hijacked", "1", "0.01")]),
    )
    .expect_err("a stranger must not edit it");
    assert_eq!(edit, AppError::NotFound);

    let delete =
        delete(&mut db, STRANGER, order_id).expect_err("a stranger must not delete it");
    assert_eq!(delete, AppError::NotFound);

    // Neither attempt changed anything.
    let detail = db.find(OWNER, order_id).expect("the owner's order is intact");
    assert_eq!(detail.items[0].description, "X");
}

#[test]
fn deleting_an_order_takes_its_line_items_with_it() {
    let mut db = Database::default();

    let order_id = create(
        &mut db,
        OWNER,
        &order(vec![item("A", "1", "1.00"), item("B", "2", "2.00")]),
    )
    .expect("the order is valid");

    delete(&mut db, OWNER, order_id).expect("the owner may delete it");

    assert_eq!(
        db.find(OWNER, order_id).expect_err("it is gone"),
        AppError::NotFound
    );
    assert!(!db.orders.contains_key(&order_id));

    // A second delete is not an error the caller can distinguish from deleting
    // a stranger's order, and must not be.
    assert_eq!(
        delete(&mut db, OWNER, order_id).expect_err("it is already gone"),
        AppError::NotFound
    );
}

// ---------------------------------------------------------------------------
// Payments
// ---------------------------------------------------------------------------

/// An order for $1,000.00, due in the future so nothing is overdue by accident.
fn thousand_dollar_order() -> NewOrderInput {
    NewOrderInput {
        customer: "Acme Corp".to_string(),
        due_date: "2026-12-31".to_string(),
        items: vec![item("Consulting", "2", "500.00")],
    }
}

fn payment(amount: &str) -> NewPaymentInput {
    NewPaymentInput {
        amount: amount.to_string(),
        paid_on: "2026-08-13".to_string(),
    }
}

fn order_owing_a_thousand(db: &mut Database) -> u128 {
    create(db, OWNER, &thousand_dollar_order()).expect("the order is valid")
}

#[test]
fn a_partial_payment_then_the_balance_settles_the_order() {
    let mut db = Database::default();
    let order_id = order_owing_a_thousand(&mut db);

    // Nothing paid: pending, everything due.
    let before = db.find(OWNER, order_id).expect("readable");
    assert_eq!(before.status, OrderStatus::Pending);
    assert_eq!(before.paid_cents, 0);
    assert_eq!(before.amount_due_cents(), 100_000);
    assert!(before.editable);

    pay(&mut db, OWNER, order_id, &payment("400.00")).expect("$400 of $1,000 is acceptable");

    let partly = db.find(OWNER, order_id).expect("readable");
    assert_eq!(partly.status, OrderStatus::PartiallyPaid);
    assert_eq!(partly.paid_cents, 40_000);
    assert_eq!(partly.amount_due_cents(), 60_000);
    // An order with money against it is frozen; the amount paid was agreed
    // against these line items.
    assert!(!partly.editable);

    pay(&mut db, OWNER, order_id, &payment("600.00")).expect("the exact balance is acceptable");

    let settled = db.find(OWNER, order_id).expect("readable");
    assert_eq!(settled.status, OrderStatus::Paid);
    assert_eq!(settled.paid_cents, 100_000);
    assert_eq!(settled.amount_due_cents(), 0);

    // One cent more is refused, and says so with the real remaining balance.
    let refused = pay(&mut db, OWNER, order_id, &payment("0.01"))
        .expect_err("a settled order takes no more money");
    assert_eq!(
        refused,
        AppError::PaymentExceedsAmountDue { maximum_cents: 0 }
    );
    assert_eq!(refused.status_code(), 409);
    assert_eq!(refused.code(), "PAYMENT_EXCEEDS_AMOUNT_DUE");
    assert_eq!(refused.to_string(), "This order is already paid in full.");
}

#[test]
fn a_payment_larger_than_the_balance_names_the_balance() {
    let mut db = Database::default();
    let order_id = order_owing_a_thousand(&mut db);

    pay(&mut db, OWNER, order_id, &payment("250.00")).expect("a quarter is acceptable");

    let refused = pay(&mut db, OWNER, order_id, &payment("800.00"))
        .expect_err("$800 exceeds the $750 still owed");

    assert_eq!(
        refused,
        AppError::PaymentExceedsAmountDue {
            maximum_cents: 75_000
        }
    );
    assert!(
        refused.to_string().contains("$750.00"),
        "the message must name the real balance"
    );

    // The refusal rolled back: nothing was written.
    let detail = db.find(OWNER, order_id).expect("readable");
    assert_eq!(detail.paid_cents, 25_000);
    assert_eq!(detail.payments.len(), 1);
}

#[test]
fn an_overdue_order_that_is_settled_late_is_paid_not_overdue() {
    let mut db = Database::default();

    let mut input = thousand_dollar_order();
    input.due_date = "2020-01-01".to_string();
    let order_id = create(&mut db, OWNER, &input).expect("a past due date is acceptable");

    let overdue = db.find(OWNER, order_id).expect("readable");
    assert_eq!(overdue.status, OrderStatus::Overdue);

    // Part paid and still past the date: still overdue, because money is owed.
    pay(&mut db, OWNER, order_id, &payment("400.00")).expect("acceptable");
    assert_eq!(
        db.find(OWNER, order_id).unwrap().status,
        OrderStatus::Overdue
    );

    // Settled: finished, not outstanding. Nobody should be chased for it.
    pay(&mut db, OWNER, order_id, &payment("600.00")).expect("acceptable");
    assert_eq!(db.find(OWNER, order_id).unwrap().status, OrderStatus::Paid);
}

#[test]
fn a_stranger_cannot_pay_someone_elses_order() {
    let mut db = Database::default();
    let order_id = order_owing_a_thousand(&mut db);

    let refused = pay(&mut db, STRANGER, order_id, &payment("10.00"))
        .expect_err("a stranger must not pay it");

    // The same answer an id that was never written gets. Anything else would
    // confirm to the stranger that this order exists.
    assert_eq!(refused, AppError::NotFound);
    assert_eq!(refused.status_code(), 404);
    assert_eq!(db.orders[&order_id].payments.len(), 0);
}

#[test]
fn paying_an_order_that_does_not_exist_is_not_found() {
    let mut db = Database::default();

    let refused = pay(&mut db, OWNER, ids::new_id(), &payment("10.00"))
        .expect_err("nothing was written under this id");

    assert_eq!(refused, AppError::NotFound);
}

#[test]
fn an_order_with_payments_can_no_longer_be_edited_or_deleted() {
    let mut db = Database::default();
    let order_id = order_owing_a_thousand(&mut db);

    pay(&mut db, OWNER, order_id, &payment("1.00")).expect("acceptable");

    let edit = update(&mut db, OWNER, order_id, &thousand_dollar_order())
        .expect_err("a paid-against order is frozen");
    assert_eq!(edit, AppError::OrderHasPayments);
    assert_eq!(edit.status_code(), 409);

    let delete =
        delete(&mut db, OWNER, order_id).expect_err("a paid-against order is frozen");
    assert_eq!(delete, AppError::OrderHasPayments);

    // Still there, still paid.
    let detail = db.find(OWNER, order_id).expect("readable");
    assert_eq!(detail.paid_cents, 100);
}

#[test]
fn payments_are_listed_newest_first_with_a_deterministic_tiebreak() {
    let mut db = Database::default();
    let order_id = order_owing_a_thousand(&mut db);

    let mut older = payment("100.00");
    older.paid_on = "2026-08-01".to_string();
    pay(&mut db, OWNER, order_id, &older).expect("acceptable");

    // Two on the same later date. Identifiers grow, so "recorded later" is the
    // tiebreak.
    let mut same_day = payment("200.00");
    same_day.paid_on = "2026-08-10".to_string();
    pay(&mut db, OWNER, order_id, &same_day).expect("acceptable");

    let mut same_day_later = payment("300.00");
    same_day_later.paid_on = "2026-08-10".to_string();
    pay(&mut db, OWNER, order_id, &same_day_later).expect("acceptable");

    let detail = db.find(OWNER, order_id).expect("readable");
    let amounts: Vec<i64> = detail.payments.iter().map(|entry| entry.amount_cents).collect();
    assert_eq!(amounts, vec![30_000, 20_000, 10_000]);

    // Reading twice gives the same order.
    let again = db.find(OWNER, order_id).unwrap();
    assert_eq!(
        detail.payments.iter().map(|entry| entry.id).collect::<Vec<_>>(),
        again.payments.iter().map(|entry| entry.id).collect::<Vec<_>>()
    );

    // The page lists them in the same order, over what they add up to.
    let history = OrderDetailView::new(&detail).history.expect("there are payments");
    let days: Vec<&str> = history.rows.iter().map(|row| row.paid_on.as_str()).collect();
    assert_eq!(days, vec!["2026-08-10", "2026-08-10", "2026-08-01"]);
    assert_eq!(history.count, "3 payments");
    assert_eq!(history.paid, MoneyText::new(60_000));
}

#[test]
fn an_identifier_of_a_payment_is_used_once() {
    let mut db = Database::default();
    let order_id = order_owing_a_thousand(&mut db);
    let part = ValidatedPayment {
        amount_cents: 10_000,
        paid_on: day(2026, 8, 1),
    };
    let twice = || record_payment_transaction(OWNER, order_id, 77, part);
    assert_eq!(db.write(twice()), Ok(77));
    assert_eq!(db.write(twice()), Err(AppError::Internal));
    assert_eq!(db.find(OWNER, order_id).expect("readable").paid_cents, 10_000);
}

#[test]
fn the_list_counts_lines_and_sums_payments_apart_from_each_other() {
    let mut db = Database::default();
    let lines = vec![
        item("A", "1", "100.00"),
        item("B", "1", "200.00"),
        item("C", "1", "300.00"),
    ];
    let order_id = create(&mut db, OWNER, &order(lines)).expect("valid");
    let other_id = create(&mut db, STRANGER, &order(vec![item("D", "1", "1.00")])).expect("valid");
    for _ in 0..2 {
        pay(&mut db, OWNER, order_id, &payment("50.00")).expect("acceptable");
    }

    let list = db.list(OWNER);
    assert_eq!(list.len(), 1, "each order once, and nobody else's");
    assert_eq!(list[0].id, order_id);
    assert_eq!(list[0].item_count, 3);
    assert_eq!(list[0].paid_cents, 10_000);
    assert_eq!(list[0].total_cents, 60_000);
    assert_eq!(db.list(STRANGER)[0].id, other_id);

    let unpaid = create(&mut db, OWNER, &order(vec![item("E", "1", "1.00")])).expect("valid");
    assert!(db.list(OWNER).iter().any(|entry| entry.id == unpaid));
    delete(&mut db, OWNER, unpaid).expect("deletable");
    assert!(db.list(OWNER).iter().all(|entry| entry.id != unpaid));
}

#[test]
fn two_simultaneous_final_payments_cannot_both_succeed() {
    let mut db = Database::default();
    let order_id = order_owing_a_thousand(&mut db);

    // Both ask to settle the whole $1,000, at the same moment. Without the row
    // lock both would read "nothing paid", both would pass the check, and the
    // order would end up settled twice.
    let whole = payment("1000.00");
    let results = db.write_all(vec![
        record_payment_service(OWNER, order_id, &whole).unwrap(),
        record_payment_service(OWNER, order_id, &whole).unwrap(),
    ]);

    let succeeded = results.iter().filter(|r| r.is_ok()).count();
    assert_eq!(succeeded, 1, "exactly one payment must win");

    let loser = results
        .into_iter()
        .find_map(|result| result.err())
        .expect("exactly one succeeded");
    assert_eq!(
        loser,
        AppError::PaymentExceedsAmountDue { maximum_cents: 0 },
        "the loser recalculated against the winner's committed payment"
    );

    let detail = db.find(OWNER, order_id).expect("readable");
    assert_eq!(detail.paid_cents, 100_000, "the order was settled once");
    assert_eq!(detail.status, OrderStatus::Paid);
    assert_eq!(detail.payments.len(), 1);
}

#[test]
fn many_simultaneous_payments_never_exceed_the_total() {
    let mut db = Database::default();
    let order_id = order_owing_a_thousand(&mut db);

    // Six requests for $250 against a $1,000 order. Four can fit; the other two
    // must be refused, whatever order they happen to arrive in.
    let quarter = payment("250.00");
    let results = db.write_all(
        (0..6)
            .map(|_| record_payment_service(OWNER, order_id, &quarter).unwrap())
            .collect(),
    );

    let accepted = results.iter().filter(|result| result.is_ok()).count();
    assert_eq!(accepted, 4);

    let detail = db.find(OWNER, order_id).expect("readable");
    assert_eq!(detail.paid_cents, 100_000);
    assert!(
        detail.paid_cents <= detail.total_cents,
        "the payments never exceed the total"
    );
    assert_eq!(detail.status, OrderStatus::Paid);
}

#[test]
fn later_payments_are_told_what_the_accepted_ones_left() {
    let mut db = Database::default();
    let order_id = order_owing_a_thousand(&mut db);
    let other_id = order_owing_a_thousand(&mut db);

    // Three times $300 fit into $1,000, whatever goes on elsewhere.
    let part = payment("300.00");
    let mut work = vec![delete_order_service(OWNER, other_id)];
    for _ in 0..5 {
        work.push(record_payment_service(OWNER, order_id, &part).unwrap());
    }
    let results = db.write_all(work);

    assert_eq!(results[0], Ok(other_id));
    let payments = &results[1..];
    assert_eq!(payments.iter().filter(|result| result.is_ok()).count(), 3);
    for refusal in payments.iter().filter_map(|result| result.as_ref().err()) {
        assert_eq!(
            refusal,
            &AppError::PaymentExceedsAmountDue { maximum_cents: 10_000 }
        );
    }
    assert_eq!(db.find(OWNER, order_id).expect("readable").paid_cents, 90_000);
}

#[test]
fn work_at_the_same_time_is_answered_as_if_one_came_after_the_other() {
    let work = |order_id: u128| {
        vec![
            record_payment_service(OWNER, order_id, &payment("600.00")).unwrap(),
            record_payment_service(OWNER, order_id, &payment("500.00")).unwrap(),
            record_payment_service(STRANGER, order_id, &payment("1.00")).unwrap(),
            update_order_service(OWNER, order_id, &thousand_dollar_order()).unwrap(),
            delete_order_service(OWNER, order_id),
        ]
    };

    let mut together = Database::default();
    let first_id = order_owing_a_thousand(&mut together);
    let at_once = together.write_all(work(first_id));

    let mut apart = Database::default();
    let second_id = order_owing_a_thousand(&mut apart);
    let one_by_one: Vec<AppResult<u128>> = work(second_id)
        .into_iter()
        .map(|transaction| apart.write(transaction))
        .collect();

    assert!(at_once[0].is_ok() && one_by_one[0].is_ok());
    assert_eq!(at_once[1..], one_by_one[1..]);
    assert_eq!(
        at_once[1..],
        [
            Err(AppError::PaymentExceedsAmountDue { maximum_cents: 40_000 }),
            Err(AppError::NotFound),
            Err(AppError::OrderHasPayments),
            Err(AppError::OrderHasPayments),
        ]
    );
    assert_eq!(
        together.find(OWNER, first_id).expect("readable").paid_cents,
        apart.find(OWNER, second_id).expect("readable").paid_cents
    );
}

#[test]
fn a_payment_and_an_edit_at_once_do_not_mix() {
    let mut db = Database::default();
    let order_id = order_owing_a_thousand(&mut db);
    let mut cheaper = thousand_dollar_order();
    cheaper.items[0].unit_price = "1.00".to_string();
    let results = db.write_all(vec![
        record_payment_service(OWNER, order_id, &payment("900.00")).unwrap(),
        update_order_service(OWNER, order_id, &cheaper).unwrap(),
    ]);
    assert!(results[0].is_ok());
    assert_eq!(results[1], Err(AppError::OrderHasPayments));
    assert_eq!(db.orders[&order_id].total_cents, 100_000);
}

// ---------------------------------------------------------------------------
// The HTTP interface
// ---------------------------------------------------------------------------

fn signed_in(owner: &str) -> AppResult<Caller> {
    caller(Ok(AuthReply {
        value: Some(AuthUser {
            id: owner.to_string(),
            name: "Test Owner".to_string(),
            email: "owner@example.test".to_string(),
        }),
        cookies: vec![],
    }))
}

fn anonymous() -> AppResult<Caller> {
    caller(Ok(AuthReply {
        value: None,
        cookies: vec![],
    }))
}

fn head(origin: Option<&str>) -> RequestHead {
    RequestHead {
        host: Some(b"localhost:5174".to_vec()),
        origin: origin.map(|origin| origin.as_bytes().to_vec()),
        ..RequestHead::default()
    }
}

fn own_page() -> RequestHead {
    head(Some("http://localhost:5174"))
}

/// What a client sees: a status and, for a failure, its code.
struct Answer {
    status: u16,
    location: Option<String>,
    order: Option<OrderDetail>,
    code: &'static str,
    message: String,
    fields: Vec<(String, String)>,
}

fn refused(error: &AppError) -> Answer {
    let response = api::failed(error);
    let body = response.body.expect("a failure says what failed");
    Answer {
        status: response.status,
        location: response.location,
        order: None,
        code: body.error,
        message: body.message,
        fields: body
            .fields
            .into_iter()
            .map(|failure| (failure.field, failure.message))
            .collect(),
    }
}

fn answered(status: u16, location: Option<String>, order: Option<OrderDetail>) -> Answer {
    Answer {
        status,
        location,
        order,
        code: "",
        message: String::new(),
        fields: vec![],
    }
}

fn post_order(
    db: &mut Database,
    who: AppResult<Caller>,
    head: &RequestHead,
    body: Result<NewOrderInput, String>,
) -> Answer {
    let admitted = api::create_order(who, head, body);
    let result = admitted.and_then(|(caller, transaction)| {
        let id = db.write(transaction)?;
        let order = db.find(&caller.user.id, id)?;
        Ok(api::created(id, order, caller.set_cookies))
    });
    match result {
        Ok(response) => answered(response.status, response.location, response.body),
        Err(error) => refused(&error),
    }
}

fn get(db: &Database, who: AppResult<Caller>, raw_id: &str) -> Answer {
    let result = api::get_order(who, raw_id).and_then(|(caller, id)| {
        let order = db.find(&caller.user.id, id)?;
        Ok(api::ok(order, caller.set_cookies))
    });
    match result {
        Ok(response) => answered(response.status, response.location, response.body),
        Err(error) => refused(&error),
    }
}

fn put(
    db: &mut Database,
    who: AppResult<Caller>,
    head: &RequestHead,
    raw_id: &str,
    body: Result<NewOrderInput, String>,
) -> Answer {
    let result = api::update_order(who, head, raw_id, body).and_then(|(caller, transaction)| {
        let id = db.write(transaction)?;
        let order = db.find(&caller.user.id, id)?;
        Ok(api::ok(order, caller.set_cookies))
    });
    match result {
        Ok(response) => answered(response.status, response.location, response.body),
        Err(error) => refused(&error),
    }
}

fn remove(db: &mut Database, who: AppResult<Caller>, head: &RequestHead, raw_id: &str) -> Answer {
    let result = api::delete_order(who, head, raw_id).and_then(|(caller, transaction)| {
        db.write(transaction)?;
        Ok(api::no_content(caller.set_cookies))
    });
    match result {
        Ok(response) => {
            assert!(response.body.is_none());
            answered(response.status, response.location, None)
        }
        Err(error) => refused(&error),
    }
}

fn post_payment(
    db: &mut Database,
    who: AppResult<Caller>,
    head: &RequestHead,
    raw_id: &str,
    body: Result<NewPaymentInput, String>,
) -> Answer {
    let order_id = ids::find_id(raw_id);
    let result = api::record_payment(who, head, raw_id, body).and_then(|(caller, transaction)| {
        db.write(transaction)?;
        let id = order_id.expect("the address was read");
        let order = db.find(&caller.user.id, id)?;
        Ok(api::created(id, order, caller.set_cookies))
    });
    match result {
        Ok(response) => answered(response.status, response.location, response.body),
        Err(error) => refused(&error),
    }
}

fn order_body(customer: &str, due: &str) -> NewOrderInput {
    NewOrderInput {
        customer: customer.to_string(),
        due_date: due.to_string(),
        items: vec![item("Consulting", "2", "500.00")],
    }
}

fn payment_body(amount: &str, paid_on: &str) -> NewPaymentInput {
    NewPaymentInput {
        amount: amount.to_string(),
        paid_on: paid_on.to_string(),
    }
}

#[test]
fn every_endpoint_refuses_an_anonymous_caller() {
    let mut db = Database::default();
    let id = ids::id_to_string(ids::new_id());
    let empty = || Err::<NewOrderInput, String>("missing field `customer`".to_string());

    let list = api::list_orders(anonymous(), None, vec![]);
    let answers = [
        refused(&list.expect_err("nobody is signed in")),
        post_order(&mut db, anonymous(), &own_page(), empty()),
        get(&db, anonymous(), &id),
        put(&mut db, anonymous(), &own_page(), &id, empty()),
        remove(&mut db, anonymous(), &own_page(), &id),
        post_payment(
            &mut db,
            anonymous(),
            &own_page(),
            &id,
            Err("missing field `amount`".to_string()),
        ),
    ];

    for answer in answers {
        assert_eq!(answer.status, 401);
        assert_eq!(answer.code, "UNAUTHENTICATED");
    }
}

#[test]
fn an_expired_session_is_unauthenticated_rather_than_a_server_error() {
    // The service answers `200 null` for a dead session; that must surface as
    // 401 and not as a parse failure.
    let reply = RawReply {
        status: 200,
        cookies: vec![],
        body: "null".to_string(),
    };
    let error = caller(session_reply(reply, None, None)).expect_err("nobody is signed in");

    assert_eq!(error.status_code(), 401);
}

#[test]
fn a_cross_origin_write_is_refused_but_a_toolless_one_is_not() {
    let mut db = Database::default();

    let foreign = post_order(
        &mut db,
        signed_in("origin"),
        &head(Some("https://evil.example")),
        Ok(order_body("Cross Origin Co", "2027-01-31")),
    );
    assert_eq!(foreign.status, 403);

    // No Origin at all is a script, not a page: a browser cannot omit it on a
    // cross-site state-changing request, so this one is allowed through.
    let script = post_order(
        &mut db,
        signed_in("origin"),
        &head(None),
        Ok(order_body("Curl Co", "2027-01-31")),
    );
    assert_eq!(script.status, 201);
}

#[test]
fn an_order_can_be_created_read_replaced_and_deleted() {
    let mut db = Database::default();
    let who = || signed_in("lifecycle");

    let created = post_order(
        &mut db,
        who(),
        &own_page(),
        Ok(order_body("Lifecycle Ltd", "2027-03-31")),
    );
    assert_eq!(created.status, 201);
    let order = created.order.expect("the order as it was stored");
    let id = ids::id_to_string(order.id);
    // The client is told where the thing it made now lives.
    assert_eq!(created.location, Some(format!("/api/orders/{id}")));
    // The server's own totals, not an echo of the strings that were sent.
    assert_eq!(order.total_cents, 100_000);
    assert_eq!(order.status.as_str(), "pending");
    assert_eq!(order.items[0].line_total_cents, 100_000);

    let read = get(&db, who(), &id);
    assert_eq!(read.status, 200);
    let order = read.order.expect("the order");
    assert_eq!(order.customer, "Lifecycle Ltd");
    assert!(order.editable);
    assert_eq!(order.payments.len(), 0);

    let replaced = put(
        &mut db,
        who(),
        &own_page(),
        &id,
        Ok(NewOrderInput {
            customer: "Lifecycle Ltd".to_string(),
            due_date: "2027-04-30".to_string(),
            items: vec![item("Retainer", "1", "250.00")],
        }),
    );
    assert_eq!(replaced.status, 200);
    let order = replaced.order.expect("the order");
    assert_eq!(order.total_cents, 25_000);
    assert_eq!(order.due_date.to_string(), "2027-04-30");
    // A replace, not a patch: the items sent are the items the order has.
    assert_eq!(order.items.len(), 1);

    let deleted = remove(&mut db, who(), &own_page(), &id);
    assert_eq!(deleted.status, 204);

    // Deleting it again is a 404. Pretending would not be an answer.
    let again = remove(&mut db, who(), &own_page(), &id);
    assert_eq!(again.status, 404);
}

#[test]
fn the_list_carries_totals_and_honours_the_status_filter() {
    let mut db = Database::default();
    let who = || signed_in("filter");
    let paid = post_order(
        &mut db,
        who(),
        &own_page(),
        Ok(order_body("Filter Paid Co", "2027-05-31")),
    );
    let paid_id = paid.order.expect("the order").id;
    post_payment(
        &mut db,
        who(),
        &own_page(),
        &ids::id_to_string(paid_id),
        Ok(payment_body("1000.00", "2026-08-01")),
    );
    post_order(
        &mut db,
        who(),
        &own_page(),
        Ok(order_body("Filter Pending Co", "2027-05-31")),
    );

    let list = |status: Option<&str>| {
        let response =
            api::list_orders(who(), status, db.list("filter")).expect("somebody is signed in");
        assert_eq!(response.status, 200);
        response.body.expect("the dashboard")
    };

    let all = list(None);
    assert_eq!(all.totals.order_count, 2);
    assert_eq!(all.totals.outstanding_cents, 100_000);
    assert_eq!(all.filter, None);
    assert_eq!(all.orders.len(), 2);

    let paid = list(Some("paid"));
    assert_eq!(paid.filter.map(|status| status.as_str()), Some("paid"));
    assert_eq!(paid.orders.len(), 1);
    assert_eq!(paid.orders[0].id, paid_id);
    // The tiles describe everything, whatever slice is being read.
    assert_eq!(paid.totals.order_count, 2);

    // An unrecognised filter is no filter, not a 400 — and the response says
    // which filter was actually applied.
    let nonsense = list(Some("settled"));
    assert_eq!(nonsense.filter, None);
    assert_eq!(nonsense.orders.len(), 2);
}

#[test]
fn a_payment_returns_the_whole_order_and_refuses_to_exceed_the_balance() {
    let mut db = Database::default();
    let who = || signed_in("payment");
    let made = post_order(
        &mut db,
        who(),
        &own_page(),
        Ok(order_body("Payment Co", "2027-06-30")),
    );
    let id = ids::id_to_string(made.order.expect("the order").id);

    let paid = post_payment(
        &mut db,
        who(),
        &own_page(),
        &id,
        Ok(payment_body("400.00", "2026-08-01")),
    );
    assert_eq!(paid.status, 201);
    assert_eq!(paid.location, Some(format!("/api/orders/{id}")));
    // The whole order, so a client never has to compute the new balance.
    let order = paid.order.expect("the order");
    assert_eq!(order.paid_cents, 40_000);
    assert_eq!(order.status.as_str(), "partially_paid");
    assert_eq!(order.payments.len(), 1);
    // Money has moved, so the order is no longer editable.
    assert!(!order.editable);

    let too_much = post_payment(
        &mut db,
        who(),
        &own_page(),
        &id,
        Ok(payment_body("700.00", "2026-08-02")),
    );
    // 409, not 400: the request is well formed and the caller is entitled to
    // make it; the order's own state is what refuses.
    assert_eq!(too_much.status, 409);
    // And the refusal is actionable — it names the most that could be paid.
    assert_eq!(too_much.code, "PAYMENT_EXCEEDS_AMOUNT_DUE");
    assert!(too_much.message.contains("600.00"));
}

#[test]
fn an_order_with_payments_cannot_be_edited_or_deleted_through_the_api() {
    let mut db = Database::default();
    let who = || signed_in("locked");
    let made = post_order(
        &mut db,
        who(),
        &own_page(),
        Ok(order_body("Locked Co", "2027-07-31")),
    );
    let id = ids::id_to_string(made.order.expect("the order").id);
    post_payment(
        &mut db,
        who(),
        &own_page(),
        &id,
        Ok(payment_body("10.00", "2026-08-01")),
    );

    let edited = put(
        &mut db,
        who(),
        &own_page(),
        &id,
        Ok(order_body("Locked Co", "2027-08-31")),
    );
    assert_eq!(edited.status, 409);
    let deleted = remove(&mut db, who(), &own_page(), &id);
    assert_eq!(deleted.status, 409);
}

#[test]
fn another_owners_order_is_missing_rather_than_forbidden() {
    let mut db = Database::default();
    let made = post_order(
        &mut db,
        signed_in("ada"),
        &own_page(),
        Ok(order_body("Ada's Private Co", "2027-09-30")),
    );
    let id = ids::id_to_string(made.order.expect("the order").id);
    let grace = || signed_in("grace");

    // 404 and not 403 throughout: a 403 would confirm the order exists, which
    // is the fact the probe is after.
    let answers = [
        get(&db, grace(), &id),
        put(
            &mut db,
            grace(),
            &own_page(),
            &id,
            Ok(order_body("Taken Over Ltd", "2027-10-31")),
        ),
        remove(&mut db, grace(), &own_page(), &id),
        post_payment(
            &mut db,
            grace(),
            &own_page(),
            &id,
            Ok(payment_body("1.00", "2026-08-01")),
        ),
    ];
    for answer in answers {
        assert_eq!(answer.status, 404);
    }

    // And Grace's own list never mentions it.
    let list = api::list_orders(grace(), None, db.list("grace")).expect("signed in");
    assert_eq!(list.body.expect("the dashboard").totals.order_count, 0);
}

#[test]
fn validation_failures_name_the_field_that_was_wrong() {
    let mut db = Database::default();
    let reply = post_order(
        &mut db,
        signed_in("ada"),
        &own_page(),
        Ok(NewOrderInput {
            customer: "".to_string(),
            due_date: "31/03/2027".to_string(),
            items: vec![item("Consulting", "0", "-5")],
        }),
    );

    assert_eq!(reply.status, 400);

    let fields: Vec<String> = reply.fields.into_iter().map(|(field, _)| field).collect();

    // The same machine-readable paths the browser matches on, so a non-browser
    // client can put the message next to the right input too.
    for expected in ["customer", "due_date", "items[0].quantity"] {
        assert!(
            fields.iter().any(|field| field == expected),
            "expected {expected} among {fields:?}"
        );
    }
}

#[test]
fn a_malformed_body_reports_the_same_error_shape_as_everything_else() {
    let mut db = Database::default();
    let reply = post_order(
        &mut db,
        signed_in("ada"),
        &own_page(),
        Err("Failed to parse the request body as JSON".to_string()),
    );

    assert_eq!(reply.status, 400);
    assert_eq!(reply.fields[0].0, "body");
    assert_eq!(reply.message, "Failed to parse the request body as JSON");
}

#[test]
fn an_unparseable_id_is_rejected_without_touching_the_database() {
    let db = Database::default();
    let reply = get(&db, signed_in("ada"), "not-a-uuid");

    assert_eq!(reply.status, 400);
    assert_eq!(reply.fields[0].0, "id");
}

#[test]
fn what_is_wrong_with_a_request_is_looked_at_in_order() {
    let mut db = Database::default();
    let foreign = head(Some("https://evil.example"));
    let bad = || Err::<NewOrderInput, String>("no body".to_string());
    assert_eq!(put(&mut db, anonymous(), &foreign, "x", bad()).status, 401);
    assert_eq!(
        put(&mut db, signed_in("ada"), &foreign, "x", bad()).status,
        403
    );
    let answer = put(&mut db, signed_in("ada"), &own_page(), "x", bad());
    assert_eq!(answer.fields[0].0, "id");
    let id = ids::id_to_string(1);
    let answer = put(&mut db, signed_in("ada"), &own_page(), &id, bad());
    assert_eq!(answer.fields[0].0, "body");
}

#[test]
fn rotated_cookies_are_handed_on_one_by_one() {
    let cookies = vec![
        "a=1; Path=/".to_string(),
        "bad\nvalue".to_string(),
        "b=2; HttpOnly".to_string(),
        "ü=3".to_string(),
    ];
    let kept = vec![
        "a=1; Path=/".to_string(),
        "b=2; HttpOnly".to_string(),
        "ü=3".to_string(),
    ];
    assert_eq!(api::ok((), cookies.clone()).set_cookies, kept);
    assert_eq!(api::created(1, (), cookies.clone()).set_cookies, kept);
    assert_eq!(api::ok((), cookies.clone()).lost_cookies, 1);
    let last = api::no_content(cookies);
    assert_eq!(last.set_cookies, kept);
    assert_eq!(last.lost_cookies, 1);
    assert_eq!(api::failed(&AppError::NotFound).lost_cookies, 0);
}
