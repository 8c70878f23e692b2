//! Validate, then write. The one entry point for each operation, so that no two
//! surfaces can acquire different ideas of what an order or a payment is.

use vstd::prelude::*;

use crate::error::AppResult;
use crate::ids;
use crate::orders::parse;
use crate::orders::store;
use crate::orders::store::{Stage, WorkView, WriteTransaction};
use crate::orders::validate;
use crate::orders::validate::NewOrderInput;
use crate::payments;
use crate::payments::NewPaymentInput;

verus! {

/// The transaction that creates a submitted order, or everything that is wrong
/// with it.
pub fn create_order_service(owner_user_id: &str, input: &NewOrderInput) -> (r: AppResult<
    WriteTransaction,
>)
    ensures
        match validate::order_meaning(
            input@,
            parse::due_date_meaning(input@.due_date, parse::found_date(input@.due_date)),
        ) {
            Ok(order) => r matches Ok(tx) && {
                &&& order.wf()
                &&& tx@.stage == Stage::Begin
                &&& ids::is_version_7(tx@.work.order_id())
                &&& tx@.work == (WorkView::Create {
                    owner: owner_user_id@,
                    order_id: tx@.work.order_id(),
                    order,
                })
            },
            Err(refusal) => r matches Err(error) && error@ == refusal,
        },
{
    match validate::validate_create_order(input) {
        Ok(order) => Ok(store::insert_order(owner_user_id, ids::new_id(), order)),
        Err(error) => Err(error),
    }
}

/// The transaction that replaces an order by a submitted one, or everything that
/// is wrong with it. The submitted values are checked and added up from scratch:
/// an edit is a new order that keeps an identifier.
pub fn update_order_service(owner_user_id: &str, order_id: u128, input: &NewOrderInput) -> (r:
    AppResult<WriteTransaction>)
    ensures
        match validate::order_meaning(
            input@,
            parse::due_date_meaning(input@.due_date, parse::found_date(input@.due_date)),
        ) {
            Ok(order) => r matches Ok(tx) && {
                &&& order.wf()
                &&& tx@.stage == Stage::Begin
                &&& tx@.work == (WorkView::Replace { owner: owner_user_id@, order_id, order })
            },
            Err(refusal) => r matches Err(error) && error@ == refusal,
        },
{
    match validate::validate_create_order(input) {
        Ok(order) => Ok(store::update_order_transaction(owner_user_id, order_id, order)),
        Err(error) => Err(error),
    }
}

/// The transaction that deletes an order.
pub fn delete_order_service(owner_user_id: &str, order_id: u128) -> (r: WriteTransaction)
    ensures
        r@.stage == Stage::Begin,
        r@.work == (WorkView::Delete { owner: owner_user_id@, order_id }),
{
    store::delete_order_transaction(owner_user_id, order_id)
}

/// The transaction that records a submitted payment, or everything that is wrong
/// with it.
pub fn record_payment_service(owner_user_id: &str, order_id: u128, input: &NewPaymentInput) -> (r:
    AppResult<WriteTransaction>)
    ensures
        match payments::payment_meaning(
            input@,
            parse::due_date_meaning(input@.paid_on, parse::found_date(input@.paid_on)),
        ) {
            Ok(payment) => r matches Ok(tx) && {
                &&& payment.wf()
                &&& tx@.stage == Stage::Begin
                &&& ids::is_version_7(tx@.work.result_id())
                &&& tx@.work == (WorkView::Pay {
                    owner: owner_user_id@,
                    order_id,
                    payment_id: tx@.work.result_id(),
                    payment,
                })
            },
            Err(refusal) => r matches Err(error) && error@ == refusal,
        },
{
    match payments::validate_payment(input) {
        Ok(payment) => Ok(
            store::record_payment_transaction(owner_user_id, order_id, ids::new_id(), payment),
        ),
        Err(error) => Err(error),
    }
}

} // verus!
