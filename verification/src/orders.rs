//! Orders and their line items: parsing, validation, arithmetic, persistence,
//! and what the pages show of them.
//!
//! A submitted `"$1,234.50"` is read straight to the integer `123450` and stays
//! a count of cents. There is no rounding step, because there is nothing to
//! round, and every multiplication and addition that decides something is
//! checked: the alternative is a total that silently wraps negative.

pub mod api;
pub mod editor;
pub mod laws;
pub mod ledger;
pub mod parse;
pub mod read;
pub mod service;
pub mod status;
pub mod store;
pub mod validate;
pub mod views;

pub use parse::{format_cents_for_input, parse_due_date, parse_money_to_cents, parse_quantity};
pub use read::{OrderDetail, OrderLine};
pub use status::{
    derive_order_status, filter_by_status, list_orders, requested_filter, summarise_orders,
    Dashboard, DashboardTotals, OrderStatus, OrderSummary,
};
pub use validate::{
    calculate_line_total_cents, calculate_order_total_cents, validate_create_order, NewOrderInput,
    OrderItemInput, ValidatedItem, ValidatedOrder, MAX_CUSTOMER_LEN, MAX_DESCRIPTION_LEN,
    MAX_ITEMS,
};
