//! Validation, money arithmetic, and derived status.

use orders_and_settlements::date::CalendarDate;
use orders_and_settlements::error::AppError;
use orders_and_settlements::orders::validate::assemble_order;
use orders_and_settlements::orders::{
    calculate_line_total_cents, calculate_order_total_cents, derive_order_status,
    filter_by_status, list_orders, requested_filter, summarise_orders, validate_create_order,
    DashboardTotals, NewOrderInput, OrderItemInput, OrderStatus, OrderSummary, ValidatedItem,
    MAX_CUSTOMER_LEN, MAX_DESCRIPTION_LEN, MAX_ITEMS,
};
use orders_and_settlements::payments::{
    assemble_payment, calculate_maximum_payment_cents, decide_payment, validate_payment,
    NewPaymentInput,
};

fn item(description: &str, quantity: &str, unit_price: &str) -> OrderItemInput {
    OrderItemInput {
        description: description.to_string(),
        quantity: quantity.to_string(),
        unit_price: unit_price.to_string(),
    }
}

fn order(items: Vec<OrderItemInput>) -> NewOrderInput {
    NewOrderInput {
        customer: "Acme Corp".to_string(),
        due_date: "2026-09-30".to_string(),
        items,
    }
}

/// The fields a validation failure named, sorted so assertions do not depend on
/// the order the validator happened to visit them in.
fn failed_fields(error: &AppError) -> Vec<String> {
    let mut fields: Vec<String> = error
        .field_errors()
        .iter()
        .map(|failure| failure.field.clone())
        .collect();
    fields.sort();
    fields
}

fn day(year: i32, month: u32, day: u32) -> CalendarDate {
    CalendarDate::new(year, month, day).expect("a real calendar date")
}

#[test]
fn accepts_a_complete_order_and_computes_its_totals() {
    let input = order(vec![
        item("Consulting", "3", "19.99"),
        item("Licence", "1", "$1,000.00"),
    ]);

    let validated = validate_create_order(&input).expect("the order is valid");

    assert_eq!(validated.customer, "Acme Corp");
    assert_eq!(validated.due_date, day(2026, 9, 30));
    assert_eq!(validated.items[0].line_total_cents, 5_997);
    assert_eq!(validated.items[1].line_total_cents, 100_000);
    assert_eq!(validated.total_cents, 105_997);
}

#[test]
fn trims_surrounding_whitespace() {
    let mut input = order(vec![item("  Consulting  ", " 2 ", " 10.00 ")]);
    input.customer = "  Acme Corp  ".to_string();

    let validated = validate_create_order(&input).expect("the order is valid");

    assert_eq!(validated.customer, "Acme Corp");
    assert_eq!(validated.items[0].description, "Consulting");
    assert_eq!(validated.items[0].quantity, 2);
    assert_eq!(validated.total_cents, 2_000);
}

#[test]
fn accepts_a_due_date_in_the_past() {
    // Recording an already-due invoice is normal. "Overdue" is derived at read
    // time from this date, not refused at creation.
    let mut input = order(vec![item("Consulting", "1", "1.00")]);
    input.due_date = "2020-01-01".to_string();

    let validated = validate_create_order(&input).expect("a past due date is acceptable");

    assert_eq!(validated.due_date, day(2020, 1, 1));
}

#[test]
fn reports_every_problem_in_one_response() {
    let input = NewOrderInput {
        customer: "   ".to_string(),
        due_date: "30/09/2026".to_string(),
        items: vec![item("", "0", "abc"), item("Fine", "2", "5.00")],
    };

    let error = validate_create_order(&input).expect_err("the order is not valid");

    assert_eq!(
        failed_fields(&error),
        vec![
            "customer",
            "due_date",
            "items[0].description",
            "items[0].quantity",
            "items[0].unit_price",
        ]
    );
    // The valid second row is not mentioned.
    assert!(error.message_for("items[1].quantity").is_none());
}

#[test]
fn an_order_needs_at_least_one_line_item() {
    let error = validate_create_order(&order(vec![])).expect_err("an empty order is not valid");

    assert_eq!(failed_fields(&error), vec!["items"]);
}

#[test]
fn an_order_is_capped_at_a_hundred_line_items() {
    let items = vec![item("Consulting", "1", "1.00"); MAX_ITEMS + 1];

    let error = validate_create_order(&order(items)).expect_err("101 items is too many");

    assert_eq!(
        error.message_for("items").unwrap(),
        format!("An order can hold at most {MAX_ITEMS} line items.")
    );
}

#[test]
fn a_validation_failure_is_a_400_not_a_500() {
    let error = validate_create_order(&order(vec![])).expect_err("an empty order is not valid");

    assert_eq!(error.status_code(), 400);
    assert_eq!(error.code(), "VALIDATION_FAILED");
}

#[test]
fn multiplies_and_sums_in_cents() {
    assert_eq!(calculate_line_total_cents(3, 1_999), Ok(5_997));
    assert_eq!(calculate_line_total_cents(0, 1_999), Ok(0));

    let items = vec![
        ValidatedItem {
            description: "a".to_string(),
            quantity: 3,
            unit_price_cents: 1_999,
            line_total_cents: 5_997,
        },
        ValidatedItem {
            description: "b".to_string(),
            quantity: 1,
            unit_price_cents: 100_000,
            line_total_cents: 100_000,
        },
    ];

    assert_eq!(calculate_order_total_cents(&items), Ok(105_997));
    assert_eq!(calculate_order_total_cents(&[]), Ok(0));
}

#[test]
fn a_line_that_overflows_blames_that_line() {
    // $92,233,720,368,547,758.07 is i64::MAX cents exactly; doubling it is not
    // representable.
    let input = order(vec![item("Consulting", "2", "92233720368547758.07")]);

    let error = validate_create_order(&input).expect_err("the line total overflows");

    assert_eq!(failed_fields(&error), vec!["items[0].unit_price"]);
}

#[test]
fn a_total_that_overflows_is_not_a_field_error() {
    // Each line is representable; their sum is not. No single input is at
    // fault, so this is the order-wide error rather than a field message.
    let input = order(vec![
        item("Consulting", "1", "92233720368547758.07"),
        item("Licence", "1", "0.01"),
    ]);

    let error = validate_create_order(&input).expect_err("the order total overflows");

    assert_eq!(error, AppError::AmountOutOfRange);
    assert_eq!(error.status_code(), 400);
}

#[test]
fn a_running_sum_must_fit_at_every_step() {
    let line = |line_total_cents| ValidatedItem {
        description: "x".to_string(),
        quantity: 1,
        unit_price_cents: 0,
        line_total_cents,
    };
    assert_eq!(
        calculate_order_total_cents(&[line(i64::MAX), line(1), line(-1)]),
        Err(AppError::AmountOutOfRange)
    );
    assert_eq!(
        calculate_order_total_cents(&[line(i64::MAX), line(-1), line(1)]),
        Ok(i64::MAX)
    );
    assert_eq!(
        calculate_line_total_cents(i64::MAX, 2),
        Err(AppError::AmountOutOfRange)
    );
    assert_eq!(calculate_line_total_cents(-3, 7), Ok(-21));
}

#[test]
fn names_and_descriptions_are_counted_in_characters() {
    let mut input = order(vec![item(&"ü".repeat(MAX_DESCRIPTION_LEN), "1", "1")]);
    input.customer = "ü".repeat(MAX_CUSTOMER_LEN);
    assert!(validate_create_order(&input).is_ok());

    input.customer.push('x');
    input.items[0].description.push('x');
    let error = validate_create_order(&input).expect_err("both are one too long");
    assert_eq!(
        error.message_for("customer"),
        Some("Keep the customer name under 200 characters.")
    );
    assert_eq!(
        error.message_for("items[0].description"),
        Some("Keep the description under 500 characters.")
    );
}

#[test]
fn every_problem_comes_with_its_message_and_in_order() {
    let input = NewOrderInput {
        customer: String::new(),
        due_date: String::new(),
        items: vec![item("a", "1", "1"), item(" ", "x", "-1")],
    };
    let error = validate_create_order(&input).expect_err("much is wrong");
    let listed: Vec<(&str, &str)> = error
        .field_errors()
        .iter()
        .map(|failure| (failure.field.as_str(), failure.message.as_str()))
        .collect();
    assert_eq!(
        listed,
        vec![
            ("customer", "Enter the customer's name."),
            ("due_date", "Enter a due date."),
            ("items[1].description", "Describe this line item."),
            ("items[1].quantity", "Enter the quantity as a whole number."),
            ("items[1].unit_price", "Enter a unit price of zero or more."),
        ]
    );
}

#[test]
fn too_many_rows_are_still_looked_at_one_by_one() {
    let mut items = vec![item("Consulting", "1", "1.00"); MAX_ITEMS + 1];
    items[100].quantity = "none".to_string();
    let error = validate_create_order(&order(items)).expect_err("both are wrong");
    assert_eq!(failed_fields(&error), vec!["items", "items[100].quantity"]);
}

#[test]
fn an_order_is_assembled_from_a_date_that_was_judged_already() {
    let input = order(vec![item("Consulting", "1", "1.00")]);
    let accepted = assemble_order(&input, Ok(day(2026, 1, 2))).expect("all is well");
    assert_eq!(accepted.due_date, day(2026, 1, 2));
    assert_eq!(accepted.total_cents, 100);
    let error = assemble_order(&input, Err("no such day")).expect_err("the date is not");
    assert_eq!(error.message_for("due_date"), Some("no such day"));
}

#[test]
fn an_unpaid_order_before_its_due_date_is_pending() {
    let status = derive_order_status(10_000, 0, day(2026, 9, 30), day(2026, 8, 13));

    assert_eq!(status, OrderStatus::Pending);
}

#[test]
fn a_partly_paid_order_before_its_due_date_is_partially_paid() {
    let status = derive_order_status(10_000, 4_000, day(2026, 9, 30), day(2026, 8, 13));

    assert_eq!(status, OrderStatus::PartiallyPaid);
}

#[test]
fn an_order_paid_in_full_is_paid() {
    let status = derive_order_status(10_000, 10_000, day(2026, 9, 30), day(2026, 8, 13));

    assert_eq!(status, OrderStatus::Paid);
}

#[test]
fn an_order_is_overdue_only_after_its_due_date_has_passed() {
    let due = day(2026, 8, 13);

    // The due date itself is not late. An invoice due today is due today.
    assert_eq!(
        derive_order_status(10_000, 0, due, due),
        OrderStatus::Pending
    );
    assert_eq!(
        derive_order_status(10_000, 0, due, day(2026, 8, 14)),
        OrderStatus::Overdue
    );
}

#[test]
fn paid_beats_overdue() {
    // The precedence that matters: an order settled after its due date is
    // finished, not outstanding. Nobody should be chased for it.
    let status = derive_order_status(10_000, 10_000, day(2026, 1, 1), day(2026, 8, 13));

    assert_eq!(status, OrderStatus::Paid);
}

#[test]
fn overdue_beats_partially_paid() {
    // The other precedence: money is still owed past the date, so the order is
    // overdue even though something was paid against it.
    let status = derive_order_status(10_000, 4_000, day(2026, 1, 1), day(2026, 8, 13));

    assert_eq!(status, OrderStatus::Overdue);
}

#[test]
fn an_overpaid_order_is_paid_not_partially_paid() {
    // The comparison is `>=` rather than `==`, so a total that was later reduced
    // cannot leave the order stuck.
    let status = derive_order_status(10_000, 12_000, day(2026, 1, 1), day(2026, 8, 13));

    assert_eq!(status, OrderStatus::Paid);
}

#[test]
fn an_order_for_nothing_is_paid_from_the_start() {
    assert_eq!(
        derive_order_status(0, 0, day(2020, 1, 1), day(2026, 8, 13)),
        OrderStatus::Paid
    );
}

#[test]
fn status_names_read_back_and_nothing_else_does() {
    for status in OrderStatus::ALL {
        assert_eq!(OrderStatus::parse(status.as_str()), Some(status));
        assert_eq!(requested_filter(Some(status.as_str())), Some(status));
    }
    for raw in ["pad", "Paid", " paid", "partially paid", ""] {
        assert_eq!(OrderStatus::parse(raw), None);
        assert_eq!(requested_filter(Some(raw)), None);
    }
    assert_eq!(requested_filter(None), None);
}

fn summary(id: u128, total_cents: i64, paid_cents: i64, status: OrderStatus) -> OrderSummary {
    OrderSummary {
        id,
        customer: format!("Customer {id}"),
        due_date: day(2026, 9, 30),
        total_cents,
        paid_cents,
        item_count: 1,
        status,
    }
}

#[test]
fn totals_add_up_every_order() {
    let orders = vec![
        summary(1, 1_000, 0, OrderStatus::Pending),
        summary(2, 2_000, 500, OrderStatus::PartiallyPaid),
        summary(3, 3_000, 3_000, OrderStatus::Paid),
        summary(4, 4_000, 0, OrderStatus::Overdue),
        summary(5, 5_000, 0, OrderStatus::Overdue),
    ];
    let totals = summarise_orders(&orders);
    assert_eq!(totals.order_count, 5);
    assert_eq!(totals.total_cents, 15_000);
    assert_eq!(totals.paid_cents, 3_500);
    assert_eq!(totals.outstanding_cents, 11_500);
    assert_eq!(totals.by_status, [1, 1, 1, 2]);
    assert_eq!(totals.count_of(OrderStatus::Overdue), 2);
    assert_eq!(summarise_orders(&[]), DashboardTotals::default());
}

#[test]
fn a_credit_on_one_order_pays_for_no_other() {
    let orders = vec![
        summary(1, 1_000, 1_500, OrderStatus::Paid),
        summary(2, 1_000, 0, OrderStatus::Pending),
    ];
    let totals = summarise_orders(&orders);
    assert_eq!(totals.outstanding_cents, 1_000);
    assert_eq!(totals.total_cents - totals.paid_cents, 500);
    assert_eq!(orders[0].amount_due_cents(), -500);
}

#[test]
fn totals_are_pinned_rather_than_wrapped() {
    let orders = vec![
        summary(1, i64::MAX, 0, OrderStatus::Pending),
        summary(2, 1, 0, OrderStatus::Pending),
    ];
    let totals = summarise_orders(&orders);
    assert_eq!(totals.total_cents, i64::MAX);
    assert_eq!(totals.outstanding_cents, i64::MAX);
    assert_eq!(
        summary(3, i64::MIN, 1, OrderStatus::Paid).amount_due_cents(),
        i64::MIN
    );
    assert_eq!(
        summary(3, i64::MAX, -1, OrderStatus::Paid).amount_due_cents(),
        i64::MAX
    );
}

#[test]
fn a_filter_keeps_the_matching_orders_and_leaves_the_totals_alone() {
    let orders = vec![
        summary(1, 1_000, 0, OrderStatus::Pending),
        summary(2, 2_000, 2_000, OrderStatus::Paid),
        summary(3, 3_000, 0, OrderStatus::Pending),
    ];
    let all = list_orders(orders.clone(), None);
    assert_eq!(all.orders, orders);
    assert_eq!(all.filter, None);
    let pending = list_orders(orders.clone(), Some(OrderStatus::Pending));
    assert_eq!(pending.totals, all.totals);
    assert_eq!(pending.filter, Some(OrderStatus::Pending));
    assert_eq!(
        pending.orders,
        vec![orders[0].clone(), orders[2].clone()]
    );
    for status in OrderStatus::ALL {
        let slice = filter_by_status(orders.clone(), Some(status));
        assert_eq!(slice.len(), all.totals.count_of(status));
        assert_eq!(filter_by_status(slice.clone(), Some(status)), slice);
    }
}

// ---------------------------------------------------------------------------
// Payments
// ---------------------------------------------------------------------------

fn input(amount: &str, paid_on: &str) -> NewPaymentInput {
    NewPaymentInput {
        amount: amount.to_string(),
        paid_on: paid_on.to_string(),
    }
}

fn payment(amount: &str) -> NewPaymentInput {
    input(amount, "2026-08-13")
}

#[test]
fn accepts_a_payment_in_cents() {
    let payment = validate_payment(&input("$1,234.50", "2026-08-13")).expect("valid");

    assert_eq!(payment.amount_cents, 123_450);
    assert_eq!(payment.paid_on, day(2026, 8, 13));
}

#[test]
fn refuses_a_payment_of_nothing() {
    let error = validate_payment(&input("0", "2026-08-13")).expect_err("zero is not a payment");

    assert_eq!(
        error.message_for("amount").unwrap(),
        "Enter an amount greater than zero."
    );
}

#[test]
fn reports_a_bad_amount_and_a_bad_date_together() {
    let error = validate_payment(&input("abc", "13/08/2026")).expect_err("both are wrong");

    assert!(error.message_for("amount").is_some());
    assert!(error.message_for("paid_on").is_some());
}

#[test]
fn the_maximum_is_what_is_still_owed() {
    assert_eq!(calculate_maximum_payment_cents(100_000, 0), 100_000);
    assert_eq!(calculate_maximum_payment_cents(100_000, 40_000), 60_000);
    assert_eq!(calculate_maximum_payment_cents(100_000, 100_000), 0);
    // Paid more than the total, because the total was later reduced. The
    // honest answer is zero, not a negative maximum.
    assert_eq!(calculate_maximum_payment_cents(100_000, 120_000), 0);
}

#[test]
fn a_payment_of_nothing_is_not_a_payment() {
    let error = validate_payment(&payment("0.00")).expect_err("zero is refused");

    assert_eq!(error.status_code(), 400);
    assert_eq!(error.code(), "VALIDATION_FAILED");
    assert_eq!(
        error.message_for("amount").unwrap(),
        "Enter an amount greater than zero."
    );
}

#[test]
fn a_negative_payment_is_refused_before_the_database_sees_it() {
    // The CHECK constraint would also catch it, but as an opaque internal
    // error. The user gets a sentence instead.
    let error = validate_payment(&payment("-50.00")).expect_err("negative is refused");

    assert!(error.message_for("amount").is_some());
}

#[test]
fn a_payment_carries_the_day_the_money_moved() {
    let validated = validate_payment(&payment("$1,234.50")).expect("valid");

    assert_eq!(validated.amount_cents, 123_450);
    assert_eq!(validated.paid_on, day(2026, 8, 13));
}

#[test]
fn a_payment_is_assembled_from_a_date_that_was_judged_already() {
    let accepted = assemble_payment(&payment(" 5 "), Ok(day(2026, 1, 2))).expect("all is well");
    assert_eq!(accepted.amount_cents, 500);
    assert_eq!(accepted.paid_on, day(2026, 1, 2));
    let error = assemble_payment(&payment("5"), Err("no such day")).expect_err("the date is not");
    assert_eq!(error.message_for("paid_on"), Some("no such day"));
    assert_eq!(error.message_for("amount"), None);
}

#[test]
fn a_payment_is_accepted_up_to_the_balance() {
    assert_eq!(decide_payment(100_000, 40_000, 60_000), Ok(()));
    assert_eq!(
        decide_payment(100_000, 40_000, 60_001),
        Err(AppError::PaymentExceedsAmountDue {
            maximum_cents: 60_000
        })
    );
    assert_eq!(
        decide_payment(100_000, 120_000, 1),
        Err(AppError::PaymentExceedsAmountDue { maximum_cents: 0 })
    );
}

#[test]
fn every_status_is_listed_once_at_its_own_place() {
    for (place, status) in OrderStatus::ALL.into_iter().enumerate() {
        assert_eq!(status.position(), place);
    }
}

#[test]
fn the_passing_of_days_only_makes_an_order_overdue() {
    let due = day(2026, 9, 30);
    for (total, paid) in [(100, 0), (100, 40), (100, 100), (0, 0), (100, 120)] {
        let mut last = derive_order_status(total, paid, due, day(2026, 9, 1));
        for today in [day(2026, 9, 30), day(2026, 10, 1), day(2027, 1, 1)] {
            let status = derive_order_status(total, paid, due, today);
            assert!(status == last || status == OrderStatus::Overdue);
            last = status;
        }
    }
}

#[test]
fn the_number_beside_a_filter_is_the_number_of_orders_behind_it() {
    let mut orders = vec![
        summary(1, 1_000, 0, OrderStatus::Pending),
        summary(2, 2_000, 500, OrderStatus::PartiallyPaid),
        summary(3, 3_000, 0, OrderStatus::Pending),
        summary(4, 4_000, 0, OrderStatus::Overdue),
    ];
    orders[0].due_date = day(2026, 9, 1);
    orders[1].due_date = day(2026, 9, 2);
    orders[2].due_date = day(2026, 9, 3);
    orders[3].due_date = day(2026, 9, 4);
    let totals = summarise_orders(&orders);
    let mut counted = 0;
    for status in OrderStatus::ALL {
        let slice = filter_by_status(orders.clone(), Some(status));
        assert_eq!(totals.count_of(status), slice.len());
        counted += slice.len();
        // The slice is in the order of the whole list.
        assert!(slice
            .windows(2)
            .all(|pair| !pair[1].due_date.is_before(pair[0].due_date)));
        assert_eq!(filter_by_status(slice.clone(), Some(status)), slice);
    }
    assert_eq!(counted, totals.order_count);
}

#[test]
fn a_quantity_in_decimal_reads_back() {
    for quantity in [1, 42, 1_000, i64::MAX] {
        assert_eq!(
            orders_and_settlements::orders::parse_quantity(&quantity.to_string()),
            Ok(quantity)
        );
    }
}
