//! Reading and writing amounts, quantities, dates and identifiers.

use orders_and_settlements::date::CalendarDate;
use orders_and_settlements::ids;
use orders_and_settlements::orders::parse::check_due_date;
use orders_and_settlements::orders::{
    format_cents_for_input, parse_due_date, parse_money_to_cents, parse_quantity,
};
use orders_and_settlements::text;

#[test]
fn parses_plain_amounts() {
    assert_eq!(parse_money_to_cents("0"), Ok(0));
    assert_eq!(parse_money_to_cents("1234.50"), Ok(123_450));
    assert_eq!(parse_money_to_cents("500"), Ok(50_000));
}

#[test]
fn parses_what_people_actually_type() {
    assert_eq!(parse_money_to_cents(" $1,234.50 "), Ok(123_450));
    assert_eq!(parse_money_to_cents("$ 1234.5"), Ok(123_450));
    assert_eq!(parse_money_to_cents(".50"), Ok(50));
    assert_eq!(parse_money_to_cents("5."), Ok(500));
}

#[test]
fn rejects_amounts_that_would_lose_a_cent() {
    assert!(parse_money_to_cents("10.999").is_err());
    assert!(parse_money_to_cents("1.2.3").is_err());
    assert!(parse_money_to_cents("-5").is_err());
    assert!(parse_money_to_cents("$-5").is_err());
    assert!(parse_money_to_cents("abc").is_err());
    assert!(parse_money_to_cents("").is_err());
    assert!(parse_money_to_cents("$").is_err());
}

#[test]
fn rejects_amounts_beyond_i64() {
    assert!(parse_money_to_cents("99999999999999999999").is_err());
    // Representable as dollars, not as cents: the ×100 overflows.
    assert!(parse_money_to_cents("9223372036854775807").is_err());
}

#[test]
fn parses_quantities() {
    assert_eq!(parse_quantity("1"), Ok(1));
    assert_eq!(parse_quantity(" 42 "), Ok(42));
    assert_eq!(parse_quantity("1,000"), Ok(1_000));
}

#[test]
fn rejects_unusable_quantities() {
    assert!(parse_quantity("0").is_err());
    assert!(parse_quantity("1.5").is_err());
    assert!(parse_quantity("-1").is_err());
    assert!(parse_quantity("").is_err());
    assert!(parse_quantity("two").is_err());
}

#[test]
fn every_refused_amount_says_why() {
    assert_eq!(parse_money_to_cents("   "), Err("Enter a unit price."));
    assert_eq!(
        parse_money_to_cents("$ -5"),
        Err("Enter a unit price of zero or more.")
    );
    assert_eq!(
        parse_money_to_cents(","),
        Err("Enter an amount like 1234.50.")
    );
    assert_eq!(
        parse_money_to_cents("1.5e3"),
        Err("Enter an amount like 1234.50.")
    );
    assert_eq!(
        parse_money_to_cents("10.999"),
        Err("Amounts carry at most two decimal places.")
    );
    assert_eq!(
        parse_money_to_cents("92233720368547758.08"),
        Err("That amount is larger than this system can hold.")
    );
    assert_eq!(parse_money_to_cents("92233720368547758.07"), Ok(i64::MAX));
}

#[test]
fn a_number_that_is_both_malformed_and_too_large_is_malformed() {
    assert_eq!(
        parse_money_to_cents("99999999999999999999.x"),
        Err("Enter an amount like 1234.50.")
    );
    assert_eq!(
        parse_money_to_cents("99999999999999999999.999"),
        Err("Amounts carry at most two decimal places.")
    );
}

#[test]
fn every_refused_quantity_says_why() {
    assert_eq!(parse_quantity(" "), Err("Enter a quantity."));
    assert_eq!(
        parse_quantity(","),
        Err("Enter the quantity as a whole number.")
    );
    assert_eq!(
        parse_quantity("9223372036854775808"),
        Err("That quantity is larger than this system can hold.")
    );
    assert_eq!(
        parse_quantity("0"),
        Err("Enter a quantity of one or more.")
    );
    assert_eq!(parse_quantity("9223372036854775807"), Ok(i64::MAX));
}

#[test]
fn an_amount_for_an_input_reads_back() {
    assert_eq!(format_cents_for_input(123_450), "1234.50");
    assert_eq!(format_cents_for_input(5), "0.05");
    assert_eq!(format_cents_for_input(-2_550), "-25.50");
    for cents in [0, 1, 99, 100, 123_450, i64::MAX] {
        assert_eq!(
            parse_money_to_cents(&format_cents_for_input(cents)),
            Ok(cents)
        );
    }
}

#[test]
fn an_amount_as_it_is_shown_reads_back() {
    for cents in [0, 7, 100, 999_999, 123_456_789, i64::MAX] {
        let shown = orders_and_settlements::app::format_cents(cents);
        assert_eq!(parse_money_to_cents(&shown), Ok(cents));
    }
}

#[test]
fn white_space_around_a_value_means_nothing() {
    assert_eq!(parse_money_to_cents("\u{2003}5\t\n"), Ok(500));
    assert_eq!(parse_quantity("\u{a0}7\u{3000}"), Ok(7));
    assert_eq!(
        parse_due_date(" 2026-09-30 "),
        Ok(CalendarDate::new(2026, 9, 30).unwrap())
    );
}

#[test]
fn white_space_is_what_unicode_says() {
    for code in 0..=0x10ffff_u32 {
        if let Some(c) = char::from_u32(code) {
            assert_eq!(text::is_white_space(c), c.is_whitespace(), "{code:x}");
        }
    }
}

#[test]
fn trimming_agrees_with_the_standard_library() {
    for raw in ["", "  ", "a", " a", "a ", "\t a b \n", "\u{2003}x\u{85}", "\u{200b}y"] {
        assert_eq!(text::trimmed_string(raw), raw.trim());
    }
}

#[test]
fn a_due_date_is_a_real_day() {
    assert_eq!(
        parse_due_date("2024-02-29"),
        Ok(CalendarDate::new(2024, 2, 29).unwrap())
    );
    assert_eq!(
        parse_due_date("2026-02-29"),
        Err("Enter the due date as YYYY-MM-DD.")
    );
    assert_eq!(
        parse_due_date("30/09/2026"),
        Err("Enter the due date as YYYY-MM-DD.")
    );
    assert_eq!(parse_due_date("  "), Err("Enter a due date."));
}

#[test]
fn a_date_is_judged_by_what_was_read() {
    assert_eq!(
        check_due_date("whatever", Some((2026, 9, 30))),
        Ok(CalendarDate::new(2026, 9, 30).unwrap())
    );
    assert_eq!(
        check_due_date("whatever", None),
        Err("Enter the due date as YYYY-MM-DD.")
    );
    assert_eq!(
        check_due_date(" ", Some((2026, 9, 30))),
        Err("Enter a due date.")
    );
}

#[test]
fn a_shown_date_reads_back() {
    for (year, month, day, shown) in [
        (2026, 9, 30, "2026-09-30"),
        (1, 1, 1, "0001-01-01"),
        (0, 12, 31, "0000-12-31"),
        (-5, 2, 3, "-0005-02-03"),
        (12345, 6, 7, "+12345-06-07"),
        (262142, 12, 31, "+262142-12-31"),
        (-262143, 1, 1, "-262143-01-01"),
    ] {
        let date = CalendarDate::new(year, month, day).unwrap();
        assert_eq!(date.to_string(), shown);
        assert_eq!(parse_due_date(shown), Ok(date));
    }
}

#[test]
fn dates_that_do_not_exist_are_not_made() {
    assert!(CalendarDate::new(2026, 2, 29).is_none());
    assert!(CalendarDate::new(2000, 2, 29).is_some());
    assert!(CalendarDate::new(1900, 2, 29).is_none());
    assert!(CalendarDate::new(2026, 13, 1).is_none());
    assert!(CalendarDate::new(2026, 0, 1).is_none());
    assert!(CalendarDate::new(2026, 4, 31).is_none());
    assert!(CalendarDate::new(262143, 1, 1).is_none());
    assert!(CalendarDate::new(-262144, 1, 1).is_none());
}

#[test]
fn the_calendar_agrees_with_chrono() {
    for year in [-262144, -262143, -400, -100, -4, -1, 0, 1900, 2000, 2023, 2024, 262142, 262143] {
        for month in 0..=13 {
            for day in [0, 1, 28, 29, 30, 31, 32] {
                assert_eq!(
                    CalendarDate::new(year, month, day).is_some(),
                    chrono::NaiveDate::from_ymd_opt(year, month, day).is_some(),
                    "{year}-{month}-{day}"
                );
            }
        }
    }
}

#[test]
fn days_are_ordered_by_year_month_and_day() {
    let day = |y, m, d| CalendarDate::new(y, m, d).unwrap();
    assert!(day(2025, 12, 31).is_before(day(2026, 1, 1)));
    assert!(day(2026, 1, 31).is_before(day(2026, 2, 1)));
    assert!(day(2026, 2, 1).is_before(day(2026, 2, 2)));
    assert!(!day(2026, 2, 2).is_before(day(2026, 2, 2)));
    assert!(!day(2026, 2, 2).is_before(day(2025, 12, 31)));
}

#[test]
fn today_is_the_day_in_utc() {
    let before = chrono::Utc::now().date_naive().to_string();
    let today = orders_and_settlements::date::today().to_string();
    let after = chrono::Utc::now().date_naive().to_string();
    assert!(today == before || today == after);
}

#[test]
fn an_identifier_reads_back_from_its_text() {
    let id: u128 = 0x550e8400_e29b_41d4_a716_446655440000;
    assert_eq!(
        ids::id_to_string(id),
        "550e8400-e29b-41d4-a716-446655440000"
    );
    for id in [0, 1, id, u128::MAX] {
        assert_eq!(ids::find_id(&ids::id_to_string(id)), Some(id));
        assert_eq!(ids::parse_id(&ids::id_to_string(id)), Ok(id));
    }
}

#[test]
fn other_spellings_of_an_identifier_are_read_too() {
    let id: u128 = 0x550e8400_e29b_41d4_a716_446655440000;
    for raw in [
        "550E8400-E29B-41D4-A716-446655440000",
        "550e8400e29b41d4a716446655440000",
        "{550e8400-e29b-41d4-a716-446655440000}",
        "urn:uuid:550e8400-e29b-41d4-a716-446655440000",
    ] {
        assert_eq!(ids::find_id(raw), Some(id), "{raw}");
    }
}

#[test]
fn a_malformed_identifier_is_a_problem_of_that_field() {
    for raw in ["", "not-a-uuid", "550e8400-e29b-41d4-a716-44665544000g"] {
        let error = ids::parse_id(raw).expect_err("that is no identifier");
        assert_eq!(error.message_for("id"), Some("That is not a valid order id."));
        assert_eq!(error.status_code(), 400);
    }
    assert_eq!(ids::require_id(Some(7)), Ok(7));
    assert!(ids::require_id(None).is_err());
}

#[test]
fn new_identifiers_are_version_7_and_increase() {
    let first = ids::new_id();
    let second = ids::new_id();
    for id in [first, second] {
        let uuid = uuid::Uuid::from_u128(id);
        assert_eq!(uuid.get_version_num(), 7);
        assert_eq!((id >> 62) & 3, 2);
    }
    assert!(first < second);
}

#[test]
fn numbers_are_written_in_decimal() {
    assert_eq!(text::decimal_text(0), "0");
    assert_eq!(text::decimal_text(u64::MAX), u64::MAX.to_string());
    assert_eq!(text::signed_decimal_text(i64::MIN), i64::MIN.to_string());
    assert_eq!(text::signed_decimal_text(-10), "-10");
    assert_eq!(text::two_digits_text(7), "07");
}
