//! How amounts and statuses are shown.

use orders_and_settlements::app::{
    format_cents, humanize_status, join_words, normalize_status, normalized_label,
    normalized_tone, status_tone, MoneyText, StatusBadge,
};
use orders_and_settlements::orders::OrderStatus;

#[test]
fn formats_whole_and_partial_amounts() {
    assert_eq!(format_cents(0), "$0.00");
    assert_eq!(format_cents(5), "$0.05");
    assert_eq!(format_cents(50), "$0.50");
    assert_eq!(format_cents(100), "$1.00");
    assert_eq!(format_cents(1_099), "$10.99");
}

#[test]
fn groups_thousands() {
    assert_eq!(format_cents(123_456), "$1,234.56");
    assert_eq!(format_cents(100_000_000), "$1,000,000.00");
    assert_eq!(format_cents(99_999), "$999.99");
}

#[test]
fn formats_negative_amounts() {
    assert_eq!(format_cents(-1), "-$0.01");
    assert_eq!(format_cents(-2_550), "-$25.50");
}

#[test]
fn survives_the_extremes() {
    // `-i64::MIN` is not representable; this must not panic or wrap.
    assert_eq!(format_cents(i64::MIN), "-$92,233,720,368,547,758.08");
    assert_eq!(format_cents(i64::MAX), "$92,233,720,368,547,758.07");
}

#[test]
fn maps_every_derived_status_to_a_tone() {
    assert_eq!(status_tone("paid"), "ok");
    assert_eq!(status_tone("partially_paid"), "warn");
    assert_eq!(status_tone("overdue"), "bad");
    assert_eq!(status_tone("pending"), "neutral");
}

#[test]
fn tolerates_status_spelling_variants() {
    assert_eq!(status_tone("Partially Paid"), "warn");
    assert_eq!(status_tone("partially-paid"), "warn");
    assert_eq!(status_tone(" PAID "), "ok");
}

#[test]
fn unknown_status_is_neutral_not_a_panic() {
    assert_eq!(status_tone("refunded"), "neutral");
    assert_eq!(status_tone(""), "neutral");
}

#[test]
fn humanizes_status_labels() {
    assert_eq!(humanize_status("partially_paid"), "Partially paid");
    assert_eq!(humanize_status("paid"), "Paid");
    assert_eq!(humanize_status(""), "");
}

#[test]
fn letter_case_follows_unicode() {
    assert_eq!(normalize_status(" ÜBER-Fällig "), "über_fällig");
    assert_eq!(humanize_status("über fällig"), "Über fällig");
    // One character can become two.
    assert_eq!(humanize_status("ßtatus"), "SStatus");
}

#[test]
fn a_normalized_status_is_finished_by_itself() {
    assert_eq!(join_words("partially-paid now"), "partially_paid_now");
    assert_eq!(normalized_tone("overdue"), "bad");
    assert_eq!(normalized_tone("OVERDUE"), "neutral");
    assert_eq!(normalized_label("partially_paid", "P"), "Partially paid");
}

#[test]
fn a_badge_says_what_the_status_says() {
    for status in OrderStatus::ALL {
        let badge = StatusBadge::of(status);
        assert_eq!(badge.label, status.label());
        assert_eq!(badge.tone, status_tone(status.as_str()));
        assert_eq!(badge, StatusBadge::new(status.as_str()));
    }
}

#[test]
fn a_shown_amount_keeps_the_exact_number() {
    let shown = MoneyText::new(-2_550);
    assert_eq!(shown.cents, -2_550);
    assert!(shown.negative);
    assert_eq!(shown.text, "-$25.50");
    assert!(!MoneyText::new(0).negative);
}
