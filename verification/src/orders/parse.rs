//! Reading what a person types into a form.
//!
//! Each parser answers with the message the person should see.

use vstd::prelude::*;

use crate::app;
use crate::date;
use crate::date::{CalendarDate, DATE_FORMAT};
use crate::text;

verus! {

// ---------------------------------------------------------------------------
// Money
// ---------------------------------------------------------------------------

/// The text of an amount after the surrounding white space, one leading `$` and
/// the white space after it.
pub open spec fn amount_part(raw: Seq<char>) -> Seq<char> {
    let shown = text::trimmed(raw);
    text::trimmed_start(
        if shown.len() > 0 && shown[0] == '$' {
            shown.skip(1)
        } else {
            shown
        },
    )
}

/// The cents that a fraction of at most two digits stands for: `5` is fifty.
pub open spec fn fraction_cents(fraction: Seq<char>) -> nat {
    if fraction.len() == 1 {
        text::digits_value(fraction) * 10
    } else {
        text::digits_value(fraction)
    }
}

/// What a typed amount stands for: a count of cents, or the message about it.
pub open spec fn money_meaning(raw: Seq<char>) -> Result<int, Seq<char>> {
    let amount = amount_part(raw);
    let cleaned = text::without(amount, ',');
    let whole = text::before(cleaned, '.');
    let fraction = text::after(cleaned, '.');
    let cents = text::digits_value(whole) * 100 + fraction_cents(fraction);
    if text::trimmed(raw).len() == 0 {
        Err("Enter a unit price."@)
    } else if amount.len() > 0 && amount[0] == '-' {
        Err("Enter a unit price of zero or more."@)
    } else if whole.len() == 0 && fraction.len() == 0 {
        Err("Enter an amount like 1234.50."@)
    } else if !text::all_digits(whole) || !text::all_digits(fraction) {
        Err("Enter an amount like 1234.50."@)
    } else if fraction.len() > 2 {
        Err("Amounts carry at most two decimal places."@)
    } else if cents > i64::MAX {
        Err("That amount is larger than this system can hold."@)
    } else {
        Ok(cents as int)
    }
}

/// Whether a parser's answer is what the text means.
pub open spec fn reads_as(answer: Result<i64, &'static str>, meaning: Result<int, Seq<char>>) -> bool {
    match answer {
        Ok(n) => meaning == Ok::<int, Seq<char>>(n as int),
        Err(message) => meaning == Err::<int, Seq<char>>(message@),
    }
}

/// Reads a typed amount as whole cents.
///
/// Accepts `1234.50`, `$1,234.50`, `1234`, `.50` and `1234.5`. Refuses negative
/// amounts, three or more decimal places, and anything else that is no number.
pub fn parse_money_to_cents(raw: &str) -> (r: Result<i64, &'static str>)
    ensures
        reads_as(r, money_meaning(raw@)),
{
    let chars = text::chars_of(raw);
    let shown = text::trim(chars.as_slice());
    if shown.len() == 0 {
        return Err("Enter a unit price.");
    }
    let unsigned = if shown[0] == '$' {
        assert(shown@.skip(1) =~= shown@.subrange(1, shown@.len() as int));
        text::trim_start(vstd::slice::slice_subrange(shown, 1, shown.len()))
    } else {
        text::trim_start(shown)
    };
    if unsigned.len() > 0 && unsigned[0] == '-' {
        return Err("Enter a unit price of zero or more.");
    }
    let cleaned = text::remove_all(unsigned, ',');
    let (whole, fraction) = text::split_once(cleaned.as_slice(), '.');
    if whole.len() == 0 && fraction.len() == 0 {
        return Err("Enter an amount like 1234.50.");
    }
    if !text::only_digits(whole) || !text::only_digits(fraction) {
        return Err("Enter an amount like 1234.50.");
    }
    if fraction.len() > 2 {
        return Err("Amounts carry at most two decimal places.");
    }
    let dollars: i64 = match text::read_digits(whole) {
        Some(dollars) => dollars,
        None => {
            return Err("That amount is larger than this system can hold.");
        },
    };
    proof {
        lemma_short_fraction(fraction@);
    }
    let cents: i64 = match text::read_digits(fraction) {
        Some(cents) => if fraction.len() == 1 { cents * 10 } else { cents },
        None => {
            return Err("That amount is larger than this system can hold.");
        },
    };
    match dollars.checked_mul(100) {
        Some(hundreds) => match hundreds.checked_add(cents) {
            Some(total) => Ok(total),
            None => Err("That amount is larger than this system can hold."),
        },
        None => Err("That amount is larger than this system can hold."),
    }
}

/// Two digits at most stand for less than one hundred, and one for less than ten.
proof fn lemma_short_fraction(fraction: Seq<char>)
    requires
        text::all_digits(fraction),
        fraction.len() <= 2,
    ensures
        text::digits_value(fraction) < 100,
        fraction.len() <= 1 ==> text::digits_value(fraction) < 10,
{
    reveal_with_fuel(text::digits_value, 3);
    if fraction.len() == 1 {
        assert(text::is_digit(fraction[0]));
    } else if fraction.len() == 2 {
        assert(text::is_digit(fraction[0]) && text::is_digit(fraction[1]));
    }
}

// ---------------------------------------------------------------------------
// Quantities
// ---------------------------------------------------------------------------

/// What a typed quantity stands for: a whole number, or the message about it.
pub open spec fn quantity_meaning(raw: Seq<char>) -> Result<int, Seq<char>> {
    let cleaned = text::without(text::trimmed(raw), ',');
    if text::trimmed(raw).len() == 0 {
        Err("Enter a quantity."@)
    } else if cleaned.len() == 0 || !text::all_digits(cleaned) {
        Err("Enter the quantity as a whole number."@)
    } else if text::digits_value(cleaned) > i64::MAX {
        Err("That quantity is larger than this system can hold."@)
    } else if text::digits_value(cleaned) < 1 {
        Err("Enter a quantity of one or more."@)
    } else {
        Ok(text::digits_value(cleaned) as int)
    }
}

/// Reads a typed quantity as a positive whole number. A fraction is refused
/// rather than rounded.
pub fn parse_quantity(raw: &str) -> (r: Result<i64, &'static str>)
    ensures
        reads_as(r, quantity_meaning(raw@)),
{
    let chars = text::chars_of(raw);
    let shown = text::trim(chars.as_slice());
    if shown.len() == 0 {
        return Err("Enter a quantity.");
    }
    let cleaned = text::remove_all(shown, ',');
    if cleaned.len() == 0 || !text::only_digits(cleaned.as_slice()) {
        return Err("Enter the quantity as a whole number.");
    }
    match text::read_digits(cleaned.as_slice()) {
        Some(quantity) => if quantity < 1 {
            Err("Enter a quantity of one or more.")
        } else {
            Ok(quantity)
        },
        None => Err("That quantity is larger than this system can hold."),
    }
}

// ---------------------------------------------------------------------------
// Dates
// ---------------------------------------------------------------------------

/// What a typed date stands for, given the date that was read from the text
/// between its surrounding white space.
pub open spec fn due_date_meaning(raw: Seq<char>, found: Option<(i32, u32, u32)>) -> Result<
    CalendarDate,
    Seq<char>,
> {
    if text::trimmed(raw).len() == 0 {
        Err("Enter a due date."@)
    } else {
        match found {
            Some(date) => Ok(CalendarDate { year: date.0, month: date.1, day: date.2 }),
            None => Err("Enter the due date as YYYY-MM-DD."@),
        }
    }
}

/// The date that is read from the text between a typed date's surrounding white
/// space.
pub open spec fn found_date(raw: Seq<char>) -> Option<(i32, u32, u32)> {
    date::parsed_date(text::trimmed(raw), DATE_FORMAT@)
}

/// Whether a date parser's answer is what the text means.
pub open spec fn reads_as_date(
    answer: Result<CalendarDate, &'static str>,
    meaning: Result<CalendarDate, Seq<char>>,
) -> bool {
    match answer {
        Ok(date) => meaning == Ok::<CalendarDate, Seq<char>>(date),
        Err(message) => meaning == Err::<CalendarDate, Seq<char>>(message@),
    }
}

/// Judges a typed date by the date that was read from it.
pub fn check_due_date(raw: &str, found: Option<(i32, u32, u32)>) -> (r: Result<
    CalendarDate,
    &'static str,
>)
    ensures
        reads_as_date(r, due_date_meaning(raw@, found)),
{
    let chars = text::chars_of(raw);
    if text::trim(chars.as_slice()).len() == 0 {
        return Err("Enter a due date.");
    }
    match found {
        Some((year, month, day)) => Ok(CalendarDate { year, month, day }),
        None => Err("Enter the due date as YYYY-MM-DD."),
    }
}

/// Reads the `YYYY-MM-DD` value that a date input submits.
///
/// A past date is accepted: recording an invoice that was already due is a
/// normal thing to do, and whether it is overdue is derived when it is read.
pub fn parse_due_date(raw: &str) -> (r: Result<CalendarDate, &'static str>)
    ensures
        reads_as_date(r, due_date_meaning(raw@, found_date(raw@))),
        r matches Ok(date) ==> date.wf(),
        forall|date: CalendarDate|
            date.wf() && text::trimmed(raw@) == #[trigger] date.text() ==> r == Ok::<CalendarDate, &'static str>(date),
        r is Ok ==> forall|i: int|
            0 <= i < text::trimmed(raw@).len() ==> (text::is_digit(#[trigger] text::trimmed(raw@)[i])
                || text::trimmed(raw@)[i] == '-' || text::trimmed(raw@)[i] == '+' || text::is_space(
                text::trimmed(raw@)[i],
            )),
{
    let chars = text::chars_of(raw);
    let shown = text::string_of(text::trim(chars.as_slice()));
    let found = date::read_date(shown.as_str(), DATE_FORMAT);
    proof {
        assert forall|date: CalendarDate|
            date.wf() && text::trimmed(raw@) == #[trigger] date.text() implies found == Some(
            (date.year, date.month, date.day),
        ) by {
            assert(shown@ == date::date_text(date.year as int, date.month as int, date.day as int));
            assert(shown@.len() > 0);
        }
    }
    check_due_date(raw, found)
}

// ---------------------------------------------------------------------------
// Amounts for an input
// ---------------------------------------------------------------------------

/// An amount in cents as `1234.50`, with a minus sign in front when negative.
pub open spec fn plain_money_text(cents: int) -> Seq<char> {
    let size = if cents < 0 { (-cents) as nat } else { cents as nat };
    (if cents < 0 { seq!['-'] } else { Seq::empty() }) + text::decimal(size / 100) + seq!['.']
        + text::two_digits(size % 100)
}

/// Renders an amount as the plain decimal text that the money input accepts,
/// without the currency symbol and the separators that are there for reading.
pub fn format_cents_for_input(cents: i64) -> (r: String)
    ensures
        r@ == plain_money_text(cents as int),
{
    let size: u64 = text::magnitude(cents);
    let mut r = String::new();
    if cents < 0 {
        r.push('-');
    }
    r.append(text::decimal_text(size / 100).as_str());
    r.push('.');
    r.append(text::two_digits_text(size % 100).as_str());
    assert(r@ =~= plain_money_text(cents as int));
    r
}

// ---------------------------------------------------------------------------
// Laws
// ---------------------------------------------------------------------------

/// Two digits stand for the number they were made from.
proof fn lemma_two_digits(n: nat)
    requires
        n < 100,
    ensures
        text::all_digits(text::two_digits(n)),
        fraction_cents(text::two_digits(n)) == n,
{
    reveal_with_fuel(text::digits_value, 3);
    let d = text::two_digits(n);
    assert(d.drop_last() =~= seq![text::digit(n / 10)]);
    assert(seq![text::digit(n / 10)].drop_last() =~= Seq::<char>::empty());
}

/// There is no separator to remove from a row of digits.
proof fn lemma_digits_hold_no_separator(digits: Seq<char>)
    requires
        text::all_digits(digits),
    ensures
        text::without(digits, ',') == digits,
{
    assert forall|i: int| 0 <= i < digits.len() implies digits[i] != ',' by {
        assert(text::is_digit(digits[i]));
    }
    text::lemma_without_absent(digits, ',');
}

/// Separators come out of a grouped row of digits again.
proof fn lemma_ungroup(digits: Seq<char>)
    requires
        text::all_digits(digits),
    ensures
        text::without(app::grouped(digits), ',') == digits,
        digits.len() > 0 ==> app::grouped(digits).len() > 0 && app::grouped(digits)[0] == digits[0],
    decreases digits.len(),
{
    if digits.len() <= 3 {
        lemma_digits_hold_no_separator(digits);
    } else {
        let head = digits.take(digits.len() - 3);
        let tail = digits.skip(digits.len() - 3);
        assert forall|i: int| 0 <= i < tail.len() implies text::is_digit(#[trigger] tail[i]) by {
            assert(tail[i] == digits[digits.len() - 3 + i]);
        }
        assert(text::all_digits(head));
        lemma_ungroup(head);
        lemma_digits_hold_no_separator(tail);
        text::lemma_without_concat(app::grouped(head) + seq![','], tail, ',');
        text::lemma_without_concat(app::grouped(head), seq![','], ',');
        text::lemma_without_only(',');
        assert(head + tail =~= digits);
    }
}

/// Amount text that is digits, a point and two digits, possibly with separators
/// and a currency symbol, means the cents it was made from.
proof fn lemma_money_meaning(shown: Seq<char>, amount: Seq<char>, cents: nat)
    requires
        cents <= i64::MAX,
        shown == amount || shown == seq!['$'] + amount,
        amount.len() > 0,
        text::is_digit(amount[0]),
        text::is_digit(amount.last()),
        text::without(amount, ',') == text::decimal(cents / 100) + seq!['.'] + text::two_digits(
            cents % 100,
        ),
    ensures
        money_meaning(shown) == Ok::<int, Seq<char>>(cents as int),
{
    let whole = text::decimal(cents / 100);
    let fraction = text::two_digits(cents % 100);
    text::lemma_nothing_to_trim(shown);
    text::lemma_nothing_to_trim(amount);
    assert((seq!['$'] + amount).skip(1) =~= amount);
    assert(amount_part(shown) == amount);
    text::lemma_decimal(cents / 100);
    lemma_two_digits(cents % 100);
    assert forall|i: int| 0 <= i < whole.len() implies whole[i] != '.' by {
        assert(text::is_digit(whole[i]));
    }
    text::lemma_split_at(whole, '.', fraction);
}

/// An amount prefilled into the money input reads back as exactly that amount.
pub proof fn law_input_amount_reads_back(cents: int)
    requires
        0 <= cents <= i64::MAX,
    ensures
        money_meaning(plain_money_text(cents)) == Ok::<int, Seq<char>>(cents),
{
    let size = cents as nat;
    let whole = text::decimal(size / 100);
    let fraction = text::two_digits(size % 100);
    let shown = plain_money_text(cents);
    text::lemma_decimal(size / 100);
    lemma_two_digits(size % 100);
    assert(shown =~= whole + seq!['.'] + fraction);
    assert(text::is_digit(whole[0]));
    assert(shown.last() == fraction[1]);
    lemma_digits_hold_no_separator(whole);
    lemma_digits_hold_no_separator(fraction);
    text::lemma_without_concat(whole + seq!['.'], fraction, ',');
    text::lemma_without_concat(whole, seq!['.'], ',');
    text::lemma_without_absent(seq!['.'], ',');
    lemma_money_meaning(shown, shown, size);
}

/// An amount as it is shown, with its currency symbol and its separators, reads
/// back as exactly that amount.
pub proof fn law_shown_amount_reads_back(cents: int)
    requires
        0 <= cents <= i64::MAX,
    ensures
        money_meaning(app::money_text(cents)) == Ok::<int, Seq<char>>(cents),
{
    let size = cents as nat;
    let whole = text::decimal(size / 100);
    let fraction = text::two_digits(size % 100);
    let amount = app::grouped(whole) + seq!['.'] + fraction;
    text::lemma_decimal(size / 100);
    lemma_two_digits(size % 100);
    lemma_ungroup(whole);
    assert(app::money_text(cents) =~= seq!['$'] + amount);
    assert(text::is_digit(whole[0]));
    assert(amount.last() == fraction[1]);
    text::lemma_without_concat(app::grouped(whole) + seq!['.'], fraction, ',');
    text::lemma_without_concat(app::grouped(whole), seq!['.'], ',');
    text::lemma_without_absent(seq!['.'], ',');
    lemma_digits_hold_no_separator(fraction);
    lemma_money_meaning(app::money_text(cents), amount, size);
}

/// An amount as it may be typed: white space around it, and in front of it a
/// currency symbol, which white space may follow.
pub open spec fn typed(
    left: Seq<char>,
    symbol: bool,
    middle: Seq<char>,
    amount: Seq<char>,
    right: Seq<char>,
) -> Seq<char> {
    left + (if symbol {
        seq!['$']
    } else {
        Seq::empty()
    }) + middle + amount + right
}

/// What was typed is taken out of the white space and the symbol around it.
proof fn lemma_typed(
    left: Seq<char>,
    symbol: bool,
    middle: Seq<char>,
    amount: Seq<char>,
    right: Seq<char>,
)
    requires
        text::all_space(left),
        text::all_space(middle),
        text::all_space(right),
        amount.len() > 0,
        !text::is_space(amount[0]),
        !text::is_space(amount.last()),
        amount[0] != '$',
    ensures
        amount_part(typed(left, symbol, middle, amount, right)) == amount,
        text::trimmed(typed(left, symbol, middle, amount, right)).len() > 0,
{
    let raw = typed(left, symbol, middle, amount, right);
    if symbol {
        let shown = seq!['$'] + middle + amount;
        assert(raw =~= left + shown + right);
        text::law_trimming_undoes_padding(left, shown, right);
        assert(shown.skip(1) =~= middle + amount);
        text::law_trimming_undoes_padding(middle, amount, right);
    } else {
        assert(raw =~= (left + middle) + amount + right);
        assert forall|i: int| 0 <= i < (left + middle).len() implies text::is_space(
            #[trigger] (left + middle)[i],
        ) by {
            if i < left.len() {
                assert(text::is_space(left[i]));
            } else {
                assert(text::is_space(middle[i - left.len()]));
            }
        }
        text::law_trimming_undoes_padding(left + middle, amount, right);
        text::lemma_nothing_to_trim(amount);
    }
}

/// Digits after the point are tenths and hundredths of a dollar.
pub open spec fn hundredths(fraction: Seq<char>) -> int {
    (if fraction.len() > 0 { 10 * text::digit_value(fraction[0]) } else { 0 }) + (if fraction.len()
        > 1 { text::digit_value(fraction[1]) as int } else { 0 })
}

/// A typed amount means its digits: those before the point are dollars, of a
/// hundred cents each, and those after it tenths and hundredths of a dollar.
/// Without a point it means whole dollars. Separators between the digits, the
/// currency symbol and white space around it all mean nothing.
pub proof fn law_amounts_mean_dollars_and_cents(
    left: Seq<char>,
    symbol: bool,
    middle: Seq<char>,
    amount: Seq<char>,
    right: Seq<char>,
    dollars: Seq<char>,
    point: bool,
    fraction: Seq<char>,
)
    requires
        text::all_space(left),
        text::all_space(middle),
        text::all_space(right),
        text::all_digits(dollars),
        text::all_digits(fraction),
        dollars.len() + fraction.len() > 0,
        !point ==> fraction.len() == 0,
        text::without(amount, ',') == dollars + (if point {
            seq!['.'] + fraction
        } else {
            Seq::empty()
        }),
    ensures
        ({
            let cents = 100 * text::digits_value(dollars) + hundredths(fraction);
            money_meaning(typed(left, symbol, middle, amount, right)) == if fraction.len() > 2 {
                Err::<int, Seq<char>>("Amounts carry at most two decimal places."@)
            } else if cents > i64::MAX {
                Err("That amount is larger than this system can hold."@)
            } else {
                Ok(cents)
            }
        }),
{
    let cleaned = text::without(amount, ',');
    lemma_amount_characters(amount, dollars, point, fraction);
    lemma_typed(left, symbol, middle, amount, right);
    assert forall|i: int| 0 <= i < dollars.len() implies dollars[i] != '.' by {
        assert(text::is_digit(dollars[i]));
    }
    if point {
        assert(cleaned =~= dollars + seq!['.'] + fraction);
        text::lemma_split_at(dollars, '.', fraction);
    } else {
        assert(cleaned =~= dollars);
        text::lemma_first_at(dollars, '.', dollars.len() as int);
        assert(text::before(cleaned, '.') =~= dollars);
        assert(text::after(cleaned, '.') =~= fraction);
    }
    if fraction.len() <= 2 {
        lemma_hundredths(fraction);
    }
}

/// At most two digits after the point are worth their hundredths.
proof fn lemma_hundredths(fraction: Seq<char>)
    requires
        text::all_digits(fraction),
        fraction.len() <= 2,
    ensures
        fraction_cents(fraction) == hundredths(fraction),
{
    reveal_with_fuel(text::digits_value, 3);
    if fraction.len() == 2 {
        assert(fraction.drop_last().last() == fraction[0]);
    }
}

/// The characters of an amount that is digits and a point once its separators are
/// taken out.
proof fn lemma_amount_characters(
    amount: Seq<char>,
    dollars: Seq<char>,
    point: bool,
    fraction: Seq<char>,
)
    requires
        text::all_digits(dollars),
        text::all_digits(fraction),
        dollars.len() + fraction.len() > 0,
        text::without(amount, ',') == dollars + (if point {
            seq!['.'] + fraction
        } else {
            Seq::empty()
        }),
        !point ==> fraction.len() == 0,
    ensures
        amount.len() > 0,
        forall|i: int|
            0 <= i < amount.len() ==> text::is_digit(#[trigger] amount[i]) || amount[i] == ','
                || amount[i] == '.',
        !text::is_space(amount[0]),
        !text::is_space(amount.last()),
{
    let cleaned = text::without(amount, ',');
    assert(cleaned.len() > 0);
    if amount.len() == 0 {
        reveal(Seq::filter);
    }
    assert forall|i: int| 0 <= i < amount.len() implies text::is_digit(#[trigger] amount[i])
        || amount[i] == ',' || amount[i] == '.' by {
        if amount[i] != ',' {
            lemma_kept(amount, i);
            let k = choose|k: int| 0 <= k < cleaned.len() && cleaned[k] == amount[i];
            if k < dollars.len() {
                assert(text::is_digit(dollars[k]));
            } else if k > dollars.len() {
                assert(cleaned[k] == fraction[k - dollars.len() - 1]);
                assert(text::is_digit(fraction[k - dollars.len() - 1]));
            }
        }
    }
    assert(text::is_digit(amount[0]) || amount[0] == ',' || amount[0] == '.');
    assert(amount.last() == amount[amount.len() - 1]);
}

/// A character that is no separator stays.
proof fn lemma_kept(s: Seq<char>, i: int)
    requires
        0 <= i < s.len(),
        s[i] != ',',
    ensures
        text::without(s, ',').contains(s[i]),
    decreases s.len(),
{
    reveal(Seq::filter);
    let rest = s.drop_last();
    if i == s.len() - 1 {
        let kept = text::without(s, ',');
        assert(kept[kept.len() - 1] == s[i]);
    } else {
        lemma_kept(rest, i);
        assert(rest[i] == s[i]);
        let kept = text::without(rest, ',');
        let k = choose|k: int| 0 <= k < kept.len() && kept[k] == s[i];
        assert(text::without(s, ',')[k] == s[i]);
    }
}

/// An amount without a point is in whole dollars, with or without separators and
/// the currency symbol.
pub proof fn law_whole_amounts_are_dollars(n: nat, symbol: bool, separators: bool)
    requires
        100 * n <= i64::MAX,
    ensures
        ({
            let row = text::decimal(n);
            let amount = if separators { app::grouped(row) } else { row };
            money_meaning(
                if symbol {
                    seq!['$'] + amount
                } else {
                    amount
                },
            ) == Ok::<int, Seq<char>>((100 * n) as int)
        }),
{
    let row = text::decimal(n);
    text::lemma_decimal(n);
    lemma_digits_hold_no_separator(row);
    lemma_ungroup(row);
    lemma_dollars(symbol, if separators { app::grouped(row) } else { row }, row);
}

/// `.00` after whole dollars changes nothing.
pub proof fn law_no_cents_need_not_be_typed(n: nat)
    requires
        100 * n <= i64::MAX,
    ensures
        money_meaning(text::decimal(n) + ".00"@) == Ok::<int, Seq<char>>((100 * n) as int),
{
    let row = text::decimal(n);
    text::lemma_decimal(n);
    reveal_strlit(".00");
    lemma_pointed(row, seq!['0', '0']);
    assert(row + ".00"@ =~= row + seq!['.'] + seq!['0', '0']);
}

/// One digit after the point is tenths of a dollar: `1234.5` is `1234.50`, and
/// nothing need stand before the point.
pub proof fn law_one_digit_is_tenths(n: nat, d: nat)
    requires
        100 * n + 10 * d <= i64::MAX,
        d < 10,
    ensures
        money_meaning(text::decimal(n) + seq!['.'] + seq![text::digit(d)]) == Ok::<int, Seq<char>>(
            (100 * n + 10 * d) as int,
        ),
        money_meaning(seq!['.'] + seq![text::digit(d)]) == Ok::<int, Seq<char>>((10 * d) as int),
{
    let row = text::decimal(n);
    let tenths = seq![text::digit(d)];
    text::lemma_decimal(n);
    text::law_ten_digits(text::digit(d), d);
    assert(text::all_digits(tenths));
    lemma_pointed(row, tenths);
    lemma_pointed(Seq::empty(), tenths);
    assert(Seq::<char>::empty() + seq!['.'] + tenths =~= seq!['.'] + tenths);
}

/// Dollars alone.
proof fn lemma_dollars(symbol: bool, amount: Seq<char>, dollars: Seq<char>)
    requires
        text::all_digits(dollars),
        dollars.len() > 0,
        text::without(amount, ',') == dollars,
        100 * text::digits_value(dollars) <= i64::MAX,
    ensures
        money_meaning(
            if symbol {
                seq!['$'] + amount
            } else {
                amount
            },
        ) == Ok::<int, Seq<char>>((100 * text::digits_value(dollars)) as int),
{
    let none = Seq::<char>::empty();
    assert(dollars + none =~= dollars);
    law_amounts_mean_dollars_and_cents(none, symbol, none, amount, none, dollars, false, none);
    assert(typed(none, true, none, amount, none) =~= seq!['$'] + amount);
    assert(typed(none, false, none, amount, none) =~= amount);
}

/// Dollars, a point, and one or two digits.
proof fn lemma_pointed(dollars: Seq<char>, fraction: Seq<char>)
    requires
        text::all_digits(dollars),
        text::all_digits(fraction),
        1 <= fraction.len() <= 2,
        100 * text::digits_value(dollars) + hundredths(fraction) <= i64::MAX,
    ensures
        money_meaning(dollars + seq!['.'] + fraction) == Ok::<int, Seq<char>>(
            100 * text::digits_value(dollars) + hundredths(fraction),
        ),
{
    let none = Seq::<char>::empty();
    let amount = dollars + seq!['.'] + fraction;
    lemma_digits_hold_no_separator(dollars);
    lemma_digits_hold_no_separator(fraction);
    text::lemma_without_concat(dollars + seq!['.'], fraction, ',');
    text::lemma_without_concat(dollars, seq!['.'], ',');
    text::lemma_without_absent(seq!['.'], ',');
    assert(amount =~= dollars + (seq!['.'] + fraction));
    law_amounts_mean_dollars_and_cents(none, false, none, amount, none, dollars, true, fraction);
    assert(typed(none, false, none, amount, none) =~= amount);
}

/// Nothing typed is asked for, and a minus sign in front is refused, with a message
/// of its own each.
pub proof fn law_blank_and_negative_amounts_are_refused(
    left: Seq<char>,
    symbol: bool,
    middle: Seq<char>,
    rest: Seq<char>,
    right: Seq<char>,
)
    requires
        text::all_space(left),
        text::all_space(middle),
        text::all_space(right),
        rest.len() > 0 ==> !text::is_space(rest.last()),
    ensures
        money_meaning(left) == Err::<int, Seq<char>>("Enter a unit price."@),
        quantity_meaning(left) == Err::<int, Seq<char>>("Enter a quantity."@),
        money_meaning(typed(left, symbol, middle, seq!['-'] + rest, right)) == Err::<
            int,
            Seq<char>,
        >("Enter a unit price of zero or more."@),
{
    lemma_typed(left, symbol, middle, seq!['-'] + rest, right);
    text::law_trimming_undoes_padding(left, seq!['-'], Seq::empty());
    assert(left + Seq::<char>::empty() =~= left);
}

/// A text that holds anything but digits, separators and a point is no amount.
pub proof fn law_other_texts_are_no_amounts(
    left: Seq<char>,
    symbol: bool,
    middle: Seq<char>,
    amount: Seq<char>,
    right: Seq<char>,
    i: int,
)
    requires
        text::all_space(left),
        text::all_space(middle),
        text::all_space(right),
        0 <= i < amount.len(),
        !text::is_digit(amount[i]) && amount[i] != ',' && amount[i] != '.',
        !text::is_space(amount[0]),
        !text::is_space(amount.last()),
        amount[0] != '$',
        amount[0] != '-',
    ensures
        money_meaning(typed(left, symbol, middle, amount, right)) == Err::<int, Seq<char>>(
            "Enter an amount like 1234.50."@,
        ),
{
    lemma_typed(left, symbol, middle, amount, right);
    lemma_kept(amount, i);
    let cleaned = text::without(amount, ',');
    let k = choose|k: int| 0 <= k < cleaned.len() && cleaned[k] == amount[i];
    text::law_splitting_loses_only_the_separator(cleaned, '.');
    let whole = text::before(cleaned, '.');
    let fraction = text::after(cleaned, '.');
    if k < whole.len() {
        assert(!text::is_digit(whole[k]));
    } else {
        assert(cleaned.contains('.'));
        assert(k != whole.len());
        assert(fraction[k - whole.len() - 1] == amount[i]);
        assert(!text::is_digit(fraction[k - whole.len() - 1]));
    }
}

/// A typed quantity means its digits, whatever separators stand between them and
/// whatever white space around them. Zero is refused, and so is anything else than
/// digits.
pub proof fn law_quantities_mean_their_digits(
    left: Seq<char>,
    shown: Seq<char>,
    right: Seq<char>,
    digits: Seq<char>,
)
    requires
        text::all_space(left),
        text::all_space(right),
        shown.len() > 0,
        !text::is_space(shown[0]),
        !text::is_space(shown.last()),
        digits == text::without(shown, ','),
    ensures
        ({
            let answer = quantity_meaning(left + shown + right);
            let n = text::digits_value(digits);
            if digits.len() == 0 || exists|i: int|
                0 <= i < digits.len() && !text::is_digit(#[trigger] digits[i]) {
                answer == Err::<int, Seq<char>>("Enter the quantity as a whole number."@)
            } else if n == 0 {
                answer == Err::<int, Seq<char>>("Enter a quantity of one or more."@)
            } else if n > i64::MAX {
                answer == Err::<int, Seq<char>>(
                    "That quantity is larger than this system can hold."@,
                )
            } else {
                answer == Ok::<int, Seq<char>>(n as int)
            }
        }),
{
    text::law_trimming_undoes_padding(left, shown, right);
}

/// A prefilled amount is a row of digits without needless zeros, a point and two
/// digits, and the same with a minus sign in front for a negative one.
pub proof fn law_prefilled_amounts_are_plain(cents: int)
    requires
        0 <= cents,
    ensures
        ({
            let shown = plain_money_text(cents);
            let n = shown.len() as int;
            &&& n >= 4
            &&& shown[n - 3] == '.'
            &&& text::all_digits(shown.take(n - 3))
            &&& text::all_digits(shown.skip(n - 2))
            &&& n > 4 ==> shown[0] != '0'
            &&& 100 * text::digits_value(shown.take(n - 3)) + text::digits_value(shown.skip(n - 2))
                == cents
        }),
        cents > 0 ==> plain_money_text(-cents) == seq!['-'] + plain_money_text(cents),
{
    let size = cents as nat;
    let whole = text::decimal(size / 100);
    let fraction = text::two_digits(size % 100);
    let shown = plain_money_text(cents);
    let n = shown.len() as int;
    text::law_decimal_is_the_shortest_row(size / 100, whole);
    lemma_two_digits(size % 100);
    text::lemma_decimal(size / 100);
    assert(shown =~= whole + seq!['.'] + fraction);
    assert(shown.take(n - 3) =~= whole);
    assert(shown.skip(n - 2) =~= fraction);
    assert(plain_money_text(-cents) =~= if cents > 0 {
        seq!['-'] + shown
    } else {
        shown
    });
}

/// A parser's answer is what the text means only if it is exactly that number or
/// exactly that message.
pub proof fn law_parsers_answer_exactly(
    answer: Result<i64, &'static str>,
    meaning: Result<int, Seq<char>>,
    day: Result<CalendarDate, &'static str>,
    day_meaning: Result<CalendarDate, Seq<char>>,
)
    ensures
        reads_as(answer, meaning) ==> (answer is Ok <==> meaning is Ok),
        reads_as(answer, meaning) && answer is Ok ==> answer->Ok_0 == meaning->Ok_0,
        reads_as(answer, meaning) && answer is Err ==> answer->Err_0@ == meaning->Err_0,
        reads_as_date(day, day_meaning) ==> (day is Ok <==> day_meaning is Ok),
        reads_as_date(day, day_meaning) && day is Ok ==> day->Ok_0 == day_meaning->Ok_0,
        reads_as_date(day, day_meaning) && day is Err ==> day->Err_0@ == day_meaning->Err_0,
{
}

/// A typed date means the date that was read from it. Nothing typed is asked for, and
/// a text from which none was read is refused.
pub proof fn law_dates_mean_what_was_read(
    raw: Seq<char>,
    found: Option<(i32, u32, u32)>,
    space: Seq<char>,
)
    requires
        text::all_space(space),
        exists|i: int| 0 <= i < raw.len() && !text::is_space(#[trigger] raw[i]),
    ensures
        due_date_meaning(space, found) == Err::<CalendarDate, Seq<char>>("Enter a due date."@),
        match found {
            Some(date) => due_date_meaning(raw, found) matches Ok(day) && day.year == date.0
                && day.month == date.1 && day.day == date.2,
            None => due_date_meaning(raw, found) == Err::<CalendarDate, Seq<char>>(
                "Enter the due date as YYYY-MM-DD."@,
            ),
        },
        found_date(raw) == date::parsed_date(text::trimmed(raw), "%Y-%m-%d"@),
{
    text::law_trimming_undoes_padding(space, seq!['x'], Seq::empty());
    assert(space + Seq::<char>::empty() =~= space);
    let i = choose|i: int| 0 <= i < raw.len() && !text::is_space(#[trigger] raw[i]);
    text::lemma_something_is_left(raw, i);
}

/// A symbol, a point or separators without a digit are no amount, and neither is a
/// text with more than one point.
pub proof fn law_an_amount_needs_digits_and_one_point(
    left: Seq<char>,
    symbol: bool,
    middle: Seq<char>,
    amount: Seq<char>,
    right: Seq<char>,
    whole: Seq<char>,
    rest: Seq<char>,
)
    requires
        text::all_space(left),
        text::all_space(middle),
        text::all_space(right),
        amount.len() > 0,
        !text::is_space(amount[0]),
        !text::is_space(amount.last()),
        amount[0] != '$',
        amount[0] != '-',
        text::without(amount, ',') == Seq::<char>::empty() || text::without(amount, ',') == seq!['.']
            || text::without(amount, ',') == whole + seq!['.'] + rest && rest.contains('.')
            && text::all_digits(whole),
    ensures
        money_meaning(typed(left, symbol, middle, amount, right)) == Err::<int, Seq<char>>(
            "Enter an amount like 1234.50."@,
        ),
        money_meaning(seq!['$']) == Err::<int, Seq<char>>("Enter an amount like 1234.50."@),
{
    let cleaned = text::without(amount, ',');
    lemma_typed(left, symbol, middle, amount, right);
    if cleaned == Seq::<char>::empty() {
        text::lemma_first_at(cleaned, '.', 0);
        assert(text::before(cleaned, '.') =~= Seq::<char>::empty());
    } else if cleaned == seq!['.'] {
        text::lemma_first_at(cleaned, '.', 0);
        assert(text::before(cleaned, '.') =~= Seq::<char>::empty());
        assert(text::after(cleaned, '.') =~= Seq::<char>::empty());
    } else {
        assert forall|i: int| 0 <= i < whole.len() implies whole[i] != '.' by {
            assert(text::is_digit(whole[i]));
        }
        text::lemma_split_at(whole, '.', rest);
        let k = choose|k: int| 0 <= k < rest.len() && rest[k] == '.';
        assert(!text::is_digit(rest[k]));
    }
    let none = Seq::<char>::empty();
    text::lemma_nothing_to_trim(seq!['$']);
    assert(seq!['$'].skip(1) =~= none);
    text::lemma_without_absent(none, ',');
    assert(text::before(none, '.') =~= none);
}

} // verus!
