//! How amounts and statuses are shown.

use vstd::prelude::*;

use crate::orders::status::OrderStatus;
use crate::text;

verus! {

// ---------------------------------------------------------------------------
// Money
// ---------------------------------------------------------------------------

/// A row of digits with a comma before every group of three, counted from the
/// right.
pub open spec fn grouped(digits: Seq<char>) -> Seq<char>
    decreases digits.len(),
{
    if digits.len() <= 3 {
        digits
    } else {
        grouped(digits.take(digits.len() - 3)) + seq![','] + digits.skip(digits.len() - 3)
    }
}

/// An amount in cents as `$1,234.56`, with a minus sign in front when negative.
pub open spec fn money_text(cents: int) -> Seq<char> {
    let size = if cents < 0 { (-cents) as nat } else { cents as nat };
    (if cents < 0 { seq!['-', '$'] } else { seq!['$'] }) + grouped(text::decimal(size / 100))
        + seq!['.'] + text::two_digits(size % 100)
}

/// Groups a row of digits by thousands.
fn group_digits(digits: &[char]) -> (r: String)
    ensures
        r@ == grouped(digits@),
    decreases digits@.len(),
{
    if digits.len() <= 3 {
        text::string_of(digits)
    } else {
        let (head, tail) = digits.split_at(digits.len() - 3);
        assert(head@ =~= digits@.take(digits@.len() - 3));
        assert(tail@ =~= digits@.skip(digits@.len() - 3));
        let mut r = group_digits(head);
        r.push(',');
        r.append(text::string_of(tail).as_str());
        assert(r@ =~= grouped(digits@));
        r
    }
}

/// Formats a signed cent amount as `-$1,234.56`.
///
/// The magnitude is taken as an unsigned number, because the smallest `i64`
/// has no positive counterpart.
pub fn format_cents(cents: i64) -> (r: String)
    ensures
        r@ == money_text(cents as int),
{
    let size: u64 = text::magnitude(cents);
    let mut r = String::new();
    if cents < 0 {
        r.push('-');
    }
    r.push('$');
    let whole = text::chars_of(text::decimal_text(size / 100).as_str());
    r.append(group_digits(whole.as_slice()).as_str());
    r.push('.');
    r.append(text::two_digits_text(size % 100).as_str());
    assert(r@ =~= money_text(cents as int));
    r
}

/// An amount as a page shows it: the text, the exact number behind it, and
/// whether it is to be marked as negative.
#[derive(Debug, Clone, PartialEq, Eq)]
pub struct MoneyText {
    pub cents: i64,
    pub negative: bool,
    pub text: String,
}

/// Whether a shown amount is a given number of cents.
pub open spec fn shows_money(shown: MoneyText, cents: int) -> bool {
    &&& shown.cents == cents
    &&& shown.negative == (cents < 0)
    &&& shown.text@ == money_text(cents)
}

impl MoneyText {
    /// Shows an amount.
    pub fn new(cents: i64) -> (r: Self)
        ensures
            shows_money(r, cents as int),
    {
        MoneyText { cents, negative: cents < 0, text: format_cents(cents) }
    }
}

// ---------------------------------------------------------------------------
// Letter case
// ---------------------------------------------------------------------------

/// Whether every character is an ASCII one.
pub open spec fn all_ascii(s: Seq<char>) -> bool {
    forall|i: int| 0 <= i < s.len() ==> (#[trigger] s[i]) < '\u{80}'
}

/// An ASCII character in lower case.
pub open spec fn ascii_lower(c: char) -> char {
    if 'A' <= c <= 'Z' { (c as int + 32) as char } else { c }
}

/// An ASCII character in upper case.
pub open spec fn ascii_upper(c: char) -> char {
    if 'a' <= c <= 'z' { (c as int - 32) as char } else { c }
}

/// What `str::to_lowercase` makes of a text.
pub uninterp spec fn lower_case(s: Seq<char>) -> Seq<char>;

/// What `char::to_uppercase` makes of a character.
pub uninterp spec fn upper_case(c: char) -> Seq<char>;

/// `str::to_lowercase`, by the rules of Unicode. The result is a function of the
/// text; an ASCII text has its letters `A` to `Z` replaced and nothing else.
pub assume_specification[ str::to_lowercase ](s: &str) -> (r: String)
    ensures
        r@ == lower_case(s@),
        all_ascii(s@) ==> r@ == s@.map_values(|c: char| ascii_lower(c)),
;

/// `char::to_uppercase`, by the rules of Unicode, as a string: some characters
/// become several. The result is a function of the character; an ASCII one
/// becomes itself or its capital letter.
#[verifier::external_body]
fn upper(c: char) -> (r: String)
    ensures
        r@ == upper_case(c),
        c < '\u{80}' ==> r@ == seq![ascii_upper(c)],
{
    c.to_uppercase().to_string()
}

// ---------------------------------------------------------------------------
// Statuses
// ---------------------------------------------------------------------------

/// A text with one character replaced by another.
pub open spec fn replaced(s: Seq<char>, from: char, to: char) -> Seq<char> {
    s.map_values(|c: char| if c == from { to } else { c })
}

/// A status in lower case with underscores between its words.
pub open spec fn words_joined(lowered: Seq<char>) -> Seq<char> {
    replaced(replaced(lowered, '-', '_'), ' ', '_')
}

/// The tone of a normalised status.
pub open spec fn tone_of(normalized: Seq<char>) -> Seq<char> {
    if normalized == "paid"@ {
        "ok"@
    } else if normalized == "partially_paid"@ {
        "warn"@
    } else if normalized == "overdue"@ {
        "bad"@
    } else {
        "neutral"@
    }
}

/// A normalised status with spaces for its underscores, its first character
/// replaced by `initial`.
pub open spec fn label_of(normalized: Seq<char>, initial: Seq<char>) -> Seq<char> {
    initial + replaced(normalized, '_', ' ').skip(1)
}

/// Replaces one character by another.
fn replace_char(chars: &[char], from: char, to: char) -> (r: Vec<char>)
    ensures
        r@ == replaced(chars@, from, to),
{
    let mut r: Vec<char> = Vec::new();
    let mut i: usize = 0;
    while i < chars.len()
        invariant
            i <= chars@.len(),
            r@ == replaced(chars@.take(i as int), from, to),
        decreases chars@.len() - i,
    {
        r.push(if chars[i] == from { to } else { chars[i] });
        assert(r@ =~= replaced(chars@.take(i + 1), from, to));
        i = i + 1;
    }
    assert(chars@.take(chars@.len() as int) =~= chars@);
    r
}

/// Puts underscores between the words of a status that is in lower case already.
pub fn join_words(lowered: &str) -> (r: String)
    ensures
        r@ == words_joined(lowered@),
{
    let chars = text::chars_of(lowered);
    let dashes = replace_char(chars.as_slice(), '-', '_');
    text::string_of(replace_char(dashes.as_slice(), ' ', '_').as_slice())
}

/// The tone of a status that is normalised already.
pub fn normalized_tone(normalized: &str) -> (r: &'static str)
    ensures
        r@ == tone_of(normalized@),
{
    if text::same_text(normalized, "paid") {
        "ok"
    } else if text::same_text(normalized, "partially_paid") {
        "warn"
    } else if text::same_text(normalized, "overdue") {
        "bad"
    } else {
        "neutral"
    }
}

/// The label of a status that is normalised already and not empty, given what
/// becomes of its first character.
pub fn normalized_label(normalized: &str, initial: &str) -> (r: String)
    requires
        normalized@.len() > 0,
    ensures
        r@ == label_of(normalized@, initial@),
{
    let chars = text::chars_of(normalized);
    let spaced = replace_char(chars.as_slice(), '_', ' ');
    let mut r = initial.to_owned();
    assert(spaced@.skip(1) =~= spaced@.subrange(1, spaced@.len() as int));
    r.append(
        text::string_of(vstd::slice::slice_subrange(spaced.as_slice(), 1, spaced.len())).as_str(),
    );
    r
}

/// An ASCII status in lower case with underscores between its words.
pub open spec fn ascii_normalized(status: Seq<char>) -> Seq<char> {
    words_joined(text::trimmed(status).map_values(|c: char| ascii_lower(c)))
}

/// A status in lower case with underscores between its words, so that
/// `Partially Paid` and `partially-paid` are the same.
pub fn normalize_status(status: &str) -> (r: String)
    ensures
        r@ == words_joined(lower_case(text::trimmed(status@))),
        all_ascii(text::trimmed(status@)) ==> r@ == ascii_normalized(status@),
{
    let chars = text::chars_of(status);
    let shown = text::string_of(text::trim(chars.as_slice()));
    let lowered = shown.as_str().to_lowercase();
    join_words(lowered.as_str())
}

/// The tone in which a status is shown. An unknown one is neutral.
pub fn status_tone(status: &str) -> (r: &'static str)
    ensures
        r@ == tone_of(words_joined(lower_case(text::trimmed(status@)))),
        all_ascii(text::trimmed(status@)) ==> r@ == tone_of(ascii_normalized(status@)),
{
    let normalized = normalize_status(status);
    normalized_tone(normalized.as_str())
}

/// What a person reads for an ASCII status.
pub open spec fn ascii_label(status: Seq<char>) -> Seq<char> {
    let normalized = ascii_normalized(status);
    if normalized.len() == 0 {
        normalized
    } else {
        label_of(normalized, seq![ascii_upper(replaced(normalized, '_', ' ')[0])])
    }
}

/// Turns `partially_paid` into `Partially paid`.
pub fn humanize_status(status: &str) -> (r: String)
    ensures
        ({
            let normalized = words_joined(lower_case(text::trimmed(status@)));
            r@ == if normalized.len() == 0 {
                Seq::<char>::empty()
            } else {
                label_of(normalized, upper_case(replaced(normalized, '_', ' ')[0]))
            }
        }),
        all_ascii(text::trimmed(status@)) ==> r@ == ascii_label(status@),
{
    let normalized = normalize_status(status);
    let chars = text::chars_of(normalized.as_str());
    let spaced = replace_char(chars.as_slice(), '_', ' ');
    if spaced.len() == 0 {
        assert(normalized@ =~= Seq::<char>::empty());
        return String::new();
    }
    let initial = upper(spaced[0]);
    proof {
        if all_ascii(text::trimmed(status@)) {
            lemma_ascii_normalized(status@);
            assert(spaced@[0] < '\u{80}');
        }
    }
    normalized_label(normalized.as_str(), initial.as_str())
}

/// A normalised ASCII status is ASCII too.
proof fn lemma_ascii_normalized(status: Seq<char>)
    requires
        all_ascii(text::trimmed(status)),
    ensures
        all_ascii(ascii_normalized(status)),
        ascii_normalized(status).len() == text::trimmed(status).len(),
{
    assert forall|i: int| 0 <= i < ascii_normalized(status).len() implies (
    #[trigger] ascii_normalized(status)[i]) < '\u{80}' by {
        assert(text::trimmed(status)[i] < '\u{80}');
    }
}

/// The badge of a status: its tone and its label.
#[derive(Debug, Clone, PartialEq, Eq)]
pub struct StatusBadge {
    pub tone: &'static str,
    pub label: String,
}

impl StatusBadge {
    /// The badge for whatever a status is called.
    pub fn new(status: &str) -> (r: Self)
        ensures
            ({
                let normalized = words_joined(lower_case(text::trimmed(status@)));
                &&& r.tone@ == tone_of(normalized)
                &&& r.label@ == if normalized.len() == 0 {
                    Seq::<char>::empty()
                } else {
                    label_of(normalized, upper_case(replaced(normalized, '_', ' ')[0]))
                }
            }),
            all_ascii(text::trimmed(status@)) ==> r.tone@ == tone_of(ascii_normalized(status@))
                && r.label@ == ascii_label(status@),
    {
        StatusBadge { tone: status_tone(status), label: humanize_status(status) }
    }

    /// The badge of a derived status.
    pub fn of(status: OrderStatus) -> (r: Self)
        ensures
            r.tone@ == tone_of(status.name()),
            r.label@ == status.label_text(),
    {
        proof {
            law_labels_agree(status);
        }
        StatusBadge::new(status.as_str())
    }
}

// ---------------------------------------------------------------------------
// Laws
// ---------------------------------------------------------------------------

/// A name made of lower-case letters and underscores is normalised as it is.
proof fn lemma_name_is_normalized(name: Seq<char>)
    requires
        name.len() > 0,
        forall|i: int| 0 <= i < name.len() ==> 'a' <= #[trigger] name[i] <= 'z' || name[i] == '_',
    ensures
        text::trimmed(name) == name,
        all_ascii(name),
        ascii_normalized(name) == name,
{
    assert('a' <= name[0] <= 'z' || name[0] == '_');
    assert('a' <= name.last() <= 'z' || name.last() == '_');
    text::lemma_nothing_to_trim(name);
    assert(ascii_normalized(name) =~= name);
}

/// The label that a badge derives from a status name is the status's own label,
/// and the four statuses have the tones neutral, warn, ok and bad.
pub proof fn law_labels_agree(status: OrderStatus)
    ensures
        text::trimmed(status.name()) == status.name(),
        all_ascii(status.name()),
        ascii_normalized(status.name()) == status.name(),
        ascii_label(status.name()) == status.label_text(),
        tone_of(status.name()) == match status {
            OrderStatus::Pending => "neutral"@,
            OrderStatus::PartiallyPaid => "warn"@,
            OrderStatus::Paid => "ok"@,
            OrderStatus::Overdue => "bad"@,
        },
{
    reveal_strlit("pending");
    reveal_strlit("partially_paid");
    reveal_strlit("paid");
    reveal_strlit("overdue");
    reveal_strlit("Pending");
    reveal_strlit("Partially paid");
    reveal_strlit("Paid");
    reveal_strlit("Overdue");
    let name = status.name();
    lemma_name_is_normalized(name);
    assert(ascii_label(name) =~= status.label_text());
    assert("pending"@.len() == 7);
    assert("partially_paid"@.len() == 14);
    assert("paid"@.len() == 4);
    assert("overdue"@.len() == 7);
    assert("pending"@[0] == 'p');
    assert("overdue"@[0] == 'o');
}

/// Separators stand before every third digit, counted from the right, and nowhere
/// else, and never in front.
pub proof fn law_separators_stand_every_three_digits(digits: Seq<char>, i: int)
    requires
        text::all_digits(digits),
        0 <= i < grouped(digits).len(),
    ensures
        grouped(digits)[i] == ',' <==> (grouped(digits).len() - i) % 4 == 0,
        grouped(digits)[i] == ',' ==> i > 0,
        grouped(digits)[i] != ',' ==> text::is_digit(grouped(digits)[i]),
        digits.len() > 0 ==> grouped(digits).len() == digits.len() + (digits.len() - 1) / 3,
    decreases digits.len(),
{
    if digits.len() <= 3 {
        assert(text::is_digit(digits[i]));
    } else {
        let head = digits.take(digits.len() - 3);
        let tail = digits.skip(digits.len() - 3);
        assert forall|k: int| 0 <= k < head.len() implies text::is_digit(#[trigger] head[k]) by {
            assert(text::is_digit(digits[k]));
        }
        let front = grouped(head).len() as int;
        assert(front > 0) by {
            lemma_grouped_is_not_empty(head);
        }
        law_separators_stand_every_three_digits(head, if i < front { i } else { 0 });
        if i > front {
            assert(grouped(digits)[i] == digits[digits.len() - 3 + (i - front - 1)]);
            assert(text::is_digit(digits[digits.len() - 3 + (i - front - 1)]));
        }
    }
}

proof fn lemma_grouped_is_not_empty(digits: Seq<char>)
    requires
        digits.len() > 0,
    ensures
        grouped(digits).len() > 0,
{
}

/// A shown amount is a currency symbol, its dollars, a point and two digits of cents,
/// and the same with a minus sign in front for a negative one.
pub proof fn law_shape_of_a_shown_amount(cents: int)
    requires
        0 <= cents,
    ensures
        ({
            let shown = money_text(cents);
            let n = shown.len() as int;
            &&& n >= 5
            &&& shown[0] == '$'
            &&& shown[n - 3] == '.'
            &&& shown.subrange(1, n - 3) == grouped(text::decimal((cents / 100) as nat))
            &&& text::all_digits(shown.skip(n - 2))
            &&& text::digits_value(shown.skip(n - 2)) == cents % 100
        }),
        cents > 0 ==> money_text(-cents) == seq!['-'] + money_text(cents),
{
    let size = cents as nat;
    let whole = grouped(text::decimal(size / 100));
    let fraction = text::two_digits(size % 100);
    let shown = money_text(cents);
    let n = shown.len() as int;
    text::lemma_decimal(size / 100);
    lemma_grouped_is_not_empty(text::decimal(size / 100));
    assert(shown =~= seq!['$'] + whole + seq!['.'] + fraction);
    assert(shown.subrange(1, n - 3) =~= whole);
    assert(shown.skip(n - 2) =~= fraction);
    reveal_with_fuel(text::digits_value, 3);
    assert(fraction.drop_last() =~= seq![text::digit(size % 100 / 10)]);
    assert(fraction.drop_last().drop_last() =~= Seq::<char>::empty());
    if cents > 0 {
        assert(money_text(-cents) =~= seq!['-'] + money_text(cents));
    }
}

/// An amount is marked as negative exactly if it is, and the number beside the text
/// is the amount itself.
pub proof fn law_shown_amount_is_exact(shown: MoneyText, cents: int)
    requires
        shows_money(shown, cents),
    ensures
        shown.cents == cents,
        shown.negative <==> cents < 0,
        shown.negative <==> shown.text@[0] == '-',
        shown.text@ == money_text(cents),
{
    let size = if cents < 0 { (-cents) as nat } else { cents as nat };
    text::lemma_decimal(size / 100);
}

/// Between lower and upper case an ASCII letter keeps its place in the alphabet, and
/// nothing but letters has a case.
pub proof fn law_ascii_case(c: char)
    requires
        c as int <= 127,
    ensures
        65 <= c as int <= 90 ==> ascii_lower(c) as int == c as int + 32,
        97 <= c as int <= 122 ==> ascii_upper(c) as int == c as int - 32,
        !(65 <= c as int <= 90) ==> ascii_lower(c) == c,
        !(97 <= c as int <= 122) ==> ascii_upper(c) == c,
{
}

/// How a status is spelled does not matter: letters in either case are the same, and
/// so are a hyphen, a blank and an underscore between words.
pub proof fn law_spelling_of_a_status_does_not_matter(a: Seq<char>, b: Seq<char>)
    requires
        a.len() > 0,
        a.len() == b.len(),
        text::trimmed(a) == a,
        text::trimmed(b) == b,
        forall|i: int|
            0 <= i < a.len() ==> {
                ||| ascii_lower(#[trigger] a[i]) == ascii_lower(b[i])
                ||| (a[i] == '-' || a[i] == ' ' || a[i] == '_') && (b[i] == '-' || b[i] == ' '
                    || b[i] == '_')
            },
    ensures
        ascii_normalized(a) == ascii_normalized(b),
        tone_of(ascii_normalized(a)) == tone_of(ascii_normalized(b)),
        ascii_label(a) == ascii_label(b),
{
    let x = ascii_normalized(a);
    let y = ascii_normalized(b);
    assert forall|i: int| 0 <= i < a.len() implies x[i] == y[i] by {
        assert(ascii_lower(a[i]) == ascii_lower(b[i]) || (a[i] == '-' || a[i] == ' ' || a[i] == '_'));
    }
    assert(x =~= y);
}

/// Only the three statuses that call for it have a tone of their own.
pub proof fn law_other_statuses_are_neutral(normalized: Seq<char>)
    ensures
        tone_of(normalized) == "neutral"@ <==> normalized != "paid"@ && normalized
            != "partially_paid"@ && normalized != "overdue"@,
{
    reveal_strlit("neutral");
    reveal_strlit("ok");
    reveal_strlit("warn");
    reveal_strlit("bad");
    assert("neutral"@.len() == 7 && "ok"@.len() == 2 && "warn"@.len() == 4 && "bad"@.len() == 3);
}

} // verus!
