//! Text as sequences of characters: trimming, digits, and decimal numbers.

use vstd::prelude::*;

verus! {

broadcast use vstd::string::axiom_spec_iter;

/// Appends one character. `String::push` adds exactly the character it is
/// given to the end of the string and changes nothing before it.
pub assume_specification[ String::push ](s: &mut String, c: char)
    ensures
        final(s)@ == old(s)@.push(c),
;

// ---------------------------------------------------------------------------
// White space
// ---------------------------------------------------------------------------

/// The characters with the Unicode `White_Space` property.
pub open spec fn is_space(c: char) -> bool {
    ||| '\u{9}' <= c <= '\u{d}'
    ||| c == ' '
    ||| c == '\u{85}'
    ||| c == '\u{a0}'
    ||| c == '\u{1680}'
    ||| '\u{2000}' <= c <= '\u{200a}'
    ||| c == '\u{2028}'
    ||| c == '\u{2029}'
    ||| c == '\u{202f}'
    ||| c == '\u{205f}'
    ||| c == '\u{3000}'
}

/// Whether `c` is white space.
pub fn is_white_space(c: char) -> (r: bool)
    ensures
        r == is_space(c),
{
    ('\u{9}' <= c && c <= '\u{d}') || c == ' ' || c == '\u{85}' || c == '\u{a0}' || c == '\u{1680}'
        || ('\u{2000}' <= c && c <= '\u{200a}') || c == '\u{2028}' || c == '\u{2029}'
        || c == '\u{202f}' || c == '\u{205f}' || c == '\u{3000}'
}

/// `s` without its leading white space.
pub open spec fn trimmed_start(s: Seq<char>) -> Seq<char>
    decreases s.len(),
{
    if s.len() > 0 && is_space(s[0]) {
        trimmed_start(s.skip(1))
    } else {
        s
    }
}

/// `s` without its trailing white space.
pub open spec fn trimmed_end(s: Seq<char>) -> Seq<char>
    decreases s.len(),
{
    if s.len() > 0 && is_space(s.last()) {
        trimmed_end(s.drop_last())
    } else {
        s
    }
}

/// `s` without the white space at either end.
pub open spec fn trimmed(s: Seq<char>) -> Seq<char> {
    trimmed_end(trimmed_start(s))
}

// ---------------------------------------------------------------------------
// Characters and strings
// ---------------------------------------------------------------------------

/// The characters of a string.
pub fn chars_of(s: &str) -> (r: Vec<char>)
    ensures
        r@ == s@,
{
    let mut r: Vec<char> = Vec::new();
    for c in it: s.chars()
        invariant
            it.seq() == s@,
            r@ == s@.take(it.index() as int),
    {
        r.push(c);
        assert(s@.take(it.index() as int).push(c) =~= s@.take(it.index() + 1));
    }
    assert(s@.take(s@.len() as int) =~= s@);
    r
}

/// The string made of the given characters.
pub fn string_of(chars: &[char]) -> (r: String)
    ensures
        r@ == chars@,
{
    let mut r = String::new();
    let mut i: usize = 0;
    while i < chars.len()
        invariant
            i <= chars@.len(),
            r@ == chars@.take(i as int),
        decreases chars@.len() - i,
    {
        r.push(chars[i]);
        assert(chars@.take(i as int).push(chars@[i as int]) =~= chars@.take(i + 1));
        i = i + 1;
    }
    assert(chars@.take(chars@.len() as int) =~= chars@);
    r
}

/// Whether two strings hold the same characters.
pub fn same_text(a: &str, b: &str) -> (r: bool)
    ensures
        r == (a@ == b@),
{
    a.to_owned() == b.to_owned()
}

/// The given characters without the white space at either end.
pub fn trim(chars: &[char]) -> (r: &[char])
    ensures
        r@ == trimmed(chars@),
{
    let start = trim_start(chars);
    let mut end: usize = start.len();
    assert(start@.take(end as int) =~= start@);
    while end > 0 && is_white_space(start[end - 1])
        invariant
            end <= start@.len(),
            trimmed_end(start@.take(end as int)) == trimmed_end(start@),
        decreases end,
    {
        assert(start@.take(end as int).drop_last() =~= start@.take(end - 1));
        end = end - 1;
    }
    assert(start@.take(end as int) =~= start@.subrange(0, end as int));
    vstd::slice::slice_subrange(start, 0, end)
}

/// The given characters without their leading white space.
pub fn trim_start(chars: &[char]) -> (r: &[char])
    ensures
        r@ == trimmed_start(chars@),
{
    let mut start: usize = 0;
    assert(chars@.skip(0) =~= chars@);
    while start < chars.len() && is_white_space(chars[start])
        invariant
            start <= chars@.len(),
            trimmed_start(chars@.skip(start as int)) == trimmed_start(chars@),
        decreases chars@.len() - start,
    {
        assert(chars@.skip(start as int).skip(1) =~= chars@.skip(start + 1));
        start = start + 1;
    }
    assert(chars@.skip(start as int) =~= chars@.subrange(start as int, chars@.len() as int));
    vstd::slice::slice_subrange(chars, start, chars.len())
}

/// The text between the surrounding white space.
pub fn trimmed_string(raw: &str) -> (r: String)
    ensures
        r@ == trimmed(raw@),
{
    let chars = chars_of(raw);
    string_of(trim(chars.as_slice()))
}

// ---------------------------------------------------------------------------
// Searching and splitting
// ---------------------------------------------------------------------------

/// How many characters stand before the first `c`, or in all if there is none.
pub open spec fn first_at(s: Seq<char>, c: char) -> nat
    decreases s.len(),
{
    if s.len() == 0 || s[0] == c {
        0
    } else {
        1 + first_at(s.skip(1), c)
    }
}

/// The text before the first `c`, or all of it if there is none.
pub open spec fn before(s: Seq<char>, c: char) -> Seq<char> {
    s.take(first_at(s, c) as int)
}

/// The text after the first `c`, or nothing if there is none.
pub open spec fn after(s: Seq<char>, c: char) -> Seq<char> {
    if first_at(s, c) < s.len() {
        s.skip((first_at(s, c) + 1) as int)
    } else {
        Seq::empty()
    }
}

/// The text without any occurrence of `c`.
pub open spec fn without(s: Seq<char>, c: char) -> Seq<char> {
    s.filter(|x: char| x != c)
}

/// A position whose character is the first `c` is where `first_at` points.
pub proof fn lemma_first_at(s: Seq<char>, c: char, i: int)
    requires
        0 <= i <= s.len(),
        forall|j: int| 0 <= j < i ==> s[j] != c,
        i < s.len() ==> s[i] == c,
    ensures
        first_at(s, c) == i,
    decreases s.len(),
{
    if i > 0 {
        lemma_first_at(s.skip(1), c, i - 1);
    }
}

/// How many characters stand before the first `c`.
pub fn position(chars: &[char], c: char) -> (r: usize)
    ensures
        r == first_at(chars@, c),
        r <= chars@.len(),
{
    let mut i: usize = 0;
    while i < chars.len() && chars[i] != c
        invariant
            i <= chars@.len(),
            forall|j: int| 0 <= j < i ==> chars@[j] != c,
        decreases chars@.len() - i,
    {
        i = i + 1;
    }
    proof {
        lemma_first_at(chars@, c, i as int);
    }
    i
}

/// Splits at the first `c`, which belongs to neither part.
pub fn split_once(chars: &[char], c: char) -> (r: (&[char], &[char]))
    ensures
        r.0@ == before(chars@, c),
        r.1@ == after(chars@, c),
{
    let at: usize = position(chars, c);
    let head = vstd::slice::slice_subrange(chars, 0, at);
    assert(chars@.take(at as int) =~= chars@.subrange(0, at as int));
    if at < chars.len() {
        assert(chars@.skip(at + 1) =~= chars@.subrange(at + 1, chars@.len() as int));
        (head, vstd::slice::slice_subrange(chars, at + 1, chars.len()))
    } else {
        assert(chars@.subrange(at as int, at as int) =~= Seq::empty());
        (head, vstd::slice::slice_subrange(chars, at, at))
    }
}

/// The characters other than `c`, in order.
pub fn remove_all(chars: &[char], c: char) -> (r: Vec<char>)
    ensures
        r@ == without(chars@, c),
{
    let mut r: Vec<char> = Vec::new();
    let mut i: usize = 0;
    proof {
        reveal(Seq::filter);
    }
    while i < chars.len()
        invariant
            i <= chars@.len(),
            r@ == without(chars@.take(i as int), c),
        decreases chars@.len() - i,
    {
        proof {
            reveal(Seq::filter);
            assert(chars@.take(i + 1).drop_last() =~= chars@.take(i as int));
        }
        if chars[i] != c {
            r.push(chars[i]);
        }
        i = i + 1;
    }
    assert(chars@.take(chars@.len() as int) =~= chars@);
    r
}

// ---------------------------------------------------------------------------
// Decimal numbers
// ---------------------------------------------------------------------------

/// Whether `c` is one of `0` to `9`.
pub open spec fn is_digit(c: char) -> bool {
    '0' <= c <= '9'
}

/// Whether every character is a digit.
pub open spec fn all_digits(s: Seq<char>) -> bool {
    forall|i: int| 0 <= i < s.len() ==> is_digit(#[trigger] s[i])
}

/// The number that a digit stands for.
pub open spec fn digit_value(c: char) -> nat {
    (c as int - '0' as int) as nat
}

/// The number that a row of digits stands for; nothing stands for zero.
pub open spec fn digits_value(s: Seq<char>) -> nat
    decreases s.len(),
{
    if s.len() == 0 {
        0
    } else {
        digits_value(s.drop_last()) * 10 + digit_value(s.last())
    }
}

/// The digit for a number below ten.
pub open spec fn digit(n: nat) -> char {
    ('0' as int + n) as char
}

/// A number in decimal, without leading zeros.
pub open spec fn decimal(n: nat) -> Seq<char>
    decreases n,
{
    if n < 10 {
        seq![digit(n)]
    } else {
        decimal(n / 10).push(digit(n % 10))
    }
}

/// An integer in decimal, with a minus sign in front of a negative one.
pub open spec fn signed_decimal(n: int) -> Seq<char> {
    if n < 0 {
        seq!['-'] + decimal((-n) as nat)
    } else {
        decimal(n as nat)
    }
}

/// A number below one hundred, as two digits.
pub open spec fn two_digits(n: nat) -> Seq<char> {
    seq![digit(n / 10), digit(n % 10)]
}

/// Decimal text is a row of digits, and reads back as the number it came from.
pub proof fn lemma_decimal(n: nat)
    ensures
        decimal(n).len() > 0,
        all_digits(decimal(n)),
        digits_value(decimal(n)) == n,
    decreases n,
{
    reveal_with_fuel(digits_value, 2);
    if n >= 10 {
        lemma_decimal(n / 10);
        assert(decimal(n).drop_last() =~= decimal(n / 10));
    }
}

/// The digits read so far never exceed what the whole row stands for.
proof fn lemma_digits_value_grows(s: Seq<char>, i: int)
    requires
        0 <= i <= s.len(),
    ensures
        digits_value(s.take(i)) <= digits_value(s),
    decreases s.len() - i,
{
    if i < s.len() {
        lemma_digits_value_grows(s, i + 1);
        assert(s.take(i + 1).drop_last() =~= s.take(i));
    } else {
        assert(s.take(i) =~= s);
    }
}

/// Whether every character is a digit.
pub fn only_digits(chars: &[char]) -> (r: bool)
    ensures
        r == all_digits(chars@),
{
    let mut i: usize = 0;
    while i < chars.len()
        invariant
            i <= chars@.len(),
            forall|j: int| 0 <= j < i ==> is_digit(#[trigger] chars@[j]),
        decreases chars@.len() - i,
    {
        if !('0' <= chars[i] && chars[i] <= '9') {
            assert(!is_digit(chars@[i as int]));
            return false;
        }
        i = i + 1;
    }
    true
}

/// Reads a row of digits, unless the number is more than an `i64` can hold.
pub fn read_digits(chars: &[char]) -> (r: Option<i64>)
    requires
        all_digits(chars@),
    ensures
        match r {
            Some(n) => n == digits_value(chars@),
            None => digits_value(chars@) > i64::MAX,
        },
{
    let mut n: i64 = 0;
    let mut i: usize = 0;
    while i < chars.len()
        invariant
            i <= chars@.len(),
            all_digits(chars@),
            0 <= n,
            n == digits_value(chars@.take(i as int)),
        decreases chars@.len() - i,
    {
        assert(is_digit(chars@[i as int]));
        let d: i64 = (chars[i] as u32 - '0' as u32) as i64;
        proof {
            lemma_digits_value_grows(chars@, i + 1);
            assert(chars@.take(i + 1).drop_last() =~= chars@.take(i as int));
        }
        if n > (i64::MAX - d) / 10 {
            return None;
        }
        n = n * 10 + d;
        i = i + 1;
    }
    assert(chars@.take(chars@.len() as int) =~= chars@);
    Some(n)
}

/// The digit for a number below ten.
pub fn digit_char(n: u64) -> (r: char)
    requires
        n < 10,
    ensures
        r == digit(n as nat),
{
    (48u8 + n as u8) as char
}

/// A number in decimal.
pub fn decimal_text(n: u64) -> (r: String)
    ensures
        r@ == decimal(n as nat),
    decreases n,
{
    if n < 10 {
        let mut r = String::new();
        r.push(digit_char(n));
        assert(Seq::empty().push(digit(n as nat)) =~= seq![digit(n as nat)]);
        r
    } else {
        let mut r = decimal_text(n / 10);
        r.push(digit_char(n % 10));
        r
    }
}

/// How far a number is from zero.
pub fn magnitude(n: i64) -> (r: u64)
    ensures
        r == (if n < 0 { -n } else { n as int }),
{
    if n < 0 {
        (-(n as i128)) as u64
    } else {
        n as u64
    }
}

/// An integer in decimal.
pub fn signed_decimal_text(n: i64) -> (r: String)
    ensures
        r@ == signed_decimal(n as int),
{
    let digits = decimal_text(magnitude(n));
    if n < 0 {
        let mut r = String::new();
        r.push('-');
        r.append(digits.as_str());
        assert(r@ =~= signed_decimal(n as int));
        r
    } else {
        digits
    }
}

/// A number below one hundred, as two digits.
pub fn two_digits_text(n: u64) -> (r: String)
    requires
        n < 100,
    ensures
        r@ == two_digits(n as nat),
{
    let mut r = String::new();
    r.push(digit_char(n / 10));
    r.push(digit_char(n % 10));
    assert(r@ =~= two_digits(n as nat));
    r
}

// ---------------------------------------------------------------------------
// Facts about trimming, removing and splitting
// ---------------------------------------------------------------------------

/// Text that neither begins nor ends with white space is left as it is.
pub proof fn lemma_nothing_to_trim(s: Seq<char>)
    requires
        s.len() > 0,
        !is_space(s[0]),
        !is_space(s.last()),
    ensures
        trimmed_start(s) == s,
        trimmed(s) == s,
{
}

/// Trimming leaves nothing to trim.
pub proof fn lemma_trimmed_ends(s: Seq<char>)
    ensures
        trimmed(s).len() > 0 ==> !is_space(trimmed(s)[0]) && !is_space(trimmed(s).last()),
{
    lemma_trimmed_start_front(s);
    lemma_trimmed_end_back(trimmed_start(s));
}

proof fn lemma_trimmed_start_front(s: Seq<char>)
    ensures
        trimmed_start(s).len() > 0 ==> !is_space(trimmed_start(s)[0]),
    decreases s.len(),
{
    if s.len() > 0 && is_space(s[0]) {
        lemma_trimmed_start_front(s.skip(1));
    }
}

proof fn lemma_trimmed_end_back(s: Seq<char>)
    ensures
        trimmed_end(s).len() <= s.len(),
        trimmed_end(s) == s.take(trimmed_end(s).len() as int),
        trimmed_end(s).len() > 0 ==> !is_space(trimmed_end(s).last()) && trimmed_end(s)[0] == s[0],
    decreases s.len(),
{
    if s.len() > 0 && is_space(s.last()) {
        lemma_trimmed_end_back(s.drop_last());
        assert(trimmed_end(s) =~= s.take(trimmed_end(s).len() as int));
    } else {
        assert(s =~= s.take(s.len() as int));
    }
}

/// Trimming twice is trimming once.
pub proof fn lemma_trimmed_twice(s: Seq<char>)
    ensures
        trimmed(trimmed(s)) == trimmed(s),
{
    lemma_trimmed_ends(s);
    if trimmed(s).len() > 0 {
        lemma_nothing_to_trim(trimmed(s));
    }
}

/// Removing a character from two texts side by side.
pub proof fn lemma_without_concat(a: Seq<char>, b: Seq<char>, c: char)
    ensures
        without(a + b, c) == without(a, c) + without(b, c),
    decreases b.len(),
{
    reveal(Seq::filter);
    if b.len() == 0 {
        assert(a + b =~= a);
        assert(without(a, c) + without(b, c) =~= without(a, c));
    } else {
        lemma_without_concat(a, b.drop_last(), c);
        assert((a + b).drop_last() =~= a + b.drop_last());
        assert((a + b).last() == b.last());
        assert(without(a + b, c) =~= without(a, c) + without(b, c));
    }
}

/// Removing a character that does not occur changes nothing.
pub proof fn lemma_without_absent(s: Seq<char>, c: char)
    requires
        forall|i: int| 0 <= i < s.len() ==> s[i] != c,
    ensures
        without(s, c) == s,
    decreases s.len(),
{
    reveal(Seq::filter);
    if s.len() > 0 {
        lemma_without_absent(s.drop_last(), c);
        assert(s.drop_last().push(s.last()) =~= s);
    }
}

/// Removing the only character of a text leaves nothing.
pub proof fn lemma_without_only(c: char)
    ensures
        without(seq![c], c) == Seq::<char>::empty(),
{
    reveal(Seq::filter);
    lemma_without_absent(Seq::empty(), c);
    assert(seq![c].drop_last() =~= Seq::<char>::empty());
}

/// Splitting two texts with a separator between them, where the first holds no
/// other.
pub proof fn lemma_split_at(a: Seq<char>, c: char, b: Seq<char>)
    requires
        forall|i: int| 0 <= i < a.len() ==> a[i] != c,
    ensures
        before(a + seq![c] + b, c) == a,
        after(a + seq![c] + b, c) == b,
{
    let s = a + seq![c] + b;
    lemma_first_at(s, c, a.len() as int);
    assert(s.take(a.len() as int) =~= a);
    assert(s.skip((a.len() + 1) as int) =~= b);
}

// ---------------------------------------------------------------------------
// Laws
// ---------------------------------------------------------------------------

/// Whether every character is white space.
pub open spec fn all_space(s: Seq<char>) -> bool {
    forall|i: int| 0 <= i < s.len() ==> is_space(#[trigger] s[i])
}

/// Among the ASCII characters, white space is the blank, the tab and the four line
/// and page breaks. No digit, letter, sign or separator is white space.
pub proof fn law_ascii_white_space(c: char)
    requires
        c as int <= 127,
    ensures
        is_space(c) <==> c as int == 32 || 9 <= c as int <= 13,
{
}

/// White space in front goes, whatever follows.
pub proof fn lemma_leading_space(a: Seq<char>, s: Seq<char>)
    requires
        all_space(a),
    ensures
        trimmed_start(a + s) == trimmed_start(s),
    decreases a.len(),
{
    if a.len() == 0 {
        assert(a + s =~= s);
    } else {
        assert(is_space(a[0]));
        assert(all_space(a.skip(1))) by {
            assert forall|i: int| 0 <= i < a.skip(1).len() implies is_space(
                #[trigger] a.skip(1)[i],
            ) by {
                assert(a.skip(1)[i] == a[i + 1]);
            }
        }
        lemma_leading_space(a.skip(1), s);
        assert((a + s).skip(1) =~= a.skip(1) + s);
    }
}

/// White space at the end goes, whatever stands before it.
pub proof fn lemma_trailing_space(s: Seq<char>, b: Seq<char>)
    requires
        all_space(b),
    ensures
        trimmed_end(s + b) == trimmed_end(s),
    decreases b.len(),
{
    if b.len() == 0 {
        assert(s + b =~= s);
    } else {
        assert(is_space(b[b.len() - 1]));
        assert(all_space(b.drop_last())) by {
            assert forall|i: int| 0 <= i < b.drop_last().len() implies is_space(
                #[trigger] b.drop_last()[i],
            ) by {
                assert(b.drop_last()[i] == b[i]);
            }
        }
        lemma_trailing_space(s, b.drop_last());
        assert((s + b).drop_last() =~= s + b.drop_last());
    }
}

/// White space around a text is all that trimming takes away from it.
pub proof fn law_trimming_undoes_padding(a: Seq<char>, s: Seq<char>, b: Seq<char>)
    requires
        all_space(a),
        all_space(b),
        s.len() > 0,
        !is_space(s[0]),
        !is_space(s.last()),
    ensures
        trimmed(a + s + b) == s,
        trimmed_start(a + s) == s,
        trimmed(a + b) == Seq::<char>::empty(),
{
    assert(a + s + b =~= a + (s + b));
    lemma_leading_space(a, s + b);
    assert((s + b)[0] == s[0]);
    lemma_trailing_space(s, b);
    lemma_leading_space(a, s);
    lemma_leading_space(a, b);
    lemma_leading_space(b, Seq::empty());
    assert(b + Seq::<char>::empty() =~= b);
}

/// Splitting at a character loses nothing but its first occurrence, and the part
/// before it holds none.
pub proof fn law_splitting_loses_only_the_separator(s: Seq<char>, c: char)
    ensures
        !before(s, c).contains(c),
        s.contains(c) ==> s == before(s, c) + seq![c] + after(s, c),
        !s.contains(c) ==> before(s, c) == s && after(s, c) == Seq::<char>::empty(),
{
    lemma_first_at_is_first(s, c);
    let k = first_at(s, c) as int;
    if k < s.len() {
        assert(s[k] == c);
        assert(s.contains(c));
        assert(s =~= before(s, c) + seq![c] + after(s, c));
    } else {
        assert(before(s, c) =~= s);
    }
}

proof fn lemma_first_at_is_first(s: Seq<char>, c: char)
    ensures
        first_at(s, c) <= s.len(),
        first_at(s, c) < s.len() ==> s[first_at(s, c) as int] == c,
        forall|j: int| 0 <= j < first_at(s, c) ==> s[j] != c,
    decreases s.len(),
{
    if s.len() > 0 && s[0] != c {
        lemma_first_at_is_first(s.skip(1), c);
        assert forall|j: int| 0 <= j < first_at(s, c) implies s[j] != c by {
            if j > 0 {
                assert(s.skip(1)[j - 1] != c);
            }
        }
    }
}

/// The digits are the ten characters from `0` to `9`, and stand for the numbers
/// from zero to nine.
pub proof fn law_ten_digits(c: char, n: nat)
    requires
        n < 10,
    ensures
        is_digit(c) <==> "0123456789"@.contains(c),
        digit(n) == "0123456789"@[n as int],
        digit_value(digit(n)) == n,
        digits_value(seq![digit(n)]) == n,
{
    reveal_strlit("0123456789");
    let all = "0123456789"@;
    assert(all.len() == 10);
    assert(forall|k: int| 0 <= k < 10 ==> #[trigger] all[k] == (48 + k) as char);
    if is_digit(c) {
        assert(all[c as int - 48] == c);
    }
    reveal_with_fuel(digits_value, 2);
    assert(seq![digit(n)].drop_last() =~= Seq::<char>::empty());
}

/// A row of digits is read from left to right, each place worth ten times the one
/// after it.
pub proof fn law_places_are_worth_tens(a: Seq<char>, b: Seq<char>)
    ensures
        digits_value(a + b) == digits_value(a) * vstd::arithmetic::power::pow(10, b.len())
            + digits_value(b),
    decreases b.len(),
{
    vstd::arithmetic::power::lemma_pow0(10);
    if b.len() == 0 {
        assert(a + b =~= a);
        assert(digits_value(a) * 1 == digits_value(a));
    } else {
        let front = b.drop_last();
        law_places_are_worth_tens(a, front);
        assert((a + b).drop_last() =~= a + front);
        assert((a + b).last() == b.last());
        let p = vstd::arithmetic::power::pow(10, front.len());
        reveal(vstd::arithmetic::power::pow);
        assert(vstd::arithmetic::power::pow(10, b.len()) == 10 * p);
        let x = digits_value(a) as int;
        assert(x * p * 10 == x * (10 * p)) by (nonlinear_arith);
    }
}

/// A number in decimal is a row of digits that stands for it, without a needless
/// zero in front, and the only such row.
pub proof fn law_decimal_is_the_shortest_row(n: nat, row: Seq<char>)
    ensures
        all_digits(decimal(n)),
        digits_value(decimal(n)) == n,
        decimal(n).len() > 1 ==> decimal(n)[0] != '0',
        all_digits(row) && row.len() > 0 && (row.len() > 1 ==> row[0] != '0') && digits_value(row)
            == n ==> row == decimal(n),
    decreases n,
{
    lemma_decimal(n);
    lemma_no_leading_zero(n);
    if all_digits(row) && row.len() > 0 && (row.len() > 1 ==> row[0] != '0') && digits_value(row)
        == n {
        lemma_only_row(n, row);
    }
}

proof fn lemma_no_leading_zero(n: nat)
    ensures
        n > 0 ==> decimal(n)[0] != '0',
        n == 0 ==> decimal(n).len() == 1,
    decreases n,
{
    if n >= 10 {
        lemma_no_leading_zero(n / 10);
        lemma_decimal(n / 10);
        assert(decimal(n)[0] == decimal(n / 10)[0]);
    }
}

proof fn lemma_only_row(n: nat, row: Seq<char>)
    requires
        all_digits(row),
        row.len() > 0,
        row.len() > 1 ==> row[0] != '0',
        digits_value(row) == n,
    ensures
        row == decimal(n),
    decreases row.len(),
{
    let front = row.drop_last();
    let d = digit_value(row.last());
    assert(is_digit(row[row.len() - 1]));
    assert(all_digits(front)) by {
        assert forall|i: int| 0 <= i < front.len() implies is_digit(#[trigger] front[i]) by {
            assert(is_digit(row[i]));
        }
    }
    assert(digit(d) == row.last());
    if row.len() == 1 {
        reveal_with_fuel(digits_value, 2);
        assert(front =~= Seq::<char>::empty());
        assert(row =~= decimal(n));
    } else {
        lemma_only_row(digits_value(front), front);
        assert(is_digit(row[0]));
        lemma_positive(front);
        assert(n / 10 == digits_value(front) && n % 10 == d);
        assert(row =~= decimal(n));
    }
}

/// A row that does not begin with zero stands for something.
proof fn lemma_positive(row: Seq<char>)
    requires
        all_digits(row),
        row.len() > 0,
        row[0] != '0',
    ensures
        digits_value(row) > 0,
    decreases row.len(),
{
    assert(is_digit(row[0]));
    if row.len() > 1 {
        assert(all_digits(row.drop_last())) by {
            assert forall|i: int| 0 <= i < row.drop_last().len() implies is_digit(
                #[trigger] row.drop_last()[i],
            ) by {
                assert(is_digit(row[i]));
            }
        }
        lemma_positive(row.drop_last());
    }
}

/// A negative number is its size with a minus sign in front.
pub proof fn law_minus_sign_means_negative(n: int)
    requires
        n > 0,
    ensures
        signed_decimal(n)[0] != '-',
        signed_decimal(-n) == seq!['-'] + signed_decimal(n),
{
    lemma_decimal(n as nat);
    assert(is_digit(decimal(n as nat)[0]));
}

/// Text with something else than white space in it is not trimmed to nothing.
pub proof fn lemma_something_is_left(s: Seq<char>, i: int)
    requires
        0 <= i < s.len(),
        !is_space(s[i]),
    ensures
        trimmed_end(s).len() > i,
        trimmed(s).len() > 0,
    decreases s.len(),
{
    lemma_end_keeps(s, i);
    lemma_start_keeps(s, i);
    let k = choose|k: int| 0 <= k < trimmed_start(s).len() && trimmed_start(s)[k] == s[i];
    lemma_end_keeps(trimmed_start(s), k);
}

proof fn lemma_end_keeps(s: Seq<char>, i: int)
    requires
        0 <= i < s.len(),
        !is_space(s[i]),
    ensures
        trimmed_end(s).len() > i,
    decreases s.len(),
{
    if is_space(s.last()) {
        assert(i < s.len() - 1);
        lemma_end_keeps(s.drop_last(), i);
    }
}

proof fn lemma_start_keeps(s: Seq<char>, i: int)
    requires
        0 <= i < s.len(),
        !is_space(s[i]),
    ensures
        trimmed_start(s).contains(s[i]),
    decreases s.len(),
{
    if is_space(s[0]) {
        lemma_start_keeps(s.skip(1), i - 1);
        assert(s.skip(1)[i - 1] == s[i]);
    } else {
        assert(trimmed_start(s)[i] == s[i]);
    }
}

} // verus!
