//! Identifiers of orders and payments: 128-bit numbers with a text form.

use vstd::prelude::*;

use crate::error::{AppError, AppErrorView, AppResult, FieldError, FieldErrorView};

verus! {

/// The lower-case hexadecimal digit for a number below sixteen.
pub open spec fn hex_digit(n: nat) -> char {
    if n < 10 {
        ('0' as int + n) as char
    } else {
        ('a' as int + n - 10) as char
    }
}

/// The last `width` hexadecimal digits of a number.
pub open spec fn hex_digits(n: nat, width: nat) -> Seq<char>
    decreases width,
{
    if width == 0 {
        Seq::empty()
    } else {
        hex_digits(n / 16, (width - 1) as nat).push(hex_digit(n % 16))
    }
}

/// An identifier as thirty-two hexadecimal digits in groups of 8, 4, 4, 4 and 12.
pub open spec fn id_text(id: u128) -> Seq<char> {
    let h = hex_digits(id as nat, 32);
    h.subrange(0, 8) + seq!['-'] + h.subrange(8, 12) + seq!['-'] + h.subrange(12, 16) + seq!['-']
        + h.subrange(16, 20) + seq!['-'] + h.subrange(20, 32)
}

/// Whether an identifier is a version 7 one: its version digit and its variant
/// bits say so.
pub open spec fn is_version_7(id: u128) -> bool {
    (id as nat / 0x1000_0000_0000_0000_0000) % 16 == 7 && (id as nat / 0x4000_0000_0000_0000) % 4
        == 2
}

/// What `Uuid::parse_str` makes of a text.
pub uninterp spec fn parsed_id(text: Seq<char>) -> Option<u128>;

/// `uuid::Uuid::parse_str`, as a number.
///
/// The result is a function of the text. The hyphenated form of an identifier
/// reads back as that identifier, and only a text of 32, 36, 38 or 45 characters
/// is read at all. Which other texts of those lengths are read is left to the
/// name.
#[verifier::external_body]
fn read_id(text: &str) -> (r: Option<u128>)
    ensures
        r == parsed_id(text@),
        forall|id: u128| text@ == #[trigger] id_text(id) ==> r == Some(id),
        r is Some ==> text@.len() == 32 || text@.len() == 36 || text@.len() == 38 || text@.len()
            == 45,
{
    uuid::Uuid::parse_str(text).ok().map(|id| id.as_u128())
}

/// The `Display` text of a `uuid::Uuid`: lower-case and hyphenated.
#[verifier::external_body]
fn show_id(id: u128) -> (r: String)
    ensures
        r@ == id_text(id),
{
    uuid::Uuid::from_u128(id).to_string()
}

/// `uuid::Uuid::now_v7`: a version 7 identifier. The clock and the generator of
/// random numbers decide which. `uuid` panics on a machine whose clock stands
/// before 1970, or that has no random numbers to give.
#[verifier::external_body]
fn fresh_id() -> (r: u128)
    ensures
        is_version_7(r),
{
    uuid::Uuid::now_v7().as_u128()
}

/// The identifier that a text stands for, if any.
pub fn find_id(raw: &str) -> (r: Option<u128>)
    ensures
        r == parsed_id(raw@),
        forall|id: u128| raw@ == #[trigger] id_text(id) ==> r == Some(id),
        r is Some ==> raw@.len() == 32 || raw@.len() == 36 || raw@.len() == 38 || raw@.len() == 45,
{
    read_id(raw)
}

/// An identifier as text.
pub fn id_to_string(id: u128) -> (r: String)
    ensures
        r@ == id_text(id),
{
    show_id(id)
}

/// A new identifier. Version 7 ones sort by the time at which they were made.
pub fn new_id() -> (r: u128)
    ensures
        is_version_7(r),
{
    fresh_id()
}

/// The answer to a request whose path names no identifier.
pub open spec fn bad_id() -> AppErrorView {
    AppErrorView::ValidationFailed(
        seq![FieldErrorView { field: "id"@, message: "That is not a valid order id."@ }],
    )
}

/// Takes the identifier that was read from a path, or says which field was
/// wrong.
pub fn require_id(found: Option<u128>) -> (r: AppResult<u128>)
    ensures
        match found {
            Some(id) => r == Ok::<u128, AppError>(id),
            None => r matches Err(error) && error@ == bad_id(),
        },
{
    match found {
        Some(id) => Ok(id),
        None => {
            let mut errors: Vec<FieldError> = Vec::new();
            errors.push(FieldError::new("id", "That is not a valid order id."));
            let error = AppError::ValidationFailed(errors);
            assert(error@->ValidationFailed_0 =~= bad_id()->ValidationFailed_0);
            Err(error)
        },
    }
}

/// Reads the identifier in a path, or says which field was wrong.
///
/// A malformed identifier is the caller's own visible mistake, so naming it
/// tells them nothing about whose orders exist.
pub fn parse_id(raw: &str) -> (r: AppResult<u128>)
    ensures
        match parsed_id(raw@) {
            Some(id) => r == Ok::<u128, AppError>(id),
            None => r matches Err(error) && error@ == bad_id(),
        },
        forall|id: u128| raw@ == #[trigger] id_text(id) ==> r == Ok::<u128, AppError>(id),
{
    require_id(find_id(raw))
}

// ---------------------------------------------------------------------------
// Laws
// ---------------------------------------------------------------------------

/// The text of an identifier is thirty-six characters long, with hyphens at four
/// fixed places.
pub proof fn law_shape_of_an_identifier(id: u128)
    ensures
        id_text(id).len() == 36,
        id_text(id)[8] == '-',
        id_text(id)[13] == '-',
        id_text(id)[18] == '-',
        id_text(id)[23] == '-',
{
    lemma_width(id as nat, 32);
}

proof fn lemma_width(n: nat, width: nat)
    ensures
        hex_digits(n, width).len() == width,
    decreases width,
{
    if width > 0 {
        lemma_width(n / 16, (width - 1) as nat);
    }
}

} // verus!
