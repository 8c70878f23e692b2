//! Header values, and the parts of a request and a response that decisions are
//! taken from.

use vstd::prelude::*;

verus! {

/// A byte that may stand in a header value that is read as text.
pub open spec fn is_visible(b: u8) -> bool {
    32 <= b < 127 || b == 9
}

/// A character that may stand in a header value that is written from text.
pub open spec fn is_header_char(c: char) -> bool {
    ' ' <= c && c != '\u{7f}' || c == '\t'
}

/// The text of a header value, if all of it is visible ASCII.
pub open spec fn readable(bytes: Seq<u8>) -> Option<Seq<char>> {
    if forall|i: int| 0 <= i < bytes.len() ==> is_visible(#[trigger] bytes[i]) {
        Some(bytes.map_values(|b: u8| b as char))
    } else {
        None
    }
}

/// Whether a text can stand in a header.
pub open spec fn encodable(s: Seq<char>) -> bool {
    forall|i: int| 0 <= i < s.len() ==> is_header_char(#[trigger] s[i])
}

/// `http::HeaderValue::to_str` on the value that `HeaderValue::from_bytes` makes of
/// the given bytes: the text if every byte is visible ASCII or a tab, and nothing
/// otherwise.
#[verifier::external_body]
pub(crate) fn header_text(bytes: &[u8]) -> (r: Option<String>)
    ensures
        match r {
            Some(shown) => readable(bytes@) == Some(shown@),
            None => readable(bytes@) is None,
        },
{
    let value = axum::http::HeaderValue::from_bytes(bytes).ok()?;
    value.to_str().ok().map(|shown| shown.to_owned())
}

/// `http::HeaderValue::from_str`, which accepts a text unless it holds a control
/// character other than a tab.
#[verifier::external_body]
pub(crate) fn is_header_value(text: &str) -> (r: bool)
    ensures
        r == encodable(text@),
{
    axum::http::HeaderValue::from_str(text).is_ok()
}

/// The headers of a request that decisions are taken from, as raw bytes, and the
/// authority of its address.
#[derive(Debug, Clone, PartialEq, Eq)]
pub struct RequestHead {
    pub host: Option<Vec<u8>>,
    pub authority: Option<String>,
    pub origin: Option<Vec<u8>>,
    pub forwarded_proto: Option<Vec<u8>>,
    pub cookie: Option<Vec<u8>>,
}

/// What a [`RequestHead`] holds.
pub struct RequestHeadView {
    pub host: Option<Seq<u8>>,
    pub authority: Option<Seq<char>>,
    pub origin: Option<Seq<u8>>,
    pub forwarded_proto: Option<Seq<u8>>,
    pub cookie: Option<Seq<u8>>,
}

/// The bytes of a header, if it is there.
pub open spec fn header_bytes(header: Option<Vec<u8>>) -> Option<Seq<u8>> {
    match header {
        Some(bytes) => Some(bytes@),
        None => None,
    }
}

impl View for RequestHead {
    type V = RequestHeadView;

    open spec fn view(&self) -> RequestHeadView {
        RequestHeadView {
            host: header_bytes(self.host),
            authority: match self.authority {
                Some(authority) => Some(authority@),
                None => None,
            },
            origin: header_bytes(self.origin),
            forwarded_proto: header_bytes(self.forwarded_proto),
            cookie: header_bytes(self.cookie),
        }
    }
}

impl Default for RequestHead {
    /// A request without any of the headers.
    fn default() -> (r: Self)
        ensures
            r@ == (RequestHeadView {
                host: None,
                authority: None,
                origin: None,
                forwarded_proto: None,
                cookie: None,
            }),
    {
        RequestHead {
            host: None,
            authority: None,
            origin: None,
            forwarded_proto: None,
            cookie: None,
        }
    }
}

/// The text of a header, if it is there and can be read.
pub open spec fn header_value(header: Option<Seq<u8>>) -> Option<Seq<char>> {
    match header {
        Some(bytes) => readable(bytes),
        None => None,
    }
}

/// The text of a header, if it is there and can be read.
pub fn read_header(header: &Option<Vec<u8>>) -> (r: Option<String>)
    ensures
        match r {
            Some(shown) => header_value(header_bytes(*header)) == Some(shown@),
            None => header_value(header_bytes(*header)) is None,
        },
{
    match header {
        Some(bytes) => header_text(bytes.as_slice()),
        None => None,
    }
}

/// The texts of a list of strings.
pub open spec fn texts(strings: Seq<String>) -> Seq<Seq<char>> {
    strings.map_values(|s: String| s@)
}

/// The texts among raw header values, in order.
pub open spec fn readable_values(values: Seq<Seq<u8>>) -> Seq<Seq<char>>
    decreases values.len(),
{
    if values.len() == 0 {
        Seq::empty()
    } else {
        match readable(values.last()) {
            Some(shown) => readable_values(values.drop_last()).push(shown),
            None => readable_values(values.drop_last()),
        }
    }
}

/// Reads every value of a header that can be read.
pub fn read_headers(values: &[Vec<u8>]) -> (r: Vec<String>)
    ensures
        texts(r@) == readable_values(values@.map_values(|value: Vec<u8>| value@)),
{
    let ghost raw = values@.map_values(|value: Vec<u8>| value@);
    let mut shown: Vec<String> = Vec::new();
    let mut i: usize = 0;
    assert(texts(shown@) =~= Seq::<Seq<char>>::empty());
    while i < values.len()
        invariant
            i <= values@.len(),
            raw == values@.map_values(|value: Vec<u8>| value@),
            texts(shown@) == readable_values(raw.take(i as int)),
        decreases values@.len() - i,
    {
        let ghost before = shown@;
        assert(raw.take(i + 1).drop_last() =~= raw.take(i as int));
        if let Some(value) = header_text(values[i].as_slice()) {
            shown.push(value);
            assert(texts(shown@) =~= texts(before).push(value@));
        }
        i = i + 1;
    }
    assert(raw.take(raw.len() as int) =~= raw);
    shown
}

/// Keeps the texts that can stand in a header, each as it is and in order.
pub fn encodable_values(values: Vec<String>) -> (r: Vec<String>)
    ensures
        texts(r@) == texts(values@).filter(|value: Seq<char>| encodable(value)),
        r@.len() <= values@.len(),
{
    let ghost all = values@;
    let mut kept: Vec<String> = Vec::new();
    proof {
        reveal(Seq::filter);
    }
    assert(texts(kept@) =~= Seq::<Seq<char>>::empty());
    for value in it: values
        invariant
            it.seq() == all,
            kept@.len() <= it.index(),
            texts(kept@) == texts(all).take(it.index() as int).filter(
                |value: Seq<char>| encodable(value),
            ),
    {
        let ghost before = kept@;
        let ghost shown = value@;
        proof {
            reveal(Seq::filter);
            assert(texts(all).take(it.index() + 1).drop_last() =~= texts(all).take(
                it.index() as int,
            ));
        }
        if is_header_value(value.as_str()) {
            kept.push(value);
            assert(texts(kept@) =~= texts(before).push(shown));
        }
    }
    assert(texts(all).take(texts(all).len() as int) =~= texts(all));
    kept
}

// ---------------------------------------------------------------------------
// Laws
// ---------------------------------------------------------------------------

/// A header is read as text exactly if every byte is visible ASCII, a blank or a
/// tab, and the text then has a character for each byte.
pub proof fn law_headers_are_read_byte_by_byte(bytes: Seq<u8>)
    ensures
        readable(bytes) is Some <==> forall|i: int|
            0 <= i < bytes.len() ==> 32 <= #[trigger] bytes[i] <= 126 || bytes[i] == 9,
        readable(bytes) matches Some(shown) ==> shown.len() == bytes.len() && forall|i: int|
            0 <= i < bytes.len() ==> (#[trigger] shown[i]) as int == bytes[i],
        header_value(Some(bytes)) == readable(bytes),
        header_value(None) is None,
{
}

/// A text can stand in a header exactly if it holds no control character but tabs.
pub proof fn law_control_characters_cannot_be_sent(s: Seq<char>)
    ensures
        encodable(s) <==> forall|i: int|
            0 <= i < s.len() ==> #[trigger] s[i] as int == 9 || 32 <= s[i] as int && s[i] as int
                != 127,
{
}

/// The readable values among some headers are those among the first ones and then
/// those among the rest: none is lost, and none moves.
pub proof fn law_readable_values_keep_their_order(a: Seq<Seq<u8>>, b: Seq<Seq<u8>>)
    ensures
        readable_values(a + b) == readable_values(a) + readable_values(b),
        b.len() == 1 ==> readable_values(b) == match readable(b[0]) {
            Some(shown) => seq![shown],
            None => Seq::empty(),
        },
    decreases b.len(),
{
    if b.len() == 0 {
        assert(a + b =~= a);
        assert(readable_values(a) + readable_values(b) =~= readable_values(a));
    } else {
        law_readable_values_keep_their_order(a, b.drop_last());
        assert((a + b).drop_last() =~= a + b.drop_last());
        assert((a + b).last() == b.last());
        assert(readable_values(a + b) =~= readable_values(a) + readable_values(b));
        if b.len() == 1 {
            assert(b.drop_last() =~= Seq::<Seq<u8>>::empty());
            assert(readable_values(b) =~= match readable(b[0]) {
                Some(shown) => seq![shown],
                None => Seq::empty(),
            });
        }
    }
}

/// What is said of a request is said of the headers it holds.
pub proof fn law_request_values(head: RequestHead)
    ensures
        head.host matches Some(bytes) ==> head@.host == Some(bytes@),
        head.origin matches Some(bytes) ==> head@.origin == Some(bytes@),
        head.forwarded_proto matches Some(bytes) ==> head@.forwarded_proto == Some(bytes@),
        head.cookie matches Some(bytes) ==> head@.cookie == Some(bytes@),
        head.authority matches Some(authority) ==> head@.authority == Some(authority@),
        head.host is None <==> head@.host is None,
        head.origin is None <==> head@.origin is None,
        head.forwarded_proto is None <==> head@.forwarded_proto is None,
        head.cookie is None <==> head@.cookie is None,
        head.authority is None <==> head@.authority is None,
{
}

} // verus!
