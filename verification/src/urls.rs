//! Addresses: their parts, how one leads to another, and how text travels in them.
use crate::text::view_opt;
use vstd::prelude::*;

verus! {

/// The parts of an absolute address that make its origin. `port` is `None` where the address names
/// none, or the one that its scheme has anyway.
#[derive(Debug, Clone)]
pub struct UrlParts {
    pub scheme: String,
    pub host: Option<String>,
    pub port: Option<u16>,
}

/// [`UrlParts`] with its texts as sequences of characters.
pub struct UrlPartsView {
    pub scheme: Seq<char>,
    pub host: Option<Seq<char>>,
    pub port: Option<u16>,
}

impl View for UrlParts {
    type V = UrlPartsView;

    open spec fn view(&self) -> UrlPartsView {
        UrlPartsView { scheme: self.scheme@, host: view_opt(self.host), port: self.port }
    }
}

/// The scheme, the host and the port that `url::Url::parse` reads from a text; `None` where the
/// text is no absolute address.
pub uninterp spec fn url_parts(url: Seq<char>) -> Option<UrlPartsView>;

/// The address that `url::Url::join` resolves `reference` to, against the base `base`; `None`
/// where one of the two cannot be parsed.
pub uninterp spec fn url_join(base: Seq<char>, reference: Seq<char>) -> Option<Seq<char>>;

/// Whether `http::Uri` accepts a text.
pub uninterp spec fn is_uri(text: Seq<char>) -> bool;

/// `url::Url::parse`, with `scheme`, `host_str` and `port` of what it returns. What they are
/// depends on the text alone.
#[verifier::external_body]
pub(crate) fn parse_url(url: &str) -> (parts: Option<UrlParts>)
    ensures
        view_opt(parts) == url_parts(url@),
{
    let parsed = url::Url::parse(url).ok()?;
    let host = parsed.host_str().map(|host| host.to_string());
    Some(UrlParts { scheme: parsed.scheme().to_string(), host, port: parsed.port() })
}

/// `url::Url::join` on the parsed `base`, and the resulting address as a text. It depends on the
/// two texts alone.
#[verifier::external_body]
pub(crate) fn join_url(base: &str, reference: &str) -> (joined: Option<String>)
    ensures
        view_opt(joined) == url_join(base@, reference@),
{
    let base = url::Url::parse(base).ok()?;
    let joined = base.join(reference).ok()?;
    Some(joined.to_string())
}

/// `Uri::try_from` of the `http` crate that `ureq` exports: whether it accepts the text. That
/// depends on the text alone.
#[verifier::external_body]
pub(crate) fn accepts_uri(text: &str) -> (accepted: bool)
    ensures
        accepted == is_uri(text@),
{
    ureq::http::Uri::try_from(text).is_ok()
}

/// Whether a byte travels in an address as it is.
pub open spec fn is_unreserved(b: u8) -> bool {
    ||| 0x30 <= b <= 0x39
    ||| 0x41 <= b <= 0x5a
    ||| 0x61 <= b <= 0x7a
    ||| b == 0x2d
    ||| b == 0x2e
    ||| b == 0x5f
    ||| b == 0x7e
}

/// An upper-case hexadecimal digit.
pub open spec fn hex_digit(d: int) -> char {
    if d < 10 {
        (0x30 + d) as char
    } else {
        (0x41 + d - 10) as char
    }
}

/// A byte as it travels in an address: itself, or a percent sign and its two hexadecimal digits.
pub open spec fn percent_byte(b: u8) -> Seq<char> {
    if is_unreserved(b) {
        seq![b as char]
    } else {
        seq!['%', hex_digit(b as int / 16), hex_digit(b as int % 16)]
    }
}

/// Bytes as they travel in an address.
pub open spec fn percent_encoded(bytes: Seq<u8>) -> Seq<char>
    decreases bytes.len(),
{
    if bytes.len() == 0 {
        Seq::empty()
    } else {
        percent_encoded(bytes.drop_last()) + percent_byte(bytes.last())
    }
}

/// A text as it travels in an address.
pub open spec fn encoded(text: Seq<char>) -> Seq<char> {
    percent_encoded(vstd::utf8::encode_utf8(text))
}

/// `urlencoding::encode` percent-encodes every byte of the text but letters, digits and `-`, `_`,
/// `.`, `~`.
#[verifier::external_body]
pub(crate) fn encode(text: &str) -> (result: String)
    ensures
        result@ == encoded(text@),
{
    urlencoding::encode(text).into_owned()
}

/// Whether a character can stand in encoded text: a letter, a digit, or one of `-._~%`.
pub open spec fn travels(c: char) -> bool {
    c == '%' || (c as u32 <= 0x7f && is_unreserved(c as u8))
}

/// Encoded text holds letters, digits and `-._~%` only, whatever was encoded.
pub proof fn law_encoded_is_safe(text: Seq<char>, i: int)
    requires
        0 <= i < encoded(text).len(),
    ensures
        travels(encoded(text)[i]),
        encoded(text)[i] != '&',
        encoded(text)[i] != '=',
{
    lemma_percent_encoded_travels(vstd::utf8::encode_utf8(text), i);
}

proof fn lemma_percent_encoded_travels(bytes: Seq<u8>, i: int)
    requires
        0 <= i < percent_encoded(bytes).len(),
    ensures
        travels(percent_encoded(bytes)[i]),
    decreases bytes.len(),
{
    let before = percent_encoded(bytes.drop_last());
    if i < before.len() {
        lemma_percent_encoded_travels(bytes.drop_last(), i);
    } else {
        assert(percent_encoded(bytes)[i] == percent_byte(bytes.last())[i - before.len()]);
    }
}

/// Encoding loses nothing: different texts travel differently.
pub proof fn law_encoding_tells_texts_apart(a: Seq<char>, b: Seq<char>)
    requires
        encoded(a) == encoded(b),
    ensures
        a == b,
{
    lemma_percent_encoded_injective(vstd::utf8::encode_utf8(a), vstd::utf8::encode_utf8(b));
    vstd::utf8::encode_utf8_decode_utf8(a);
    vstd::utf8::encode_utf8_decode_utf8(b);
}

/// What travels begins with the first byte.
proof fn lemma_percent_encoded_front(bytes: Seq<u8>)
    requires
        bytes.len() > 0,
    ensures
        percent_encoded(bytes) == percent_byte(bytes[0]) + percent_encoded(bytes.drop_first()),
    decreases bytes.len(),
{
    if bytes.len() == 1 {
        assert(bytes.drop_last() =~= Seq::empty());
        assert(bytes.drop_first() =~= Seq::empty());
        assert(percent_encoded(bytes.drop_last()) =~= Seq::empty());
        assert(percent_encoded(bytes) =~= percent_byte(bytes[0]) + percent_encoded(
            bytes.drop_first(),
        ));
    } else {
        let front = bytes.drop_last();
        lemma_percent_encoded_front(front);
        assert(front.drop_first() =~= bytes.drop_first().drop_last());
        assert(bytes.drop_first().last() == bytes.last());
        assert(percent_encoded(bytes) =~= percent_byte(bytes[0]) + percent_encoded(
            bytes.drop_first(),
        ));
    }
}

proof fn lemma_hex_digit_injective(a: int, b: int)
    requires
        0 <= a < 16,
        0 <= b < 16,
        hex_digit(a) == hex_digit(b),
    ensures
        a == b,
{
    assert(hex_digit(a) as u32 == if a < 10 {
        0x30 + a
    } else {
        0x41 + a - 10
    });
    assert(hex_digit(b) as u32 == if b < 10 {
        0x30 + b
    } else {
        0x41 + b - 10
    });
}

/// The first byte, and what stands behind it, can be told from what travels.
proof fn lemma_first_byte(a: u8, b: u8, x: Seq<char>, y: Seq<char>)
    requires
        percent_byte(a) + x == percent_byte(b) + y,
    ensures
        a == b,
        x == y,
{
    let all = percent_byte(a) + x;
    let first = percent_byte(a);
    let other = percent_byte(b);
    assert(all[0] == first[0]);
    assert((percent_byte(b) + y)[0] == other[0]);
    if is_unreserved(a) {
        assert(first[0] as u32 == a);
    }
    if is_unreserved(b) {
        assert(other[0] as u32 == b);
    }
    assert(is_unreserved(a) == is_unreserved(b));
    if !is_unreserved(a) {
        assert(all[1] == first[1] && (percent_byte(b) + y)[1] == other[1]);
        assert(all[2] == first[2] && (percent_byte(b) + y)[2] == other[2]);
        lemma_hex_digit_injective(a as int / 16, b as int / 16);
        lemma_hex_digit_injective(a as int % 16, b as int % 16);
    }
    assert(x =~= all.skip(first.len() as int));
    assert(y =~= (percent_byte(b) + y).skip(first.len() as int));
}

proof fn lemma_percent_encoded_injective(a: Seq<u8>, b: Seq<u8>)
    requires
        percent_encoded(a) == percent_encoded(b),
    ensures
        a == b,
    decreases a.len(),
{
    if a.len() > 0 {
        lemma_percent_encoded_front(a);
        assert(percent_encoded(a).len() > 0);
    } else {
        assert(percent_encoded(a).len() == 0);
    }
    if b.len() > 0 {
        lemma_percent_encoded_front(b);
        assert(percent_encoded(b).len() > 0);
    } else {
        assert(percent_encoded(b).len() == 0);
    }
    if a.len() > 0 && b.len() > 0 {
        lemma_first_byte(
            a[0],
            b[0],
            percent_encoded(a.drop_first()),
            percent_encoded(b.drop_first()),
        );
        lemma_percent_encoded_injective(a.drop_first(), b.drop_first());
        assert(a =~= seq![a[0]] + a.drop_first());
        assert(b =~= seq![b[0]] + b.drop_first());
    } else {
        assert(a =~= b);
    }
}

/// Texts are encoded byte by byte: what travels of two runs of bytes is what travels of the one, and
/// then of the other. A letter, a digit and each of `-._~` travel as they are, any other byte as a
/// percent sign and its two hexadecimal digits, in upper case.
pub proof fn law_encoded_byte_by_byte(text: Seq<char>, a: Seq<u8>, b: Seq<u8>, byte: u8)
    ensures
        encoded(text) == percent_encoded(vstd::utf8::encode_utf8(text)),
        percent_encoded(a + b) == percent_encoded(a) + percent_encoded(b),
        percent_encoded(seq![byte]) == if 48 <= byte <= 57 || 65 <= byte <= 90 || 97 <= byte <= 122
            || byte == 45 || byte == 46 || byte == 95 || byte == 126 {
            seq![byte as char]
        } else {
            seq!['%', "0123456789ABCDEF"@[byte as int / 16], "0123456789ABCDEF"@[byte as int % 16]]
        },
    decreases b.len(),
{
    reveal_strlit("0123456789ABCDEF");
    let one = seq![byte];
    assert(one.drop_last() =~= Seq::empty());
    assert(percent_encoded(one.drop_last()) =~= Seq::empty());
    assert(one.last() == byte);
    assert(percent_encoded(one) =~= percent_byte(byte));
    lemma_hex_digit_written(byte as int / 16);
    lemma_hex_digit_written(byte as int % 16);
    if b.len() > 0 {
        law_encoded_byte_by_byte(text, a, b.drop_last(), byte);
        assert((a + b).drop_last() =~= a + b.drop_last());
        assert((a + b).last() == b.last());
        assert(percent_encoded(a + b) =~= percent_encoded(a) + percent_encoded(b));
    } else {
        assert(a + b =~= a);
        assert(percent_encoded(a + b) =~= percent_encoded(a) + percent_encoded(b));
    }
}

proof fn lemma_hex_digit_written(d: int)
    requires
        0 <= d < 16,
    ensures
        hex_digit(d) == "0123456789ABCDEF"@[d],
{
    reveal_strlit("0123456789ABCDEF");
    assert(hex_digit(d) as u32 == "0123456789ABCDEF"@[d] as u32);
}

/// The parts of an address are told field by field.
pub proof fn law_parts_field_by_field(parts: UrlParts)
    ensures
        parts@.scheme == parts.scheme@,
        parts@.host == view_opt(parts.host),
        parts@.port == parts.port,
{
}

} // verus!
