//! Percent-encoding of request parameters.
use vstd::prelude::*;
use vstd::string::*;
use vstd::utf8::*;

use crate::text::{hex_char, hex_digit, push_char};

verus! {

/// Characters that pass through the encoder unchanged: ASCII letters and
/// digits, and `-`, `_`, `~`, `.`.
pub open spec fn is_unreserved(c: char) -> bool {
    ||| 'a' <= c <= 'z'
    ||| 'A' <= c <= 'Z'
    ||| '0' <= c <= '9'
    ||| c == '-'
    ||| c == '_'
    ||| c == '~'
    ||| c == '.'
}

/// What one byte of the UTF-8 input becomes.
pub open spec fn encode_byte(b: u8) -> Seq<char> {
    if is_unreserved(b as char) {
        seq![b as char]
    } else {
        seq!['%', hex_char(b / 16), hex_char(b % 16)]
    }
}

/// The encoding of a byte string: each byte encoded in turn.
pub open spec fn percent_encoded(bytes: Seq<u8>) -> Seq<char>
    decreases bytes.len(),
{
    if bytes.len() == 0 {
        seq![]
    } else {
        percent_encoded(bytes.drop_last()) + encode_byte(bytes.last())
    }
}

/// The encoding of a text: each byte of its UTF-8 form encoded in turn.
pub open spec fn percent_encoding_of(s: Seq<char>) -> Seq<char> {
    percent_encoded(encode_utf8(s))
}

pub fn is_unreserved_char(c: char) -> (r: bool)
    ensures
        r == is_unreserved(c),
{
    ('a' <= c && c <= 'z') || ('A' <= c && c <= 'Z') || ('0' <= c && c <= '9') || c == '-' || c
        == '_' || c == '~' || c == '.'
}

/// Encodes `value` for use in a query string: unreserved characters are kept,
/// every other character becomes one `%xx` (lowercase hex) per UTF-8 byte.
pub fn percent_encode(value: &str) -> (encoded: String)
    ensures
        encoded@ == percent_encoding_of(value@),
{
    let bytes = value.as_bytes();
    let mut encoded = String::new();
    let mut i: usize = 0;
    while i < bytes.len()
        invariant
            i <= bytes@.len(),
            bytes@ == encode_utf8(value@),
            encoded@ == percent_encoded(bytes@.take(i as int)),
        decreases bytes@.len() - i,
    {
        let b = bytes[i];
        let c = b as char;
        if is_unreserved_char(c) {
            push_char(&mut encoded, c);
        } else {
            push_char(&mut encoded, '%');
            push_char(&mut encoded, hex_digit(b / 16));
            push_char(&mut encoded, hex_digit(b % 16));
        }
        assert(bytes@.take(i + 1).drop_last() == bytes@.take(i as int));
        assert(encoded@ == percent_encoded(bytes@.take(i as int)) + encode_byte(b));
        i += 1;
    }
    assert(bytes@.take(i as int) == bytes@);
    encoded
}

proof fn lemma_ascii_prefix_unchanged(s: Seq<char>, b: Seq<u8>, n: int)
    requires
        b.len() == s.len(),
        0 <= n <= s.len(),
        forall|i: int| 0 <= i < s.len() ==> is_unreserved(#[trigger] s[i]),
        forall|i: int| 0 <= i < s.len() ==> s[i] as u8 == #[trigger] b[i],
    ensures
        percent_encoded(b.take(n)) == s.take(n),
    decreases n,
{
    if n > 0 {
        lemma_ascii_prefix_unchanged(s, b, n - 1);
        assert(b.take(n).drop_last() == b.take(n - 1));
        assert(is_unreserved(s[n - 1]));
        assert(s[n - 1] as u8 == b[n - 1]);
        assert(b[n - 1] as char == s[n - 1]);
        assert(s.take(n) == s.take(n - 1).push(s[n - 1]));
    }
}

/// A text made only of unreserved characters is its own encoding, so encoding
/// it again changes nothing.
pub proof fn lemma_unreserved_text_unchanged(s: Seq<char>)
    requires
        forall|i: int| 0 <= i < s.len() ==> is_unreserved(#[trigger] s[i]),
    ensures
        percent_encoding_of(s) == s,
        percent_encoding_of(percent_encoding_of(s)) == percent_encoding_of(s),
{
    assert(is_ascii_chars(s)) by {
        assert forall|i: int| 0 <= i < s.len() implies '\0' <= #[trigger] s[i] <= '\u{7f}' by {
            assert(is_unreserved(s[i]));
        }
    }
    is_ascii_chars_encode_utf8(s);
    let b = encode_utf8(s);
    lemma_ascii_prefix_unchanged(s, b, s.len() as int);
    assert(b.take(s.len() as int) == b);
    assert(s.take(s.len() as int) == s);
}

} // verus!
