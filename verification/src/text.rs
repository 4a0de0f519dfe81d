//! Character classes, hexadecimal digits and small string builders shared by the modules.

use vstd::prelude::*;
use vstd::utf8::{decode_utf8, valid_utf8};

verus! {

/// An ASCII letter or digit: the alphabet of subscription tokens.
pub open spec fn is_ascii_alphanumeric(c: char) -> bool {
    ||| ('0' <= c && c <= '9')
    ||| ('A' <= c && c <= 'Z')
    ||| ('a' <= c && c <= 'z')
}

/// Executable test for `is_ascii_alphanumeric`.
pub fn char_is_ascii_alphanumeric(c: char) -> (b: bool)
    ensures
        b == is_ascii_alphanumeric(c),
{
    ('0' <= c && c <= '9') || ('A' <= c && c <= 'Z') || ('a' <= c && c <= 'z')
}

/// The views of a list of strings.
pub open spec fn texts(v: Seq<String>) -> Seq<Seq<char>> {
    v.map_values(|s: String| s@)
}

/// The view of an optional string.
pub open spec fn opt_text(o: Option<String>) -> Option<Seq<char>> {
    match o {
        Some(s) => Some(s@),
        None => None,
    }
}

/// The lowercase hexadecimal digit of a value below 16.
pub open spec fn hex_digit_lower(d: int) -> char {
    if d < 10 {
        (48 + d) as char
    } else {
        (87 + d) as char
    }
}

/// The uppercase hexadecimal digit of a value below 16.
pub open spec fn hex_digit_upper(d: int) -> char {
    if d < 10 {
        (48 + d) as char
    } else {
        (55 + d) as char
    }
}

/// Lowercase hexadecimal text of a byte string, two digits per byte, high nibble first.
pub open spec fn hex_lower(bytes: Seq<u8>) -> Seq<char>
    decreases bytes.len(),
{
    if bytes.len() == 0 {
        seq![]
    } else {
        seq![hex_digit_lower((bytes[0] / 16) as int), hex_digit_lower((bytes[0] % 16) as int)] + hex_lower(
            bytes.drop_first(),
        )
    }
}

/// A lowercase hexadecimal digit: `0`-`9` or `a`-`f`.
pub open spec fn is_lower_hex_digit(c: char) -> bool {
    ('0' <= c && c <= '9') || ('a' <= c && c <= 'f')
}

/// Hexadecimal text has two lowercase hexadecimal digits per byte.
pub proof fn lemma_hex_lower_shape(bytes: Seq<u8>)
    ensures
        hex_lower(bytes).len() == 2 * bytes.len(),
        forall|i: int|
            0 <= i < hex_lower(bytes).len() ==> #[trigger] is_lower_hex_digit(hex_lower(bytes)[i]),
    decreases bytes.len(),
{
    if bytes.len() > 0 {
        lemma_hex_lower_shape(bytes.drop_first());
        let head = seq![
            hex_digit_lower((bytes[0] / 16) as int),
            hex_digit_lower((bytes[0] % 16) as int),
        ];
        let tail = hex_lower(bytes.drop_first());
        assert forall|i: int| 0 <= i < hex_lower(bytes).len() implies #[trigger] is_lower_hex_digit(
            hex_lower(bytes)[i],
        ) by {
            if i < 2 {
                assert(hex_lower(bytes)[i] == head[i]);
            } else {
                assert(hex_lower(bytes)[i] == tail[i - 2]);
            }
        }
    }
}

/// Executable `hex_digit_lower`.
pub fn lower_hex_digit(d: u8) -> (c: char)
    requires
        d < 16,
    ensures
        c == hex_digit_lower(d as int),
{
    if d < 10 {
        (48 + d) as char
    } else {
        (87 + d) as char
    }
}

/// The hexadecimal text of `bytes` is the text of its first `n` bytes followed by that of the rest.
pub proof fn lemma_hex_lower_split(bytes: Seq<u8>, n: int)
    requires
        0 <= n <= bytes.len(),
    ensures
        hex_lower(bytes) == hex_lower(bytes.take(n)) + hex_lower(bytes.skip(n)),
    decreases n,
{
    if n == 0 {
        assert(bytes.take(0) =~= Seq::<u8>::empty());
        assert(bytes.skip(0) =~= bytes);
        assert(hex_lower(Seq::<u8>::empty()) =~= Seq::<char>::empty());
        assert(hex_lower(bytes) =~= Seq::<char>::empty() + hex_lower(bytes));
    } else {
        let rest = bytes.drop_first();
        lemma_hex_lower_split(rest, n - 1);
        assert(rest.take(n - 1) =~= bytes.take(n).drop_first());
        assert(rest.skip(n - 1) =~= bytes.skip(n));
        assert(bytes.take(n)[0] == bytes[0]);
    }
}

/// Lowercase hexadecimal text of `bytes`, two digits per byte.
pub fn to_hex_lower(bytes: &[u8]) -> (s: String)
    ensures
        s@ == hex_lower(bytes@),
{
    let mut s = String::new();
    let n = bytes.len();
    for i in 0..n
        invariant
            n == bytes@.len(),
            s@ == hex_lower(bytes@.take(i as int)),
    {
        let b = bytes[i];
        push_char(&mut s, lower_hex_digit(b / 16));
        push_char(&mut s, lower_hex_digit(b % 16));
        proof {
            lemma_hex_lower_split(bytes@.take(i + 1), i as int);
            assert(bytes@.take(i + 1).take(i as int) =~= bytes@.take(i as int));
            assert(bytes@.take(i + 1).skip(i as int) =~= seq![b]);
            assert(seq![b].drop_first() =~= Seq::<u8>::empty());
            assert(hex_lower(Seq::<u8>::empty()) =~= Seq::<char>::empty());
            assert(hex_lower(seq![b]) =~= seq![
                hex_digit_lower((b / 16) as int),
                hex_digit_lower((b % 16) as int),
            ]);
        }
    }
    assert(bytes@.take(n as int) =~= bytes@);
    s
}

/// `String::push` from std: appends one character.
#[verifier::external_body]
pub(crate) fn push_char(s: &mut String, c: char)
    ensures
        final(s)@ == old(s)@.push(c),
{
    s.push(c);
}

/// `String::from_utf8` from std: the bytes as text when they are valid UTF-8, else nothing.
#[verifier::external_body]
pub(crate) fn string_from_utf8(bytes: Vec<u8>) -> (r: Option<String>)
    ensures
        r is Some <==> valid_utf8(bytes@),
        r matches Some(s) ==> s@ == decode_utf8(bytes@),
{
    String::from_utf8(bytes).ok()
}

} // verus!
