//! Percent-encoding of the values that go into the OAuth redirect fragment.

use vstd::prelude::*;
use crate::text::string_from_chars;

verus! {

/// Bytes that stand for themselves in an encoded value: ASCII letters,
/// digits, `-`, `_`, `.` and `~`.
pub open spec fn is_unreserved(b: u8) -> bool {
    ||| 65 <= b <= 90
    ||| 97 <= b <= 122
    ||| 48 <= b <= 57
    ||| b == 45
    ||| b == 95
    ||| b == 46
    ||| b == 126
}

/// The upper-case hexadecimal digit of `n` (`n < 16`).
pub open spec fn hex_digit(n: u8) -> char {
    if n < 10 {
        (n + 48) as char
    } else {
        (n + 55) as char
    }
}

/// The characters that stand for byte `b` in an encoded value.
pub open spec fn encode_byte(b: u8) -> Seq<char> {
    if is_unreserved(b) {
        seq![b as char]
    } else {
        seq!['%', hex_digit(b / 16), hex_digit(b % 16)]
    }
}

/// Percent-encoding of `bytes`: each byte in turn, by [`encode_byte`].
pub open spec fn percent_encode(bytes: Seq<u8>) -> Seq<char>
    decreases bytes.len(),
{
    if bytes.len() == 0 {
        Seq::empty()
    } else {
        encode_byte(bytes[0]) + percent_encode(bytes.drop_first())
    }
}

/// The value of an upper-case hexadecimal digit.
pub open spec fn hex_value(c: char) -> Option<u8> {
    if '0' <= c <= '9' {
        Some((c as u32 - 48) as u8)
    } else if 'A' <= c <= 'F' {
        Some((c as u32 - 55) as u8)
    } else {
        None
    }
}

/// A character that an encoded value may hold: an unreserved byte's
/// character, `%`, or (unreserved already) a hexadecimal digit.
pub open spec fn is_encoded_char(c: char) -> bool {
    c == '%' || (c as u32) < 256 && is_unreserved(c as u8)
}

/// Reads an encoded value back into the bytes it stands for; `None` where
/// `s` is not the shape [`percent_encode`] produces.
pub open spec fn percent_decode(s: Seq<char>) -> Option<Seq<u8>>
    decreases s.len(),
{
    if s.len() == 0 {
        Some(Seq::empty())
    } else if s[0] == '%' {
        if s.len() >= 3 && hex_value(s[1]) is Some && hex_value(s[2]) is Some {
            match percent_decode(s.skip(3)) {
                Some(rest) => Some(
                    seq![(hex_value(s[1])->0 * 16 + hex_value(s[2])->0) as u8] + rest,
                ),
                None => None,
            }
        } else {
            None
        }
    } else if (s[0] as u32) < 256 && is_unreserved(s[0] as u8) {
        match percent_decode(s.drop_first()) {
            Some(rest) => Some(seq![s[0] as u8] + rest),
            None => None,
        }
    } else {
        None
    }
}

proof fn lemma_percent_encode_append(a: Seq<u8>, b: Seq<u8>)
    ensures
        percent_encode(a + b) == percent_encode(a) + percent_encode(b),
    decreases a.len(),
{
    if a.len() == 0 {
        assert(a + b =~= b);
        assert(percent_encode(a) + percent_encode(b) =~= percent_encode(b));
    } else {
        assert((a + b).drop_first() =~= a.drop_first() + b);
        lemma_percent_encode_append(a.drop_first(), b);
        assert(encode_byte(a[0]) + (percent_encode(a.drop_first()) + percent_encode(b))
            =~= (encode_byte(a[0]) + percent_encode(a.drop_first())) + percent_encode(b));
    }
}

proof fn lemma_percent_encode_single(b: u8)
    ensures
        percent_encode(seq![b]) == encode_byte(b),
{
    let s = seq![b];
    assert(s.drop_first() =~= Seq::<u8>::empty());
    assert(s[0] == b);
    assert(percent_encode(s.drop_first()) == Seq::<char>::empty());
    assert(encode_byte(b) + Seq::<char>::empty() =~= encode_byte(b));
}

proof fn lemma_hex_digit_value(n: u8)
    requires
        n < 16,
    ensures
        hex_value(hex_digit(n)) == Some(n),
{
}

/// Law: decoding an encoded value gives back exactly the bytes that were
/// encoded, so distinct values never encode alike.
pub proof fn lemma_percent_decode_encode(bytes: Seq<u8>)
    ensures
        percent_decode(percent_encode(bytes)) == Some(bytes),
    decreases bytes.len(),
{
    if bytes.len() == 0 {
    } else {
        let b = bytes[0];
        let rest = bytes.drop_first();
        let e = percent_encode(bytes);
        lemma_percent_decode_encode(rest);
        if is_unreserved(b) {
            assert(e[0] == b as char);
            assert(e.drop_first() =~= percent_encode(rest));
            assert(seq![b] + rest =~= bytes);
        } else {
            lemma_hex_digit_value(b / 16);
            lemma_hex_digit_value(b % 16);
            assert(e[0] == '%');
            assert(e[1] == hex_digit(b / 16));
            assert(e[2] == hex_digit(b % 16));
            assert(e.skip(3) =~= percent_encode(rest));
            assert(((b / 16) * 16 + b % 16) as u8 == b);
            assert(seq![b] + rest =~= bytes);
        }
    }
}

/// Law: an unreserved byte stands for itself; any other byte becomes `%`
/// and two upper-case hexadecimal digits whose value is the byte.
pub proof fn lemma_encode_byte_shape(b: u8)
    ensures
        is_unreserved(b) ==> encode_byte(b) == seq![b as char],
        !is_unreserved(b) ==> {
            let e = encode_byte(b);
            &&& e.len() == 3
            &&& e[0] == '%'
            &&& ('0' <= e[1] <= '9' || 'A' <= e[1] <= 'F')
            &&& ('0' <= e[2] <= '9' || 'A' <= e[2] <= 'F')
            &&& (if e[1] <= '9' { e[1] as u32 - 48 } else { e[1] as u32 - 55 }) * 16 + (if e[2]
                <= '9' { e[2] as u32 - 48 } else { e[2] as u32 - 55 }) == b as u32
        },
{
}

/// Law: every character of an encoded value is an unreserved character or
/// `%`; in particular none of `&`, `=`, `#` can appear in it.
pub proof fn lemma_percent_encode_chars(bytes: Seq<u8>)
    ensures
        forall|k: int|
            0 <= k < percent_encode(bytes).len() ==> is_encoded_char(
                #[trigger] percent_encode(bytes)[k],
            ),
    decreases bytes.len(),
{
    if bytes.len() > 0 {
        let b = bytes[0];
        lemma_percent_encode_chars(bytes.drop_first());
        let e = percent_encode(bytes);
        let h = encode_byte(b);
        let t = percent_encode(bytes.drop_first());
        assert forall|k: int| 0 <= k < e.len() implies is_encoded_char(#[trigger] e[k]) by {
            if k < h.len() {
                assert(e[k] == h[k]);
            } else {
                assert(e[k] == t[k - h.len()]);
            }
        }
    }
}

fn hex_digit_exec(n: u8) -> (c: char)
    requires
        n < 16,
    ensures
        c == hex_digit(n),
{
    if n < 10 {
        (n + 48) as char
    } else {
        (n + 55) as char
    }
}

/// Percent-encodes the UTF-8 bytes of `value`: letters, digits, `-`, `_`,
/// `.` and `~` stay as they are, every other byte becomes `%` and two
/// upper-case hexadecimal digits.
pub fn url_encode(value: &str) -> (r: String)
    ensures
        r@ == percent_encode(vstd::utf8::encode_utf8(value@)),
{
    let bytes = value.as_bytes();
    let n = bytes.len();
    let mut out: Vec<char> = Vec::new();
    let mut i: usize = 0;
    while i < n
        invariant
            i <= n == bytes@.len(),
            bytes@ == vstd::utf8::encode_utf8(value@),
            out@ == percent_encode(bytes@.take(i as int)),
        decreases n - i,
    {
        let b = bytes[i];
        let is_plain = (65 <= b && b <= 90) || (97 <= b && b <= 122) || (48 <= b && b <= 57)
            || b == 45 || b == 95 || b == 46 || b == 126;
        if is_plain {
            out.push(b as char);
        } else {
            out.push('%');
            out.push(hex_digit_exec(b / 16));
            out.push(hex_digit_exec(b % 16));
        }
        proof {
            assert(bytes@.take(i + 1) =~= bytes@.take(i as int) + seq![b]);
            lemma_percent_encode_append(bytes@.take(i as int), seq![b]);
            lemma_percent_encode_single(b);
        }
        i = i + 1;
    }
    assert(bytes@.take(n as int) =~= bytes@);
    string_from_chars(out)
}

} // verus!
