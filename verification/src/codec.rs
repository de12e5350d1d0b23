//! Percent-encoding of strings for use in query strings.
//!
//! A string is encoded byte by byte over its UTF-8 form: ASCII alphanumerics
//! and `-`, `.`, `_`, `~` stand for themselves, and every other byte becomes
//! `%` followed by two uppercase hexadecimal digits.  Decoding inverts this;
//! it accepts ASCII input only, which covers everything an encoder produces.

use crate::strutil::push_char;
use crate::strutil::string_from_utf8;
use vstd::prelude::*;
use vstd::string::StrSliceExecFns;
use vstd::string::StringSliceAdditionalSpecFns;
use vstd::utf8::decode_utf8;
use vstd::utf8::encode_utf8;
use vstd::utf8::encode_utf8_decode_utf8;
use vstd::utf8::encode_utf8_valid_utf8;
use vstd::utf8::valid_utf8;

verus! {

/// Bytes that stand for themselves in the encoded form.
pub open spec fn is_unreserved_byte(b: u8) -> bool {
    (0x30 <= b <= 0x39)  // digits
    || (0x41 <= b <= 0x5a)  // upper-case letters
    || (0x61 <= b <= 0x7a)  // lower-case letters
    || b == 0x2d  // '-'
    || b == 0x2e  // '.'
    || b == 0x5f  // '_'
    || b == 0x7e  // '~'
}

/// Uppercase hexadecimal digit character for a value below 16.
pub open spec fn spec_hex_char(d: int) -> char {
    if d == 0 {
        '0'
    } else if d == 1 {
        '1'
    } else if d == 2 {
        '2'
    } else if d == 3 {
        '3'
    } else if d == 4 {
        '4'
    } else if d == 5 {
        '5'
    } else if d == 6 {
        '6'
    } else if d == 7 {
        '7'
    } else if d == 8 {
        '8'
    } else if d == 9 {
        '9'
    } else if d == 10 {
        'A'
    } else if d == 11 {
        'B'
    } else if d == 12 {
        'C'
    } else if d == 13 {
        'D'
    } else if d == 14 {
        'E'
    } else {
        'F'
    }
}

/// Whether a character is a hexadecimal digit (either case).
pub open spec fn is_hex_char(c: char) -> bool {
    (0x30 <= c as u32 <= 0x39) || (0x41 <= c as u32 <= 0x46) || (0x61 <= c as u32 <= 0x66)
}

/// Numeric value of a hexadecimal digit character.
pub open spec fn spec_hex_val(c: char) -> int
    recommends
        is_hex_char(c),
{
    if 0x30 <= c as u32 <= 0x39 {
        c as u32 - 0x30
    } else if 0x41 <= c as u32 <= 0x46 {
        c as u32 - 0x41 + 10
    } else {
        c as u32 - 0x61 + 10
    }
}

/// Encoded form of one byte: itself, or a `%`-escape.
pub open spec fn enc_byte(b: u8) -> Seq<char> {
    if is_unreserved_byte(b) {
        seq![b as char]
    } else {
        seq!['%', spec_hex_char((b >> 4) as int), spec_hex_char((b & 0xf) as int)]
    }
}

/// Encoded form of a byte sequence.
pub open spec fn enc_bytes(bs: Seq<u8>) -> Seq<char>
    decreases bs.len(),
{
    if bs.len() == 0 {
        Seq::<char>::empty()
    } else {
        enc_byte(bs[0]) + enc_bytes(bs.drop_first())
    }
}

/// Percent-encoding of a string: its UTF-8 bytes, each encoded.
pub open spec fn enc_str(s: Seq<char>) -> Seq<char> {
    enc_bytes(encode_utf8(s))
}

/// Percent-decoding of an ASCII character sequence back to bytes.
/// `None` on a malformed escape or a non-ASCII character.
pub open spec fn dec_chars(cs: Seq<char>) -> Option<Seq<u8>>
    decreases cs.len(),
{
    if cs.len() == 0 {
        Some(Seq::<u8>::empty())
    } else if cs[0] == '%' {
        if cs.len() >= 3 && is_hex_char(cs[1]) && is_hex_char(cs[2]) {
            match dec_chars(cs.skip(3)) {
                Some(rest) => Some(
                    seq![(spec_hex_val(cs[1]) * 16 + spec_hex_val(cs[2])) as u8] + rest,
                ),
                None => None,
            }
        } else {
            None
        }
    } else if (cs[0] as u32) < 0x80 {
        match dec_chars(cs.skip(1)) {
            Some(rest) => Some(seq![cs[0] as u8] + rest),
            None => None,
        }
    } else {
        None
    }
}

/// Percent-decoding of a string: bytes first, then UTF-8.
pub open spec fn dec_str(q: Seq<char>) -> Option<Seq<char>> {
    match dec_chars(q) {
        Some(bs) => if valid_utf8(bs) {
            Some(decode_utf8(bs))
        } else {
            None
        },
        None => None,
    }
}

/// Characters that may appear in an encoded component: ASCII, and neither
/// the pair separator `&` nor the key/value separator `=`.
pub open spec fn qs_safe_char(c: char) -> bool {
    (c as u32) < 0x80 && c != '&' && c != '='
}

/// Every character of an encoded byte is ASCII and is not a separator.
proof fn lemma_enc_byte_safe(b: u8)
    ensures
        forall|k: int| 0 <= k < enc_byte(b).len() ==> qs_safe_char(#[trigger] enc_byte(b)[k]),
{
    if is_unreserved_byte(b) {
        assert(enc_byte(b)[0] == b as char);
        assert(qs_safe_char(b as char));
    } else {
        assert(enc_byte(b)[0] == '%');
        assert(qs_safe_char('%'));
        assert(qs_safe_char(spec_hex_char((b >> 4) as int)));
        assert(qs_safe_char(spec_hex_char((b & 0xf) as int)));
    }
}

/// Every character of an encoded byte sequence is ASCII and not a separator.
pub proof fn lemma_enc_bytes_safe(bs: Seq<u8>)
    ensures
        forall|k: int| 0 <= k < enc_bytes(bs).len() ==> qs_safe_char(#[trigger] enc_bytes(bs)[k]),
    decreases bs.len(),
{
    if bs.len() > 0 {
        lemma_enc_byte_safe(bs[0]);
        lemma_enc_bytes_safe(bs.drop_first());
        let head = enc_byte(bs[0]);
        let tail = enc_bytes(bs.drop_first());
        assert(enc_bytes(bs) == head + tail);
        assert forall|k: int| 0 <= k < enc_bytes(bs).len() implies qs_safe_char(
            #[trigger] enc_bytes(bs)[k],
        ) by {
            if k < head.len() {
                assert(enc_bytes(bs)[k] == head[k]);
            } else {
                assert(enc_bytes(bs)[k] == tail[k - head.len()]);
            }
        }
    }
}

/// Encoding distributes over appending one byte.
pub proof fn lemma_enc_bytes_push(bs: Seq<u8>, b: u8)
    ensures
        enc_bytes(bs.push(b)) == enc_bytes(bs) + enc_byte(b),
    decreases bs.len(),
{
    if bs.len() == 0 {
        assert(bs.push(b)[0] == b);
        assert(bs.push(b).drop_first() =~= Seq::<u8>::empty());
        assert(enc_bytes(Seq::<u8>::empty()) == Seq::<char>::empty());
        assert(enc_bytes(bs) == Seq::<char>::empty());
        assert(enc_bytes(bs.push(b)) == enc_byte(b) + Seq::<char>::empty());
        assert(enc_byte(b) + Seq::<char>::empty() =~= Seq::<char>::empty() + enc_byte(b));
    } else {
        lemma_enc_bytes_push(bs.drop_first(), b);
        assert(bs.push(b)[0] == bs[0]);
        assert(bs.push(b).drop_first() =~= bs.drop_first().push(b));
        assert(enc_bytes(bs.push(b)) == enc_byte(bs[0]) + enc_bytes(bs.drop_first().push(b)));
        assert(enc_byte(bs[0]) + (enc_bytes(bs.drop_first()) + enc_byte(b)) =~= (enc_byte(bs[0])
            + enc_bytes(bs.drop_first())) + enc_byte(b));
    }
}

proof fn lemma_hex_char_val(d: int)
    requires
        0 <= d < 16,
    ensures
        is_hex_char(spec_hex_char(d)),
        spec_hex_val(spec_hex_char(d)) == d,
{
}

/// Decoding inverts encoding on byte sequences.
pub proof fn lemma_dec_enc(bs: Seq<u8>)
    ensures
        dec_chars(enc_bytes(bs)) == Some(bs),
    decreases bs.len(),
{
    if bs.len() == 0 {
        assert(enc_bytes(bs).len() == 0);
        assert(dec_chars(enc_bytes(bs)) == Some(Seq::<u8>::empty()));
        assert(bs =~= Seq::<u8>::empty());
    } else {
        let b = bs[0];
        let cs = enc_bytes(bs);
        lemma_dec_enc(bs.drop_first());
        if is_unreserved_byte(b) {
            assert(cs[0] == b as char);
            assert(cs[0] != '%');
            assert((cs[0] as u32) < 0x80);
            assert(cs.skip(1) =~= enc_bytes(bs.drop_first()));
            assert((cs[0] as u8) == b);
            assert(seq![b] + bs.drop_first() =~= bs);
        } else {
            assert(cs[0] == '%');
            assert(b >> 4 < 16 && b & 0xf < 16) by (bit_vector);
            lemma_hex_char_val((b >> 4) as int);
            lemma_hex_char_val((b & 0xf) as int);
            assert(cs[1] == spec_hex_char((b >> 4) as int));
            assert(cs[2] == spec_hex_char((b & 0xf) as int));
            assert(cs.len() >= 3);
            assert(cs.skip(3) =~= enc_bytes(bs.drop_first()));
            assert((b >> 4) * 16 + (b & 0xf) == b) by (bit_vector);
            assert(spec_hex_val(cs[1]) * 16 + spec_hex_val(cs[2]) == b);
            assert(seq![b] + bs.drop_first() =~= bs);
        }
    }
}

/// Decoding inverts encoding on strings.
pub proof fn lemma_dec_str_enc_str(s: Seq<char>)
    ensures
        dec_str(enc_str(s)) == Some(s),
{
    lemma_dec_enc(encode_utf8(s));
    encode_utf8_valid_utf8(s);
    encode_utf8_decode_utf8(s);
}

fn hex_char(d: u8) -> (c: char)
    requires
        d < 16,
    ensures
        c == spec_hex_char(d as int),
{
    match d {
        0 => '0',
        1 => '1',
        2 => '2',
        3 => '3',
        4 => '4',
        5 => '5',
        6 => '6',
        7 => '7',
        8 => '8',
        9 => '9',
        10 => 'A',
        11 => 'B',
        12 => 'C',
        13 => 'D',
        14 => 'E',
        _ => 'F',
    }
}

fn is_unreserved(b: u8) -> (r: bool)
    ensures
        r == is_unreserved_byte(b),
{
    (0x30 <= b && b <= 0x39) || (0x41 <= b && b <= 0x5a) || (0x61 <= b && b <= 0x7a) || b == 0x2d
        || b == 0x2e || b == 0x5f || b == 0x7e
}

/// Percent-encodes a string, byte by byte over its UTF-8 form.
pub fn encode(s: &str) -> (r: String)
    ensures
        r@ == enc_str(s@),
{
    let bytes = s.as_bytes_vec();
    let mut out = String::new();
    let n = bytes.len();
    for k in 0..n
        invariant
            n == bytes@.len(),
            bytes@ == encode_utf8(s@),
            out@ == enc_bytes(bytes@.take(k as int)),
    {
        let b = bytes[k];
        if is_unreserved(b) {
            push_char(&mut out, b as char);
        } else {
            proof {
                assert(b >> 4 < 16 && b & 0xf < 16) by (bit_vector);
            }
            push_char(&mut out, '%');
            push_char(&mut out, hex_char(b >> 4));
            push_char(&mut out, hex_char(b & 0xf));
        }
        proof {
            lemma_enc_bytes_push(bytes@.take(k as int), b);
            assert(bytes@.take(k + 1) =~= bytes@.take(k as int).push(b));
            assert(out@ =~= enc_bytes(bytes@.take(k + 1)));
        }
    }
    proof {
        assert(bytes@.take(n as int) =~= bytes@);
    }
    out
}

/// Collects the characters of a string into a vector.
pub fn chars_of(s: &str) -> (r: Vec<char>)
    ensures
        r@ == s@,
{
    let n = s.unicode_len();
    let mut out: Vec<char> = Vec::new();
    for k in 0..n
        invariant
            n == s@.len(),
            out@ == s@.take(k as int),
    {
        out.push(s.get_char(k));
        proof {
            assert(out@ =~= s@.take(k + 1));
        }
    }
    proof {
        assert(s@.take(n as int) =~= s@);
    }
    out
}

fn hex_val(c: char) -> (d: u8)
    requires
        is_hex_char(c),
    ensures
        d == spec_hex_val(c),
        d < 16,
{
    let u = c as u32;
    if 0x30 <= u && u <= 0x39 {
        (u - 0x30) as u8
    } else if 0x41 <= u && u <= 0x46 {
        (u - 0x41 + 10) as u8
    } else {
        (u - 0x61 + 10) as u8
    }
}

fn is_hex(c: char) -> (r: bool)
    ensures
        r == is_hex_char(c),
{
    let u = c as u32;
    (0x30 <= u && u <= 0x39) || (0x41 <= u && u <= 0x46) || (0x61 <= u && u <= 0x66)
}

/// Percent-decodes a slice of characters back to bytes.
/// `None` on a malformed escape or a non-ASCII character.
pub(crate) fn decode_chars_exec(cs: &Vec<char>, from: usize, to: usize) -> (r: Option<Vec<u8>>)
    requires
        from <= to <= cs@.len(),
    ensures
        match r {
            Some(v) => dec_chars(cs@.subrange(from as int, to as int)) == Some(v@),
            None => dec_chars(cs@.subrange(from as int, to as int)) is None,
        },
{
    let mut out: Vec<u8> = Vec::new();
    let mut k = from;
    let ghost whole = cs@.subrange(from as int, to as int);
    while k < to
        invariant
            from <= k <= to <= cs@.len(),
            whole == cs@.subrange(from as int, to as int),
            dec_chars(whole) == match dec_chars(cs@.subrange(k as int, to as int)) {
                Some(rest) => Some(out@ + rest),
                None => None::<Seq<u8>>,
            },
        decreases to - k,
    {
        let ghost pre = cs@.subrange(k as int, to as int);
        let c = cs[k];
        proof {
            assert(pre[0] == cs@[k as int]);
        }
        if c == '%' {
            if to - k >= 3 {
                let h1 = cs[k + 1];
                let h2 = cs[k + 2];
                proof {
                    assert(pre[1] == cs@[k + 1]);
                    assert(pre[2] == cs@[k + 2]);
                }
                if is_hex(h1) && is_hex(h2) {
                    let v1 = hex_val(h1);
                    let v2 = hex_val(h2);
                    out.push(v1 * 16 + v2);
                    proof {
                        assert(pre.skip(3) =~= cs@.subrange(k + 3, to as int));
                    }
                    k = k + 3;
                } else {
                    proof {
                        assert(dec_chars(pre) is None);
                    }
                    return None;
                }
            } else {
                proof {
                    assert(pre.len() < 3);
                    assert(dec_chars(pre) is None);
                }
                return None;
            }
        } else {
            let u = c as u32;
            if u < 0x80 {
                out.push(c as u8);
                proof {
                    assert(pre.skip(1) =~= cs@.subrange(k + 1, to as int));
                }
                k = k + 1;
            } else {
                proof {
                    assert(dec_chars(pre) is None);
                }
                return None;
            }
        }
    }
    proof {
        assert(cs@.subrange(k as int, to as int).len() == 0);
        assert(dec_chars(cs@.subrange(k as int, to as int)) == Some(Seq::<u8>::empty()));
        assert(out@ + Seq::<u8>::empty() =~= out@);
    }
    Some(out)
}

/// Percent-decodes a string.  `None` on a malformed escape, a non-ASCII
/// character, or decoded bytes that are not valid UTF-8.
pub fn decode(s: &str) -> (r: Option<String>)
    ensures
        match r {
            Some(t) => dec_str(s@) == Some(t@),
            None => dec_str(s@) is None,
        },
{
    let cs = chars_of(s);
    let n = cs.len();
    proof {
        assert(cs@.subrange(0, n as int) =~= s@);
    }
    match decode_chars_exec(&cs, 0, n) {
        Some(bytes) => string_from_utf8(bytes),
        None => None,
    }
}

} // verus!
