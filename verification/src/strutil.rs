//! Small string helpers shared by the query encoder and the URL builder:
//! byte-level string equality, decimal rendering of identifiers, and the
//! slash-trimming used when a client configuration is normalized.

use vstd::prelude::*;
use vstd::string::StrSliceExecFns;
use vstd::string::StringExecFns;
use vstd::string::StringSliceAdditionalSpecFns;
use vstd::utf8::decode_utf8;
use vstd::utf8::encode_utf8;
use vstd::utf8::encode_utf8_decode_utf8;
use vstd::utf8::encode_utf8_valid_utf8;
use vstd::utf8::valid_utf8;

verus! {

/// Relies on `String::push`: appends exactly the given character.
#[verifier::external_body]
pub(crate) fn push_char(s: &mut String, c: char)
    ensures
        final(s)@ == old(s)@.push(c),
{
    s.push(c);
}

/// Relies on `String::from_utf8`: succeeds exactly on valid UTF-8 input and
/// returns the string whose bytes are the given vector.
#[verifier::external_body]
pub(crate) fn string_from_utf8(v: Vec<u8>) -> (r: Option<String>)
    ensures
        r is Some <==> valid_utf8(v@),
        r matches Some(s) ==> s@ == decode_utf8(v@),
{
    match String::from_utf8(v) {
        Ok(s) => Some(s),
        Err(_) => None,
    }
}

/// Two strings with the same UTF-8 bytes have the same character sequence.
pub proof fn lemma_same_bytes_same_chars(a: Seq<char>, b: Seq<char>)
    requires
        encode_utf8(a) == encode_utf8(b),
    ensures
        a == b,
{
    encode_utf8_decode_utf8(a);
    encode_utf8_decode_utf8(b);
    encode_utf8_valid_utf8(a);
    encode_utf8_valid_utf8(b);
}

/// String equality, decided by comparing UTF-8 bytes.
pub fn str_eq(a: &str, b: &str) -> (r: bool)
    ensures
        r == (a@ == b@),
{
    let av = a.as_bytes_vec();
    let bv = b.as_bytes_vec();
    let r = av == bv;
    proof {
        if r {
            assert(av@ =~= bv@);
            lemma_same_bytes_same_chars(a@, b@);
        } else {
            if a@ == b@ {
                assert(av@ == bv@);
                assert(forall|i: int| 0 <= i < av@.len() ==> av@[i] == bv@[i]);
                assert(false);
            }
        }
    }
    r
}

/// Decimal digit character for a digit value.
pub open spec fn spec_digit_char(d: int) -> char {
    if d == 0 {
        '0'
    } else if d == 1 {
        '1'
    } else if d == 2 {
        '2'
    } else if d == 3 {
        '3'
    } else if d == 4 {
        '4'
    } else if d == 5 {
        '5'
    } else if d == 6 {
        '6'
    } else if d == 7 {
        '7'
    } else if d == 8 {
        '8'
    } else {
        '9'
    }
}

/// Decimal rendering of a natural number, most significant digit first.
pub open spec fn dec_digits(n: nat) -> Seq<char>
    decreases n,
{
    if n < 10 {
        seq![spec_digit_char(n as int)]
    } else {
        dec_digits(n / 10).push(spec_digit_char((n % 10) as int))
    }
}

fn digit_char(d: u8) -> (c: char)
    requires
        d < 10,
    ensures
        c == spec_digit_char(d as int),
{
    match d {
        0 => '0',
        1 => '1',
        2 => '2',
        3 => '3',
        4 => '4',
        5 => '5',
        6 => '6',
        7 => '7',
        8 => '8',
        _ => '9',
    }
}

/// Renders an identifier in decimal, as it appears in a request URL.
pub fn usize_to_string(n: usize) -> (r: String)
    ensures
        r@ == dec_digits(n as nat),
    decreases n,
{
    if n < 10 {
        let mut s = String::new();
        push_char(&mut s, digit_char(n as u8));
        proof {
            assert(s@ =~= dec_digits(n as nat));
        }
        s
    } else {
        let mut s = usize_to_string(n / 10);
        push_char(&mut s, digit_char((n % 10) as u8));
        s
    }
}

/// Single-character join of a sequence of strings, with no trailing
/// separator.
pub open spec fn join_char(parts: Seq<Seq<char>>, sep: char) -> Seq<char>
    decreases parts.len(),
{
    if parts.len() == 0 {
        Seq::<char>::empty()
    } else if parts.len() == 1 {
        parts[0]
    } else {
        parts[0] + seq![sep] + join_char(parts.drop_first(), sep)
    }
}

/// Joining distributes over appending one more part.
pub proof fn lemma_join_char_push(parts: Seq<Seq<char>>, sep: char, x: Seq<char>)
    requires
        parts.len() > 0,
    ensures
        join_char(parts.push(x), sep) == join_char(parts, sep) + seq![sep] + x,
    decreases parts.len(),
{
    if parts.len() == 1 {
        assert(parts.push(x).drop_first() =~= seq![x]);
        assert(parts.push(x)[0] == parts[0]);
        assert(join_char(seq![x], sep) == x);
        assert(join_char(parts.push(x), sep) =~= parts[0] + seq![sep] + x);
        assert(join_char(parts, sep) == parts[0]);
    } else {
        lemma_join_char_push(parts.drop_first(), sep, x);
        assert(parts.push(x).drop_first() =~= parts.drop_first().push(x));
        assert(join_char(parts.push(x), sep) =~= join_char(parts, sep) + seq![sep] + x);
    }
}

/// View of a vector of strings as a sequence of character sequences.
pub open spec fn views_of(parts: Seq<String>) -> Seq<Seq<char>> {
    parts.map_values(|s: String| s@)
}

/// Joins the given strings with a single comma between neighbours.
pub fn join_with_comma(parts: &Vec<String>) -> (r: String)
    ensures
        r@ == join_char(views_of(parts@), ','),
{
    let ghost pviews = views_of(parts@);
    let mut r = String::new();
    let n = parts.len();
    for i in 0..n
        invariant
            n == parts@.len(),
            pviews == views_of(parts@),
            i == 0 ==> r@ == Seq::<char>::empty(),
            i > 0 ==> r@ == join_char(pviews.take(i as int), ','),
    {
        if i > 0 {
            push_char(&mut r, ',');
        }
        r.append(parts[i].as_str());
        proof {
            if i == 0 {
                assert(pviews.take(1)[0] == pviews[0]);
                assert(r@ =~= join_char(pviews.take(1), ','));
            } else {
                lemma_join_char_push(pviews.take(i as int), ',', pviews[i as int]);
                assert(pviews.take(i + 1) =~= pviews.take(i as int).push(pviews[i as int]));
                assert(r@ =~= join_char(pviews.take(i as int), ',') + seq![','] + pviews[i as int]);
            }
        }
    }
    proof {
        assert(pviews.take(n as int) =~= pviews);
        if n == 0 {
            assert(r@ =~= join_char(pviews, ','));
        }
    }
    r
}

/// Index of the first occurrence of a character, or the length if absent.
pub open spec fn find_char(q: Seq<char>, c: char) -> nat
    decreases q.len(),
{
    if q.len() == 0 {
        0
    } else if q[0] == c {
        0
    } else {
        1 + find_char(q.drop_first(), c)
    }
}

/// What `find_char` returns: the unique position with no occurrence before
/// it that either carries the character or is the end.
pub proof fn lemma_find_char_is(q: Seq<char>, c: char, i: int)
    requires
        0 <= i <= q.len(),
        forall|k: int| 0 <= k < i ==> q[k] != c,
        i < q.len() ==> q[i] == c,
    ensures
        find_char(q, c) == i,
    decreases q.len(),
{
    if q.len() == 0 {
    } else if q[0] == c {
        assert(i == 0);
    } else {
        assert(i > 0);
        lemma_find_char_is(q.drop_first(), c, i - 1);
    }
}

/// Bounds and occurrence facts for `find_char`.
pub proof fn lemma_find_char_props(q: Seq<char>, c: char)
    ensures
        find_char(q, c) <= q.len(),
        forall|k: int| 0 <= k < find_char(q, c) ==> q[k] != c,
        find_char(q, c) < q.len() ==> q[find_char(q, c) as int] == c,
    decreases q.len(),
{
    if q.len() > 0 && q[0] != c {
        lemma_find_char_props(q.drop_first(), c);
        assert(forall|k: int|
            1 <= k < find_char(q, c) ==> q[k] == q.drop_first()[k - 1]);
    }
}

/// Removes one trailing slash, if the string ends with one.
pub open spec fn without_trailing_slash(s: Seq<char>) -> Seq<char> {
    if s.len() > 0 && s[s.len() - 1] == '/' {
        s.take(s.len() - 1)
    } else {
        s
    }
}

/// Removes every leading slash.
pub open spec fn trim_leading_slashes(s: Seq<char>) -> Seq<char>
    decreases s.len(),
{
    if s.len() > 0 && s[0] == '/' {
        trim_leading_slashes(s.drop_first())
    } else {
        s
    }
}

/// Removes every trailing slash.
pub open spec fn trim_trailing_slashes(s: Seq<char>) -> Seq<char>
    decreases s.len(),
{
    if s.len() > 0 && s[s.len() - 1] == '/' {
        trim_trailing_slashes(s.drop_last())
    } else {
        s
    }
}

/// Removes every leading and trailing slash.
pub open spec fn trim_slashes(s: Seq<char>) -> Seq<char> {
    trim_trailing_slashes(trim_leading_slashes(s))
}

proof fn lemma_trim_leading_skip(s: Seq<char>, i: int)
    requires
        0 <= i <= s.len(),
        forall|k: int| 0 <= k < i ==> s[k] == '/',
    ensures
        trim_leading_slashes(s) == trim_leading_slashes(s.skip(i)),
    decreases i,
{
    if i == 0 {
        assert(s.skip(0) =~= s);
    } else {
        assert(s[0] == '/');
        assert(s.drop_first() =~= s.skip(1));
        lemma_trim_leading_skip(s.skip(1), i - 1);
        assert(s.skip(1).skip(i - 1) =~= s.skip(i));
    }
}

proof fn lemma_trim_trailing_take(s: Seq<char>, j: int)
    requires
        0 <= j <= s.len(),
        forall|k: int| j <= k < s.len() ==> s[k] == '/',
    ensures
        trim_trailing_slashes(s) == trim_trailing_slashes(s.take(j)),
    decreases s.len() - j,
{
    if j == s.len() {
        assert(s.take(j) =~= s);
    } else {
        assert(s[s.len() - 1] == '/');
        assert(s.drop_last() =~= s.take(s.len() - 1));
        lemma_trim_trailing_take(s.take(s.len() - 1), j);
        assert(s.take(s.len() - 1).take(j) =~= s.take(j));
    }
}

/// Copy of the input with one trailing slash removed, if present.
pub fn strip_one_trailing_slash(s: &str) -> (r: String)
    ensures
        r@ == without_trailing_slash(s@),
{
    let n = s.unicode_len();
    if n > 0 && s.get_char(n - 1) == '/' {
        s.substring_char(0, n - 1).to_owned()
    } else {
        s.to_owned()
    }
}

/// Copy of the input with all leading and trailing slashes removed.
pub fn trim_slash_ends(s: &str) -> (r: String)
    ensures
        r@ == trim_slashes(s@),
{
    let n = s.unicode_len();
    let mut i: usize = 0;
    while i < n && s.get_char(i) == '/'
        invariant
            0 <= i <= n,
            n == s@.len(),
            forall|k: int| 0 <= k < i ==> s@[k] == '/',
        decreases n - i,
    {
        i = i + 1;
    }
    let mut j: usize = n;
    while j > i && s.get_char(j - 1) == '/'
        invariant
            i <= j <= n,
            n == s@.len(),
            forall|k: int| j <= k < n ==> s@[k] == '/',
        decreases j,
    {
        j = j - 1;
    }
    proof {
        lemma_trim_leading_skip(s@, i as int);
        let t = s@.skip(i as int);
        if i < n {
            assert(t[0] == s@[i as int]);
        }
        assert(trim_leading_slashes(s@) == t);
        lemma_trim_trailing_take(t, j - i);
        assert(t.take(j - i) =~= s@.subrange(i as int, j as int));
        if j > i {
            assert(t.take(j - i)[j - i - 1] == s@[j - 1]);
        }
        assert(trim_trailing_slashes(t.take(j - i)) == t.take(j - i));
    }
    s.substring_char(i, j).to_owned()
}

} // verus!
