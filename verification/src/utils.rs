//! Parameter sets: ordered key/value pairs with unique keys, the query-string
//! encoder over them, and the merge that reconciles caller-supplied
//! parameters with an operation's fixed defaults.
//!
//! The merge direction is deliberate and pinned down by
//! [`lemma_merge_default_wins`]: a default value always overwrites a
//! caller-supplied value for the same key.

use crate::codec::chars_of;
use crate::codec::dec_str;
use crate::codec::decode_chars_exec;
use crate::codec::enc_str;
use crate::codec::encode;
use crate::codec::lemma_dec_str_enc_str;
use crate::codec::lemma_enc_bytes_safe;
use crate::codec::qs_safe_char;
use crate::strutil::find_char;
use crate::strutil::join_char;
use crate::strutil::lemma_find_char_is;
use crate::strutil::lemma_join_char_push;
use crate::strutil::push_char;
use crate::strutil::str_eq;
use crate::strutil::string_from_utf8;
use vstd::prelude::*;
use vstd::string::StringExecFns;

verus! {

/// A key/value pair as character sequences.
pub type PairView = (Seq<char>, Seq<char>);

/// No two pairs share a key.
pub open spec fn params_wf(ps: Seq<PairView>) -> bool {
    forall|i: int, j: int| 0 <= i < j < ps.len() ==> ps[i].0 != ps[j].0
}

/// Whether some pair carries the given key.
pub open spec fn spec_has_key(ps: Seq<PairView>, k: Seq<char>) -> bool {
    exists|i: int| 0 <= i < ps.len() && ps[i].0 == k
}

/// Value of the first pair carrying the given key.
pub open spec fn spec_get(ps: Seq<PairView>, k: Seq<char>) -> Option<Seq<char>>
    decreases ps.len(),
{
    if ps.len() == 0 {
        None
    } else if ps[0].0 == k {
        Some(ps[0].1)
    } else {
        spec_get(ps.drop_first(), k)
    }
}

/// Insertion with overwrite: replaces the value of the first pair carrying
/// the key, or appends a new pair.
pub open spec fn insert_pair(ps: Seq<PairView>, k: Seq<char>, v: Seq<char>) -> Seq<PairView>
    decreases ps.len(),
{
    if ps.len() == 0 {
        seq![(k, v)]
    } else if ps[0].0 == k {
        seq![(k, v)] + ps.drop_first()
    } else {
        seq![ps[0]] + insert_pair(ps.drop_first(), k, v)
    }
}

/// The merge of caller parameters with defaults: every default is inserted,
/// overwriting any caller value under the same key.
pub open spec fn merge_spec(caller: Seq<PairView>, defaults: Seq<PairView>) -> Seq<PairView>
    decreases defaults.len(),
{
    if defaults.len() == 0 {
        caller
    } else {
        merge_spec(insert_pair(caller, defaults[0].0, defaults[0].1), defaults.drop_first())
    }
}

/// A set of request parameters: ordered key/value pairs.
///
/// Insertion keeps keys unique; iteration order is the insertion order, but
/// no consumer depends on it.
#[derive(Debug)]
pub struct Params {
    pub pairs: Vec<(String, String)>,
}

/// Pairwise equality of two parameter sets, by character content.
fn params_eq(a: &Params, b: &Params) -> (r: bool)
    ensures
        r == (a@ == b@),
{
    let n = a.pairs.len();
    if n != b.pairs.len() {
        proof {
            assert(a@.len() != b@.len());
        }
        return false;
    }
    let mut i: usize = 0;
    while i < n
        invariant
            0 <= i <= n,
            n == a.pairs@.len(),
            n == b.pairs@.len(),
            forall|j: int| 0 <= j < i ==> a@[j] == b@[j],
        decreases n - i,
    {
        let keys_equal = str_eq(a.pairs[i].0.as_str(), b.pairs[i].0.as_str());
        let vals_equal = str_eq(a.pairs[i].1.as_str(), b.pairs[i].1.as_str());
        if !(keys_equal && vals_equal) {
            proof {
                assert(a@[i as int] != b@[i as int]);
            }
            return false;
        }
        proof {
            assert(a@[i as int] == b@[i as int]);
        }
        i = i + 1;
    }
    proof {
        assert(a@ =~= b@);
    }
    true
}

impl PartialEq for Params {
    fn eq(&self, other: &Params) -> (r: bool) {
        params_eq(self, other)
    }
}

impl vstd::std_specs::cmp::PartialEqSpecImpl for Params {
    open spec fn obeys_eq_spec() -> bool {
        true
    }

    open spec fn eq_spec(&self, other: &Params) -> bool {
        self@ == other@
    }
}

impl View for Params {
    type V = Seq<PairView>;

    open spec fn view(&self) -> Seq<PairView> {
        self.pairs@.map_values(|p: (String, String)| (p.0@, p.1@))
    }
}

proof fn lemma_insert_at(ps: Seq<PairView>, k: Seq<char>, v: Seq<char>, i: int)
    requires
        0 <= i < ps.len(),
        ps[i].0 == k,
        forall|j: int| 0 <= j < i ==> ps[j].0 != k,
    ensures
        insert_pair(ps, k, v) == ps.update(i, (k, v)),
    decreases ps.len(),
{
    if i == 0 {
        assert(insert_pair(ps, k, v) == seq![(k, v)] + ps.drop_first());
        assert(seq![(k, v)] + ps.drop_first() =~= ps.update(0, (k, v)));
    } else {
        assert(ps[0].0 != k);
        lemma_insert_at(ps.drop_first(), k, v, i - 1);
        assert(seq![ps[0]] + ps.drop_first().update(i - 1, (k, v)) =~= ps.update(i, (k, v)));
    }
}

proof fn lemma_insert_fresh(ps: Seq<PairView>, k: Seq<char>, v: Seq<char>)
    requires
        forall|j: int| 0 <= j < ps.len() ==> ps[j].0 != k,
    ensures
        insert_pair(ps, k, v) == ps.push((k, v)),
    decreases ps.len(),
{
    if ps.len() == 0 {
        assert(insert_pair(ps, k, v) =~= ps.push((k, v)));
    } else {
        lemma_insert_fresh(ps.drop_first(), k, v);
        assert(seq![ps[0]] + ps.drop_first().push((k, v)) =~= ps.push((k, v)));
    }
}

/// Insertion preserves key uniqueness.
pub proof fn lemma_insert_wf(ps: Seq<PairView>, k: Seq<char>, v: Seq<char>)
    requires
        params_wf(ps),
    ensures
        params_wf(insert_pair(ps, k, v)),
    decreases ps.len(),
{
    if ps.len() == 0 {
    } else if ps[0].0 == k {
        let r = seq![(k, v)] + ps.drop_first();
        assert forall|i: int, j: int| 0 <= i < j < r.len() implies r[i].0 != r[j].0 by {
            if i == 0 {
                assert(r[j] == ps[j]);
                assert(ps[0].0 != ps[j].0);
            } else {
                assert(r[i] == ps[i] && r[j] == ps[j]);
            }
        }
    } else {
        lemma_insert_wf(ps.drop_first(), k, v);
        let r = seq![ps[0]] + insert_pair(ps.drop_first(), k, v);
        assert forall|i: int, j: int| 0 <= i < j < r.len() implies r[i].0 != r[j].0 by {
            if i == 0 {
                lemma_keys_of_insert(ps.drop_first(), k, v, j - 1);
            }
        }
    }
}

/// Every key of an inserted set is an old key or the inserted key.
proof fn lemma_keys_of_insert(ps: Seq<PairView>, k: Seq<char>, v: Seq<char>, j: int)
    requires
        0 <= j < insert_pair(ps, k, v).len(),
    ensures
        insert_pair(ps, k, v)[j].0 == k || spec_has_key(ps, insert_pair(ps, k, v)[j].0),
    decreases ps.len(),
{
    if ps.len() == 0 {
    } else if ps[0].0 == k {
        if j > 0 {
            assert(insert_pair(ps, k, v)[j] == ps[j]);
        }
    } else {
        if j > 0 {
            lemma_keys_of_insert(ps.drop_first(), k, v, j - 1);
            let key = insert_pair(ps, k, v)[j].0;
            if key != k {
                let i = choose|i: int|
                    0 <= i < ps.drop_first().len() && ps.drop_first()[i].0 == key;
                assert(ps[i + 1].0 == key);
            }
        }
    }
}

/// Looking up the inserted key finds the inserted value; other keys are
/// unaffected.
pub proof fn lemma_insert_get(ps: Seq<PairView>, k: Seq<char>, v: Seq<char>, q: Seq<char>)
    ensures
        q == k ==> spec_get(insert_pair(ps, k, v), q) == Some(v),
        q != k ==> spec_get(insert_pair(ps, k, v), q) == spec_get(ps, q),
    decreases ps.len(),
{
    if ps.len() == 0 {
        let r = insert_pair(ps, k, v);
        assert(r == seq![(k, v)]);
        assert(r[0] == (k, v));
        assert(r.drop_first() =~= Seq::<PairView>::empty());
        if q != k {
            assert(spec_get(r, q) == spec_get(r.drop_first(), q));
            assert(spec_get(Seq::<PairView>::empty(), q) is None);
        }
    } else if ps[0].0 == k {
        let r = seq![(k, v)] + ps.drop_first();
        assert(r[0] == (k, v));
        assert(r.drop_first() =~= ps.drop_first());
        if q != k {
            assert(spec_get(r, q) == spec_get(ps.drop_first(), q));
            assert(spec_get(ps, q) == spec_get(ps.drop_first(), q));
        }
    } else {
        lemma_insert_get(ps.drop_first(), k, v, q);
        let r = seq![ps[0]] + insert_pair(ps.drop_first(), k, v);
        assert(r[0] == ps[0]);
        assert(r.drop_first() =~= insert_pair(ps.drop_first(), k, v));
        if q == ps[0].0 {
            assert(spec_get(r, q) == Some(ps[0].1));
        } else {
            assert(spec_get(r, q) == spec_get(insert_pair(ps.drop_first(), k, v), q));
            assert(spec_get(ps, q) == spec_get(ps.drop_first(), q));
        }
    }
}

impl Params {
    /// The empty parameter set.
    pub fn new() -> (r: Params)
        ensures
            r@ == Seq::<PairView>::empty(),
            params_wf(r@),
    {
        let r = Params { pairs: Vec::new() };
        proof {
            assert(r@ =~= Seq::<PairView>::empty());
        }
        r
    }

    /// Number of pairs.
    pub fn len(&self) -> (n: usize)
        ensures
            n == self@.len(),
    {
        self.pairs.len()
    }

    /// Inserts a pair, overwriting the value of an existing pair with the
    /// same key; unique keys stay unique.
    pub fn insert(&mut self, k: String, v: String)
        ensures
            final(self)@ == insert_pair(old(self)@, k@, v@),
            params_wf(old(self)@) ==> params_wf(final(self)@),
    {
        proof {
            if params_wf(self@) {
                lemma_insert_wf(self@, k@, v@);
            }
        }
        let n = self.pairs.len();
        let ghost ps = self@;
        let mut i: usize = 0;
        while i < n
            invariant
                0 <= i <= n,
                n == self.pairs@.len(),
                ps == self@,
                ps == old(self)@,
                forall|j: int| 0 <= j < i ==> ps[j].0 != k@,
            decreases n - i,
        {
            if str_eq(self.pairs[i].0.as_str(), k.as_str()) {
                proof {
                    lemma_insert_at(ps, k@, v@, i as int);
                }
                self.pairs[i] = (k, v);
                proof {
                    assert(self@ =~= ps.update(i as int, (k@, v@)));
                }
                return ;
            }
            i = i + 1;
        }
        proof {
            lemma_insert_fresh(ps, k@, v@);
        }
        self.pairs.push((k, v));
        proof {
            assert(self@ =~= ps.push((k@, v@)));
        }
    }

    /// Builds a parameter set by inserting the given pairs in order: a
    /// later pair overwrites an earlier one under the same key, and the
    /// result has unique keys.
    pub fn from_pairs(v: Vec<(String, String)>) -> (r: Params)
        ensures
            r@ == spec_from_pairs(v@.map_values(|p: (String, String)| (p.0@, p.1@))),
            params_wf(r@),
    {
        let ghost pvs = v@.map_values(|p: (String, String)| (p.0@, p.1@));
        let mut r = Params::new();
        let n = v.len();
        let mut i: usize = 0;
        let mut v = v;
        proof {
            assert(pvs.take(0) =~= Seq::<PairView>::empty());
        }
        while i < n
            invariant
                0 <= i <= n,
                n == v@.len(),
                pvs == v@.map_values(|p: (String, String)| (p.0@, p.1@)),
                r@ == spec_from_pairs(pvs.take(i as int)),
                params_wf(r@),
            decreases n - i,
        {
            let (k, val) = (v[i].0.clone(), v[i].1.clone());
            r.insert(k, val);
            proof {
                assert(pvs.take(i + 1) =~= pvs.take(i as int).push(pvs[i as int]));
                lemma_spec_from_pairs_push(pvs.take(i as int), pvs[i as int]);
            }
            i = i + 1;
        }
        proof {
            assert(pvs.take(n as int) =~= pvs);
        }
        r
    }

    /// Looks a key up, returning a copy of its value.
    pub fn get(&self, k: &str) -> (r: Option<String>)
        ensures
            match r {
                Some(v) => spec_get(self@, k@) == Some(v@),
                None => spec_get(self@, k@) is None,
            },
    {
        let n = self.pairs.len();
        let mut i: usize = 0;
        while i < n
            invariant
                0 <= i <= n,
                n == self.pairs@.len(),
                forall|j: int| 0 <= j < i ==> self@[j].0 != k@,
            decreases n - i,
        {
            if str_eq(self.pairs[i].0.as_str(), k) {
                proof {
                    lemma_get_at(self@, k@, i as int);
                }
                return Some(self.pairs[i].1.clone());
            }
            i = i + 1;
        }
        proof {
            lemma_get_absent(self@, k@);
        }
        None
    }

    /// Whether a pair with the given key is present.
    pub fn contains_key(&self, k: &str) -> (r: bool)
        ensures
            r == (spec_get(self@, k@) is Some),
    {
        self.get(k).is_some()
    }
}

/// The set built from a sequence of pairs by insertion in order.
pub open spec fn spec_from_pairs(pvs: Seq<PairView>) -> Seq<PairView>
    decreases pvs.len(),
{
    if pvs.len() == 0 {
        Seq::<PairView>::empty()
    } else {
        insert_pair(spec_from_pairs(pvs.drop_last()), pvs.last().0, pvs.last().1)
    }
}

proof fn lemma_spec_from_pairs_push(pvs: Seq<PairView>, p: PairView)
    ensures
        spec_from_pairs(pvs.push(p)) == insert_pair(spec_from_pairs(pvs), p.0, p.1),
{
    assert(pvs.push(p).drop_last() =~= pvs);
    assert(pvs.push(p).last() == p);
}

proof fn lemma_get_at(ps: Seq<PairView>, k: Seq<char>, i: int)
    requires
        0 <= i < ps.len(),
        ps[i].0 == k,
        forall|j: int| 0 <= j < i ==> ps[j].0 != k,
    ensures
        spec_get(ps, k) == Some(ps[i].1),
    decreases i,
{
    if i > 0 {
        lemma_get_at(ps.drop_first(), k, i - 1);
    }
}

proof fn lemma_get_absent(ps: Seq<PairView>, k: Seq<char>)
    requires
        forall|j: int| 0 <= j < ps.len() ==> ps[j].0 != k,
    ensures
        spec_get(ps, k) is None,
    decreases ps.len(),
{
    if ps.len() > 0 {
        lemma_get_absent(ps.drop_first(), k);
    }
}

/// A key is present exactly when a lookup finds a value.
pub proof fn lemma_has_key_get(ps: Seq<PairView>, k: Seq<char>)
    ensures
        spec_has_key(ps, k) <==> spec_get(ps, k) is Some,
    decreases ps.len(),
{
    if ps.len() > 0 {
        lemma_has_key_get(ps.drop_first(), k);
        if ps[0].0 != k {
            assert forall|i: int| 0 <= i < ps.len() && ps[i].0 == k implies spec_has_key(
                ps.drop_first(),
                k,
            ) by {
                assert(ps.drop_first()[i - 1].0 == k);
            }
        }
    }
}

/// The parameters to start from: the caller's, or none.
pub fn get_opts(options: Option<Params>) -> (r: Params)
    ensures
        match options {
            Some(p) => r == p,
            None => r@ == Seq::<PairView>::empty(),
        },
{
    match options {
        Some(o) => o,
        None => Params::new(),
    }
}

/// Merges defaults into the caller's parameters.  A default overwrites any
/// caller value under the same key.
pub fn merge_params(caller: Params, defaults: &Params) -> (r: Params)
    ensures
        r@ == merge_spec(caller@, defaults@),
        params_wf(caller@) ==> params_wf(r@),
{
    let ghost cv = caller@;
    let ghost dv = defaults@;
    let mut out = caller;
    let n = defaults.pairs.len();
    let mut i: usize = 0;
    proof {
        assert(dv.skip(0) =~= dv);
    }
    while i < n
        invariant
            0 <= i <= n,
            n == defaults.pairs@.len(),
            dv == defaults@,
            merge_spec(cv, dv) == merge_spec(out@, dv.skip(i as int)),
            params_wf(cv) ==> params_wf(out@),
        decreases n - i,
    {
        let k = defaults.pairs[i].0.clone();
        let v = defaults.pairs[i].1.clone();
        let ghost before = out@;
        out.insert(k, v);
        proof {
            let rest = dv.skip(i as int);
            assert(rest[0] == dv[i as int]);
            assert(rest.drop_first() =~= dv.skip(i + 1));
            assert(merge_spec(before, rest) == merge_spec(
                insert_pair(before, dv[i as int].0, dv[i as int].1),
                dv.skip(i + 1),
            ));
        }
        i = i + 1;
    }
    proof {
        assert(dv.skip(n as int) =~= Seq::<PairView>::empty());
    }
    out
}

/// Encoded form of one pair: encoded key, `=`, encoded value.
pub open spec fn pair_str(p: PairView) -> Seq<char> {
    enc_str(p.0) + seq!['='] + enc_str(p.1)
}

/// The query string of a parameter sequence: encoded pairs joined by `&`.
pub open spec fn qs_of(ps: Seq<PairView>) -> Seq<char> {
    join_char(ps.map_values(|p: PairView| pair_str(p)), '&')
}

/// Encodes a parameter set as a query string.  Each pair appears exactly
/// once, in insertion order; the empty set gives the empty string.
pub fn params2qs(params: &Params) -> (r: String)
    ensures
        r@ == qs_of(params@),
{
    let ghost pstrs = params@.map_values(|p: PairView| pair_str(p));
    let mut r = String::new();
    let n = params.pairs.len();
    for i in 0..n
        invariant
            n == params.pairs@.len(),
            pstrs == params@.map_values(|p: PairView| pair_str(p)),
            pstrs.len() == n,
            i == 0 ==> r@ == Seq::<char>::empty(),
            i > 0 ==> r@ == join_char(pstrs.take(i as int), '&'),
    {
        if i > 0 {
            push_char(&mut r, '&');
        }
        let ghost before = r@;
        let ek = encode(params.pairs[i].0.as_str());
        r.append(ek.as_str());
        push_char(&mut r, '=');
        let ev = encode(params.pairs[i].1.as_str());
        r.append(ev.as_str());
        proof {
            assert(params@[i as int] == (params.pairs@[i as int].0@, params.pairs@[i as int].1@));
            assert(r@ =~= before + pair_str(params@[i as int]));
            assert(pstrs[i as int] == pair_str(params@[i as int]));
            if i == 0 {
                assert(pstrs.take(1)[0] == pstrs[0]);
                assert(r@ =~= join_char(pstrs.take(1), '&'));
            } else {
                lemma_join_char_push(pstrs.take(i as int), '&', pstrs[i as int]);
                assert(pstrs.take(i + 1) =~= pstrs.take(i as int).push(pstrs[i as int]));
                assert(r@ =~= join_char(pstrs.take(i + 1), '&'));
            }
        }
    }
    proof {
        assert(pstrs.take(n as int) =~= pstrs);
        if n == 0 {
            assert(r@ =~= join_char(pstrs, '&'));
        }
    }
    r
}

/// One `key=value` segment of a query string, decoded.  `None` when the
/// separator is missing or either side fails to decode.
pub open spec fn parse_pair(part: Seq<char>) -> Option<PairView> {
    let j = find_char(part, '=');
    if j == part.len() {
        None
    } else {
        match (dec_str(part.take(j as int)), dec_str(part.skip(j as int + 1))) {
            (Some(k), Some(v)) => Some((k, v)),
            _ => None,
        }
    }
}

/// The pairs of a query string: `&`-separated `key=value` segments, each
/// decoded.  The empty string carries no pairs; every segment must parse.
pub open spec fn parse_qs_items(q: Seq<char>) -> Option<Seq<PairView>>
    decreases q.len(),
{
    if q.len() == 0 {
        Some(Seq::<PairView>::empty())
    } else {
        let i = find_char(q, '&');
        match parse_pair(q.take(i as int)) {
            None => None,
            Some(p) => if i == q.len() {
                Some(seq![p])
            } else if i + 1 == q.len() {
                None
            } else if i < q.len() {
                match parse_qs_items(q.skip(i as int + 1)) {
                    Some(rest) => Some(seq![p] + rest),
                    None => None,
                }
            } else {
                None
            },
        }
    }
}

/// No character of an encoded pair is `&`, and its first `=` sits exactly
/// between the encoded key and the encoded value.
proof fn lemma_pair_str_shape(p: PairView)
    ensures
        forall|k: int| 0 <= k < pair_str(p).len() ==> pair_str(p)[k] != '&',
        find_char(pair_str(p), '=') == enc_str(p.0).len(),
        pair_str(p).len() == enc_str(p.0).len() + 1 + enc_str(p.1).len(),
        pair_str(p).take(enc_str(p.0).len() as int) == enc_str(p.0),
        pair_str(p).skip(enc_str(p.0).len() as int + 1) == enc_str(p.1),
{
    let ek = enc_str(p.0);
    let ev = enc_str(p.1);
    let s = pair_str(p);
    lemma_enc_bytes_safe(vstd::utf8::encode_utf8(p.0));
    lemma_enc_bytes_safe(vstd::utf8::encode_utf8(p.1));
    assert(forall|k: int| 0 <= k < ek.len() ==> qs_safe_char(#[trigger] ek[k]));
    assert(forall|k: int| 0 <= k < ev.len() ==> qs_safe_char(#[trigger] ev[k]));
    assert forall|k: int| 0 <= k < s.len() implies s[k] != '&' by {
        if k < ek.len() {
            assert(s[k] == ek[k]);
        } else if k == ek.len() {
            assert(s[k] == '=');
        } else {
            assert(s[k] == ev[k - ek.len() - 1]);
        }
    }
    assert forall|k: int| 0 <= k < ek.len() implies s[k] != '=' by {
        assert(s[k] == ek[k]);
    }
    assert(s[ek.len() as int] == '=');
    lemma_find_char_is(s, '=', ek.len() as int);
    assert(s.take(ek.len() as int) =~= ek);
    assert(s.skip(ek.len() as int + 1) =~= ev);
}

/// Parsing inverts encoding on one pair.
proof fn lemma_parse_pair_str(p: PairView)
    ensures
        parse_pair(pair_str(p)) == Some(p),
{
    lemma_pair_str_shape(p);
    lemma_dec_str_enc_str(p.0);
    lemma_dec_str_enc_str(p.1);
}

/// Round trip of the query-string encoding: parsing the query string of any
/// parameter sequence recovers exactly the same pairs, and with them the
/// same key/value multiset.
pub proof fn lemma_parse_qs_of(ps: Seq<PairView>)
    ensures
        parse_qs_items(qs_of(ps)) == Some(ps),
    decreases ps.len(),
{
    let pstrs = ps.map_values(|p: PairView| pair_str(p));
    let q = qs_of(ps);
    if ps.len() == 0 {
        assert(q.len() == 0);
        assert(ps =~= Seq::<PairView>::empty());
    } else if ps.len() == 1 {
        assert(q == pstrs[0]);
        lemma_pair_str_shape(ps[0]);
        assert(forall|k: int| 0 <= k < q.len() ==> q[k] != '&');
        lemma_find_char_is(q, '&', q.len() as int);
        assert(q.take(q.len() as int) =~= q);
        lemma_parse_pair_str(ps[0]);
        assert(q.len() > 0);
        assert(parse_qs_items(q) == Some(seq![ps[0]]));
        assert(seq![ps[0]] =~= ps);
    } else {
        let rest = ps.drop_first();
        let head = pair_str(ps[0]);
        let tail = qs_of(rest);
        assert(pstrs[0] == head);
        assert(pstrs.drop_first() =~= rest.map_values(|p: PairView| pair_str(p)));
        assert(q == head + seq!['&'] + tail);
        lemma_pair_str_shape(ps[0]);
        lemma_qs_of_len(rest);
        assert(tail.len() >= 1);
        assert forall|k: int| 0 <= k < head.len() implies q[k] != '&' by {
            assert(q[k] == head[k]);
        }
        assert(q[head.len() as int] == '&');
        lemma_find_char_is(q, '&', head.len() as int);
        let i = find_char(q, '&');
        assert(i == head.len());
        assert(q.take(i as int) =~= head);
        lemma_parse_pair_str(ps[0]);
        assert(i + 1 < q.len());
        assert(q.skip(i as int + 1) =~= tail);
        lemma_parse_qs_of(rest);
        assert(parse_qs_items(q) == Some(seq![ps[0]] + rest));
        assert(seq![ps[0]] + rest =~= ps);
    }
}

/// The query string of a non-empty parameter sequence is non-empty.
proof fn lemma_qs_of_len(ps: Seq<PairView>)
    requires
        ps.len() > 0,
    ensures
        qs_of(ps).len() >= 1,
{
    let pstrs = ps.map_values(|p: PairView| pair_str(p));
    lemma_pair_str_shape(ps[0]);
    assert(pstrs[0] == pair_str(ps[0]));
    assert(pair_str(ps[0]).len() >= 1);
    if ps.len() == 1 {
        assert(qs_of(ps) == pstrs[0]);
    } else {
        assert(qs_of(ps) == pstrs[0] + seq!['&'] + join_char(pstrs.drop_first(), '&'));
    }
}

/// Round trip at the parameter-set level: parsing the query string of any
/// parameter set gives back exactly its pairs — in particular the same
/// key/value multiset.
pub proof fn lemma_params_round_trip(p: Params)
    ensures
        parse_qs_items(qs_of(p@)) == Some(p@),
        parse_qs_items(qs_of(p@)) matches Some(ps) && ps.to_multiset() == p@.to_multiset(),
{
    lemma_parse_qs_of(p@);
}

fn parse_segment(cs: &Vec<char>, start: usize, end: usize) -> (r: Option<(String, String)>)
    requires
        start <= end <= cs@.len(),
    ensures
        match r {
            Some(p) => parse_pair(cs@.subrange(start as int, end as int)) == Some((p.0@, p.1@)),
            None => parse_pair(cs@.subrange(start as int, end as int)) is None,
        },
{
    let ghost seg = cs@.subrange(start as int, end as int);
    let mut e = start;
    while e < end && cs[e] != '='
        invariant
            start <= e <= end <= cs@.len(),
            seg == cs@.subrange(start as int, end as int),
            forall|k: int| start <= k < e ==> cs@[k] != '=',
        decreases end - e,
    {
        e = e + 1;
    }
    proof {
        assert(forall|k: int| 0 <= k < e - start ==> seg[k] == cs@[k + start] && seg[k] != '=');
        if e < end {
            assert(seg[e - start] == cs@[e as int]);
        }
        lemma_find_char_is(seg, '=', e - start);
    }
    if e == end {
        return None;
    }
    let kb = match decode_chars_exec(cs, start, e) {
        Some(b) => b,
        None => {
            proof {
                assert(seg.take(e - start) =~= cs@.subrange(start as int, e as int));
            }
            return None;
        },
    };
    proof {
        assert(seg.take(e - start) =~= cs@.subrange(start as int, e as int));
    }
    let ks = match string_from_utf8(kb) {
        Some(s) => s,
        None => {
            return None;
        },
    };
    let vb = match decode_chars_exec(cs, e + 1, end) {
        Some(b) => b,
        None => {
            proof {
                assert(seg.skip(e - start + 1) =~= cs@.subrange(e + 1, end as int));
            }
            return None;
        },
    };
    proof {
        assert(seg.skip(e - start + 1) =~= cs@.subrange(e + 1, end as int));
    }
    let vs = match string_from_utf8(vb) {
        Some(s) => s,
        None => {
            return None;
        },
    };
    Some((ks, vs))
}

/// View of a vector of string pairs as pair views.
pub open spec fn pair_views(ps: Seq<(String, String)>) -> Seq<PairView> {
    ps.map_values(|p: (String, String)| (p.0@, p.1@))
}

fn parse_items(cs: &Vec<char>, start: usize) -> (r: Option<Vec<(String, String)>>)
    requires
        start <= cs@.len(),
    ensures
        match r {
            Some(v) => parse_qs_items(cs@.skip(start as int)) == Some(pair_views(v@)),
            None => parse_qs_items(cs@.skip(start as int)) is None,
        },
    decreases cs@.len() - start,
{
    let ghost q = cs@.skip(start as int);
    let n = cs.len();
    if start == n {
        let r: Vec<(String, String)> = Vec::new();
        proof {
            assert(q.len() == 0);
            assert(pair_views(r@) =~= Seq::<PairView>::empty());
        }
        return Some(r);
    }
    let mut j = start;
    while j < n && cs[j] != '&'
        invariant
            start <= j <= n,
            n == cs@.len(),
            forall|k: int| start <= k < j ==> cs@[k] != '&',
        decreases n - j,
    {
        j = j + 1;
    }
    proof {
        assert(forall|k: int| 0 <= k < j - start ==> q[k] == cs@[k + start] && q[k] != '&');
        if j < n {
            assert(q[j - start] == cs@[j as int]);
        }
        lemma_find_char_is(q, '&', j - start);
        assert(q.take(j - start) =~= cs@.subrange(start as int, j as int));
    }
    let p = match parse_segment(cs, start, j) {
        Some(p) => p,
        None => {
            return None;
        },
    };
    if j == n {
        let mut out: Vec<(String, String)> = Vec::new();
        out.push(p);
        proof {
            let pv = (p.0@, p.1@);
            assert(pair_views(out@) =~= seq![pv]);
        }
        return Some(out);
    }
    if j + 1 == n {
        return None;
    }
    proof {
        assert(q.skip(j - start + 1) =~= cs@.skip(j + 1));
    }
    match parse_items(cs, j + 1) {
        Some(mut rest) => {
            let ghost restv = rest@;
            rest.insert(0, p);
            proof {
                let pv = (p.0@, p.1@);
                assert(rest@ =~= seq![p] + restv);
                assert(pair_views(rest@) =~= seq![pv] + pair_views(restv));
            }
            Some(rest)
        },
        None => None,
    }
}

/// Parses a query string back into a parameter set: `&`-separated
/// `key=value` segments, with key and value percent-decoded.
pub fn parse_qs(s: &str) -> (r: Option<Params>)
    ensures
        match r {
            Some(p) => parse_qs_items(s@) == Some(p@),
            None => parse_qs_items(s@) is None,
        },
{
    let cs = chars_of(s);
    proof {
        assert(cs@.skip(0) =~= s@);
    }
    match parse_items(&cs, 0) {
        Some(v) => Some(Params { pairs: v }),
        None => None,
    }
}

/// Merging a single default is one insertion.
pub proof fn lemma_merge_one(c: Seq<PairView>, p: PairView)
    ensures
        merge_spec(c, seq![p]) == insert_pair(c, p.0, p.1),
{
    assert(seq![p][0] == p);
    assert(seq![p].drop_first() =~= Seq::<PairView>::empty());
    assert(merge_spec(c, seq![p]) == merge_spec(
        insert_pair(c, p.0, p.1),
        Seq::<PairView>::empty(),
    ));
    assert(merge_spec(insert_pair(c, p.0, p.1), Seq::<PairView>::empty()) == insert_pair(
        c,
        p.0,
        p.1,
    ));
}

/// Merging two defaults is two insertions, in order.
pub proof fn lemma_merge_two(c: Seq<PairView>, p0: PairView, p1: PairView)
    ensures
        merge_spec(c, seq![p0, p1]) == insert_pair(insert_pair(c, p0.0, p0.1), p1.0, p1.1),
{
    assert(seq![p0, p1].drop_first() =~= seq![p1]);
    lemma_merge_one(insert_pair(c, p0.0, p0.1), p1);
}

/// Two insertions of distinct keys into the empty set, in order.
pub proof fn lemma_two_distinct_pairs(p0: PairView, p1: PairView)
    requires
        p0.0 != p1.0,
    ensures
        insert_pair(insert_pair(Seq::<PairView>::empty(), p0.0, p0.1), p1.0, p1.1) == seq![p0, p1],
{
    assert(insert_pair(Seq::<PairView>::empty(), p0.0, p0.1) == seq![p0]);
    let r = insert_pair(seq![p0], p1.0, p1.1);
    assert(seq![p0].drop_first() =~= Seq::<PairView>::empty());
    assert(r == seq![p0] + insert_pair(Seq::<PairView>::empty(), p1.0, p1.1));
    assert(seq![p0] + seq![p1] =~= seq![p0, p1]);
}

/// The merge resolves every key collision toward the default value, never
/// the caller's, and leaves keys without a default at the caller's value.
pub proof fn lemma_merge_default_wins(caller: Seq<PairView>, defaults: Seq<PairView>, k: Seq<char>)
    requires
        params_wf(defaults),
    ensures
        spec_has_key(defaults, k) ==> spec_get(merge_spec(caller, defaults), k) == spec_get(
            defaults,
            k,
        ),
        !spec_has_key(defaults, k) ==> spec_get(merge_spec(caller, defaults), k) == spec_get(
            caller,
            k,
        ),
    decreases defaults.len(),
{
    if defaults.len() == 0 {
        assert(!spec_has_key(defaults, k));
    } else {
        let d0 = defaults[0];
        let rest = defaults.drop_first();
        let c1 = insert_pair(caller, d0.0, d0.1);
        assert(params_wf(rest)) by {
            assert(forall|i: int, j: int|
                0 <= i < j < rest.len() ==> rest[i] == defaults[i + 1] && rest[j] == defaults[j
                    + 1]);
        }
        lemma_merge_default_wins(c1, rest, k);
        lemma_insert_get(caller, d0.0, d0.1, k);
        lemma_has_key_get(rest, k);
        lemma_has_key_get(defaults, k);
        if spec_has_key(defaults, k) {
            if d0.0 == k {
                assert(!spec_has_key(rest, k)) by {
                    if spec_has_key(rest, k) {
                        let i = choose|i: int| 0 <= i < rest.len() && rest[i].0 == k;
                        assert(defaults[i + 1].0 == k);
                        assert(defaults[0].0 == defaults[i + 1].0);
                    }
                }
                assert(spec_get(merge_spec(caller, defaults), k) == spec_get(c1, k));
                assert(spec_get(defaults, k) == Some(d0.1));
            } else {
                assert(spec_has_key(rest, k)) by {
                    let i = choose|i: int| 0 <= i < defaults.len() && defaults[i].0 == k;
                    assert(rest[i - 1].0 == k);
                }
                assert(spec_get(defaults, k) == spec_get(rest, k));
            }
        } else {
            assert(d0.0 != k);
            assert(!spec_has_key(rest, k)) by {
                if spec_has_key(rest, k) {
                    let i = choose|i: int| 0 <= i < rest.len() && rest[i].0 == k;
                    assert(defaults[i + 1].0 == k);
                }
            }
        }
    }
}

} // verus!
