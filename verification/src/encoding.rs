//! Percent-encoding of query and body parameters.
//!
//! Keys and values are encoded byte-by-byte under the OAuth encode set:
//! every byte outside the unreserved set (ASCII letters, digits, `-`, `.`,
//! `_`, `~`) becomes `%XX` with uppercase hexadecimal digits.  Pairs are
//! joined as `key=value` with `&` between pairs, in input order.

use vstd::prelude::*;

verus! {

/// Bytes that are transmitted without escaping: ASCII letters, digits,
/// `-`, `.`, `_` and `~`.
pub open spec fn is_unreserved(b: u8) -> bool {
    (0x30 <= b <= 0x39) || (0x41 <= b <= 0x5a) || (0x61 <= b <= 0x7a) || b == 0x2d || b == 0x2e
        || b == 0x5f || b == 0x7e
}

/// The uppercase hexadecimal digit for a value below 16.
pub open spec fn hex_digit(n: u8) -> u8
    recommends
        n < 16,
{
    if n < 10 {
        (0x30 + n) as u8
    } else {
        (0x41 + (n - 10)) as u8
    }
}

/// True for ASCII hexadecimal digits, either case.
pub open spec fn is_hex_digit(b: u8) -> bool {
    (0x30 <= b <= 0x39) || (0x41 <= b <= 0x46) || (0x61 <= b <= 0x66)
}

/// The value of an ASCII hexadecimal digit.
pub open spec fn hex_val(b: u8) -> u8
    recommends
        is_hex_digit(b),
{
    if 0x30 <= b <= 0x39 {
        (b - 0x30) as u8
    } else if 0x41 <= b <= 0x46 {
        ((b - 0x41) + 10) as u8
    } else {
        ((b - 0x61) + 10) as u8
    }
}

/// How a single byte appears in an encoded string: itself when unreserved,
/// `%XX` otherwise.
pub open spec fn encode_byte(b: u8) -> Seq<u8> {
    if is_unreserved(b) {
        seq![b]
    } else {
        seq![0x25u8, hex_digit(b / 16), hex_digit(b % 16)]
    }
}

/// The percent-encoding of a byte string.
pub open spec fn pct_encode(s: Seq<u8>) -> Seq<u8>
    decreases s.len(),
{
    if s.len() == 0 {
        Seq::empty()
    } else {
        encode_byte(s[0]) + pct_encode(s.drop_first())
    }
}

/// The reverse of percent-encoding: each `%XX` with two hexadecimal
/// digits becomes the byte it denotes; everything else stays.
pub open spec fn pct_decode(s: Seq<u8>) -> Seq<u8>
    decreases s.len(),
{
    if s.len() == 0 {
        Seq::empty()
    } else if s[0] == 0x25 && s.len() >= 3 && is_hex_digit(s[1]) && is_hex_digit(s[2]) {
        seq![(16 * hex_val(s[1]) + hex_val(s[2])) as u8] + pct_decode(s.skip(3))
    } else {
        seq![s[0]] + pct_decode(s.skip(1))
    }
}

/// Raw `+` read as a space, as form-urlencoded text is decoded.  Applied
/// before percent-decoding, so an escaped plus (`%2B`) stays a plus.
pub open spec fn plus_to_space(s: Seq<u8>) -> Seq<u8> {
    s.map(|i: int, b: u8| if b == 0x2b { 0x20u8 } else { b })
}

/// The form-urlencoded reading of one key or value: `+` means space, then
/// percent-escapes are undone.
pub open spec fn form_decode(s: Seq<u8>) -> Seq<u8> {
    pct_decode(plus_to_space(s))
}

/// One `key=value` unit of an encoded query.
pub open spec fn encode_pair(p: (Seq<u8>, Seq<u8>)) -> Seq<u8> {
    pct_encode(p.0) + seq![0x3du8] + pct_encode(p.1)
}

/// The encoded form of a whole parameter list: `&`-joined `key=value`
/// units, in input order.
pub open spec fn spec_query(ps: Seq<(Seq<u8>, Seq<u8>)>) -> Seq<u8>
    decreases ps.len(),
{
    if ps.len() == 0 {
        Seq::empty()
    } else if ps.len() == 1 {
        encode_pair(ps[0])
    } else {
        encode_pair(ps[0]) + seq![0x26u8] + spec_query(ps.drop_first())
    }
}

/// Index of the first occurrence of `b` in `s`, or `s.len()` when absent.
pub open spec fn find_byte(s: Seq<u8>, b: u8) -> int
    decreases s.len(),
{
    if s.len() == 0 {
        0
    } else if s[0] == b {
        0
    } else {
        1 + find_byte(s.drop_first(), b)
    }
}

pub proof fn lemma_find_byte(s: Seq<u8>, b: u8)
    ensures
        0 <= find_byte(s, b) <= s.len(),
        find_byte(s, b) < s.len() ==> s[find_byte(s, b)] == b,
        forall|i: int| 0 <= i < find_byte(s, b) ==> s[i] != b,
    decreases s.len(),
{
    if s.len() == 0 {
    } else if s[0] == b {
    } else {
        lemma_find_byte(s.drop_first(), b);
        assert forall|i: int| 0 <= i < find_byte(s, b) implies s[i] != b by {
            if i > 0 {
                assert(s[i] == s.drop_first()[i - 1]);
            }
        }
    }
}

/// When `a` holds no `sep`, the first `sep` of `a + [sep] + rest` stands
/// exactly after `a`.
pub proof fn lemma_find_byte_past(a: Seq<u8>, rest: Seq<u8>, sep: u8)
    requires
        forall|i: int| 0 <= i < a.len() ==> a[i] != sep,
    ensures
        find_byte(a + seq![sep] + rest, sep) == a.len(),
    decreases a.len(),
{
    let s = a + seq![sep] + rest;
    if a.len() == 0 {
        assert(s[0] == sep);
    } else {
        assert(s[0] == a[0]);
        assert(s.drop_first() =~= a.drop_first() + seq![sep] + rest);
        lemma_find_byte_past(a.drop_first(), rest, sep);
    }
}

proof fn lemma_hex_digit(n: u8)
    requires
        n < 16,
    ensures
        is_hex_digit(hex_digit(n)),
        hex_val(hex_digit(n)) == n,
{
}

/// Law: encoded output never holds a raw `&`, `=` or `+`; a key or value
/// that contained one cannot leak it into the joined query unescaped, and
/// no encoded byte is ever read back as a space.
pub proof fn lemma_pct_encode_no_special(s: Seq<u8>)
    ensures
        forall|i: int|
            0 <= i < pct_encode(s).len() ==> pct_encode(s)[i] != 0x26 && pct_encode(s)[i] != 0x3d
                && pct_encode(s)[i] != 0x2b,
    decreases s.len(),
{
    if s.len() == 0 {
    } else {
        lemma_pct_encode_no_special(s.drop_first());
        if !is_unreserved(s[0]) {
            assert(s[0] / 16 < 16) by (nonlinear_arith);
            assert(s[0] % 16 < 16) by (nonlinear_arith);
            lemma_hex_digit(s[0] / 16);
            lemma_hex_digit(s[0] % 16);
        }
        assert forall|i: int|
            0 <= i < pct_encode(s).len() implies pct_encode(s)[i] != 0x26 && pct_encode(s)[i]
            != 0x3d && pct_encode(s)[i] != 0x2b by {
            let e = encode_byte(s[0]);
            if i >= e.len() {
                assert(pct_encode(s)[i] == pct_encode(s.drop_first())[i - e.len()]);
            }
        }
    }
}

proof fn lemma_decode_one(b: u8, t: Seq<u8>)
    ensures
        pct_decode(encode_byte(b) + t) == seq![b] + pct_decode(t),
{
    let s = encode_byte(b) + t;
    if is_unreserved(b) {
        assert(s[0] == b);
        assert(s.skip(1) =~= t);
        assert(pct_decode(s) =~= seq![b] + pct_decode(t));
    } else {
        assert(b / 16 < 16) by (nonlinear_arith);
        assert(b % 16 < 16) by (nonlinear_arith);
        lemma_hex_digit(b / 16);
        lemma_hex_digit(b % 16);
        assert(s[0] == 0x25 && s[1] == hex_digit(b / 16) && s[2] == hex_digit(b % 16));
        assert(16 * (b / 16) + b % 16 == b) by (nonlinear_arith);
        assert(s.skip(3) =~= t);
        assert(pct_decode(s) =~= seq![b] + pct_decode(t));
    }
}

proof fn lemma_decode_encode_concat(s: Seq<u8>, t: Seq<u8>)
    ensures
        pct_decode(pct_encode(s) + t) == s + pct_decode(t),
    decreases s.len(),
{
    if s.len() == 0 {
        assert(pct_encode(s) + t =~= t);
        assert(s + pct_decode(t) =~= pct_decode(t));
    } else {
        lemma_decode_encode_concat(s.drop_first(), t);
        assert(pct_encode(s) + t =~= encode_byte(s[0]) + (pct_encode(s.drop_first()) + t));
        lemma_decode_one(s[0], pct_encode(s.drop_first()) + t);
        assert(seq![s[0]] + (s.drop_first() + pct_decode(t)) =~= s + pct_decode(t));
    }
}

/// Law: percent-decoding inverts percent-encoding on every byte string.
pub proof fn lemma_pct_decode_encode(s: Seq<u8>)
    ensures
        pct_decode(pct_encode(s)) == s,
{
    lemma_decode_encode_concat(s, Seq::empty());
    assert(pct_encode(s) + Seq::<u8>::empty() =~= pct_encode(s));
    assert(s + pct_decode(Seq::empty()) =~= s);
}

/// One piece of a query, split at its first `=`: the form-decoded key and
/// the form-decoded value (empty when no `=` is present).
pub open spec fn split_pair(piece: Seq<u8>) -> (Seq<u8>, Seq<u8>) {
    let j = find_byte(piece, 0x3d);
    if 0 <= j < piece.len() {
        (form_decode(piece.take(j)), form_decode(piece.skip(j + 1)))
    } else {
        (form_decode(piece), Seq::empty())
    }
}

/// Encoded output holds no raw `+`, so reading `+` as space cannot touch it.
proof fn lemma_plus_to_space_on_encoded(s: Seq<u8>)
    ensures
        plus_to_space(pct_encode(s)) == pct_encode(s),
{
    lemma_pct_encode_no_special(s);
    assert(plus_to_space(pct_encode(s)) =~= pct_encode(s));
}

/// A query string split on `&`, each piece split on its first `=`, both
/// sides form-decoded.
pub open spec fn parse_query(s: Seq<u8>) -> Seq<(Seq<u8>, Seq<u8>)>
    decreases s.len(),
{
    if s.len() == 0 {
        Seq::empty()
    } else {
        let i = find_byte(s, 0x26);
        if 0 <= i < s.len() {
            seq![split_pair(s.take(i))] + parse_query(s.skip(i + 1))
        } else {
            seq![split_pair(s)]
        }
    }
}

proof fn lemma_encode_pair_no_amp(p: (Seq<u8>, Seq<u8>))
    ensures
        forall|i: int| 0 <= i < encode_pair(p).len() ==> encode_pair(p)[i] != 0x26,
{
    let ek = pct_encode(p.0);
    let ev = pct_encode(p.1);
    lemma_pct_encode_no_special(p.0);
    lemma_pct_encode_no_special(p.1);
    assert forall|i: int| 0 <= i < encode_pair(p).len() implies encode_pair(p)[i] != 0x26 by {
        if i < ek.len() {
            assert(encode_pair(p)[i] == ek[i]);
        } else if i == ek.len() {
            assert(encode_pair(p)[i] == 0x3d);
        } else {
            assert(encode_pair(p)[i] == ev[i - ek.len() - 1]);
        }
    }
}

proof fn lemma_split_pair_of_encoded(p: (Seq<u8>, Seq<u8>))
    ensures
        split_pair(encode_pair(p)) == p,
{
    let ek = pct_encode(p.0);
    let ev = pct_encode(p.1);
    let s = encode_pair(p);
    lemma_pct_encode_no_special(p.0);
    lemma_find_byte_past(ek, ev, 0x3d);
    let j = find_byte(s, 0x3d);
    assert(j == ek.len());
    assert(s.take(j) =~= ek);
    assert(s.skip(j + 1) =~= ev);
    lemma_plus_to_space_on_encoded(p.0);
    lemma_plus_to_space_on_encoded(p.1);
    lemma_pct_decode_encode(p.0);
    lemma_pct_decode_encode(p.1);
    assert(split_pair(s) =~= p);
}

/// Round-trip law: splitting an encoded query on `&` and `=` and
/// percent-decoding each side reproduces the original pairs, in order.
pub proof fn lemma_query_round_trip(ps: Seq<(Seq<u8>, Seq<u8>)>)
    ensures
        parse_query(spec_query(ps)) == ps,
    decreases ps.len(),
{
    if ps.len() == 0 {
        assert(parse_query(spec_query(ps)) =~= ps);
    } else if ps.len() == 1 {
        let s = spec_query(ps);
        lemma_encode_pair_no_amp(ps[0]);
        lemma_find_byte(s, 0x26);
        assert(find_byte(s, 0x26) == s.len());
        assert(s.len() > 0) by {
            assert(s[pct_encode(ps[0].0).len() as int] == 0x3d);
        }
        lemma_split_pair_of_encoded(ps[0]);
        assert(parse_query(s) =~= ps);
    } else {
        let s = spec_query(ps);
        let ep = encode_pair(ps[0]);
        let rest = spec_query(ps.drop_first());
        lemma_encode_pair_no_amp(ps[0]);
        lemma_find_byte_past(ep, rest, 0x26);
        let i = find_byte(s, 0x26);
        assert(i == ep.len());
        assert(s.take(i) =~= ep);
        assert(s.skip(i + 1) =~= rest);
        lemma_split_pair_of_encoded(ps[0]);
        lemma_query_round_trip(ps.drop_first());
        assert(parse_query(s) =~= seq![ps[0]] + ps.drop_first());
        assert(seq![ps[0]] + ps.drop_first() =~= ps);
    }
}

proof fn lemma_pct_encode_snoc(a: Seq<u8>, x: u8)
    ensures
        pct_encode(a.push(x)) == pct_encode(a) + encode_byte(x),
    decreases a.len(),
{
    if a.len() == 0 {
        assert(a.push(x)[0] == x);
        assert(a.push(x).drop_first() =~= Seq::<u8>::empty());
        assert(pct_encode(a.push(x)) == encode_byte(x) + pct_encode(Seq::<u8>::empty()));
        assert(encode_byte(x) + Seq::<u8>::empty() =~= encode_byte(x));
        assert(pct_encode(a) + encode_byte(x) =~= encode_byte(x));
    } else {
        assert(a.push(x).drop_first() =~= a.drop_first().push(x));
        lemma_pct_encode_snoc(a.drop_first(), x);
        assert(pct_encode(a.push(x)) == encode_byte(a[0]) + (pct_encode(a.drop_first())
            + encode_byte(x)));
        assert(pct_encode(a) == encode_byte(a[0]) + pct_encode(a.drop_first()));
        assert(encode_byte(a[0]) + (pct_encode(a.drop_first()) + encode_byte(x)) =~= (encode_byte(
            a[0],
        ) + pct_encode(a.drop_first())) + encode_byte(x));
    }
}

proof fn lemma_spec_query_snoc(ps: Seq<(Seq<u8>, Seq<u8>)>, p: (Seq<u8>, Seq<u8>))
    ensures
        ps.len() == 0 ==> spec_query(ps.push(p)) == encode_pair(p),
        ps.len() > 0 ==> spec_query(ps.push(p)) == spec_query(ps) + seq![0x26u8] + encode_pair(
            p,
        ),
    decreases ps.len(),
{
    if ps.len() == 0 {
        assert(spec_query(ps.push(p)) =~= encode_pair(p));
    } else if ps.len() == 1 {
        assert(ps.push(p).drop_first() =~= ps.drop_first().push(p));
        lemma_spec_query_snoc(ps.drop_first(), p);
        assert(spec_query(ps.push(p)) =~= spec_query(ps) + seq![0x26u8] + encode_pair(p));
    } else {
        assert(ps.push(p).drop_first() =~= ps.drop_first().push(p));
        lemma_spec_query_snoc(ps.drop_first(), p);
        assert(spec_query(ps.push(p)) =~= spec_query(ps) + seq![0x26u8] + encode_pair(p));
    }
}

fn hex_digit_exec(n: u8) -> (r: u8)
    requires
        n < 16,
    ensures
        r == hex_digit(n),
{
    if n < 10 {
        0x30 + n
    } else {
        0x41 + (n - 10)
    }
}

fn is_unreserved_exec(b: u8) -> (r: bool)
    ensures
        r == is_unreserved(b),
{
    (0x30 <= b && b <= 0x39) || (0x41 <= b && b <= 0x5a) || (0x61 <= b && b <= 0x7a) || b == 0x2d
        || b == 0x2e || b == 0x5f || b == 0x7e
}

/// Appends the percent-encoding of `s` to `out`.
fn append_encoded(out: &mut Vec<u8>, s: &Vec<u8>)
    ensures
        final(out)@ == old(out)@ + pct_encode(s@),
{
    let ghost orig = out@;
    let mut i: usize = 0;
    while i < s.len()
        invariant
            i <= s.len(),
            out@ == orig + pct_encode(s@.take(i as int)),
        decreases s.len() - i,
    {
        let b = s[i];
        if is_unreserved_exec(b) {
            out.push(b);
        } else {
            out.push(0x25);
            out.push(hex_digit_exec(b / 16));
            out.push(hex_digit_exec(b % 16));
        }
        proof {
            lemma_pct_encode_snoc(s@.take(i as int), b);
            assert(s@.take(i + 1 as int) =~= s@.take(i as int).push(b));
        }
        i = i + 1;
    }
    proof {
        assert(s@.take(s@.len() as int) =~= s@);
    }
}

/// Joins the given (key, value) pairs into a percent-encoded query or
/// form body: `key=value` units joined by `&`, in input order.  Both
/// sides are encoded under the OAuth encode set; empty input yields an
/// empty string.
pub fn create_query(pairs: &Vec<(Vec<u8>, Vec<u8>)>) -> (r: Vec<u8>)
    ensures
        r@ == spec_query(pairs.deep_view()),
{
    let mut out: Vec<u8> = Vec::new();
    let mut i: usize = 0;
    while i < pairs.len()
        invariant
            i <= pairs.len(),
            out@ == spec_query(pairs.deep_view().take(i as int)),
            out@.len() == 0 <==> i == 0,
        decreases pairs.len() - i,
    {
        if out.len() > 0 {
            out.push(0x26);
        }
        append_encoded(&mut out, &pairs[i].0);
        out.push(0x3d);
        append_encoded(&mut out, &pairs[i].1);
        proof {
            let dv = pairs.deep_view();
            assert(dv[i as int] == (pairs@[i as int].0@, pairs@[i as int].1@));
            assert(encode_pair(dv[i as int]) == pct_encode(pairs@[i as int].0@) + seq![0x3du8]
                + pct_encode(pairs@[i as int].1@));
            lemma_spec_query_snoc(dv.take(i as int), dv[i as int]);
            assert(dv.take(i + 1 as int) =~= dv.take(i as int).push(dv[i as int]));
            assert(out@ =~= spec_query(dv.take(i + 1 as int)));
        }
        i = i + 1;
    }
    proof {
        assert(pairs.deep_view().take(pairs.deep_view().len() as int) =~= pairs.deep_view());
    }
    out
}

/// `find_byte` is pinned down by its characteristic properties.
proof fn lemma_find_byte_from_props(s: Seq<u8>, b: u8, i: int)
    requires
        0 <= i <= s.len(),
        i < s.len() ==> s[i] == b,
        forall|j: int| 0 <= j < i ==> s[j] != b,
    ensures
        find_byte(s, b) == i,
    decreases s.len(),
{
    if s.len() == 0 {
    } else if s[0] == b {
    } else {
        assert(s[0] != b);
        assert(i >= 1);
        assert forall|j: int| 0 <= j < i - 1 implies s.drop_first()[j] != b by {
            assert(s.drop_first()[j] == s[j + 1]);
        }
        if i < s.len() {
            assert(s.drop_first()[i - 1] == s[i]);
        }
        lemma_find_byte_from_props(s.drop_first(), b, i - 1);
    }
}

fn is_hex_digit_exec(b: u8) -> (r: bool)
    ensures
        r == is_hex_digit(b),
{
    (0x30 <= b && b <= 0x39) || (0x41 <= b && b <= 0x46) || (0x61 <= b && b <= 0x66)
}

fn hex_val_exec(b: u8) -> (r: u8)
    requires
        is_hex_digit(b),
    ensures
        r == hex_val(b),
        r < 16,
{
    if 0x30 <= b && b <= 0x39 {
        b - 0x30
    } else if 0x41 <= b && b <= 0x46 {
        (b - 0x41) + 10
    } else {
        (b - 0x61) + 10
    }
}

/// Finds the first occurrence of `b` in the range `from..to` of `s`,
/// or `to` when absent.
fn find_byte_range(s: &Vec<u8>, from: usize, to: usize, b: u8) -> (r: usize)
    requires
        from <= to <= s@.len(),
    ensures
        from <= r <= to,
        r - from == find_byte(s@.subrange(from as int, to as int), b),
{
    let mut i: usize = from;
    while i < to
        invariant
            from <= i <= to <= s@.len(),
            forall|j: int| from <= j < i ==> s@[j] != b,
        decreases to - i,
    {
        if s[i] == b {
            proof {
                let t = s@.subrange(from as int, to as int);
                assert(t[i - from] == s@[i as int]);
                assert forall|j: int| 0 <= j < i - from implies t[j] != b by {
                    assert(t[j] == s@[j + from]);
                }
                lemma_find_byte_from_props(t, b, i - from);
            }
            return i;
        }
        i = i + 1;
    }
    proof {
        let t = s@.subrange(from as int, to as int);
        assert forall|j: int| 0 <= j < t.len() implies t[j] != b by {
            assert(t[j] == s@[j + from]);
        }
        lemma_find_byte_from_props(t, b, t.len() as int);
    }
    to
}

/// Form-decodes the range `from..to` of `s`: `+` read as space, then
/// percent-escapes undone.
fn decode_range(s: &Vec<u8>, from: usize, to: usize) -> (r: Vec<u8>)
    requires
        from <= to <= s@.len(),
    ensures
        r@ == form_decode(s@.subrange(from as int, to as int)),
{
    let mut out: Vec<u8> = Vec::new();
    let mut i: usize = from;
    while i < to
        invariant
            from <= i <= to <= s@.len(),
            form_decode(s@.subrange(from as int, to as int)) == out@ + form_decode(
                s@.subrange(i as int, to as int),
            ),
        decreases to - i,
    {
        let ghost rem = plus_to_space(s@.subrange(i as int, to as int));
        let ghost out0 = out@;
        if s[i] == 0x25 && to - i > 2 && is_hex_digit_exec(s[i + 1]) && is_hex_digit_exec(
            s[i + 2],
        ) {
            let v = 16 * hex_val_exec(s[i + 1]) + hex_val_exec(s[i + 2]);
            out.push(v);
            proof {
                assert(rem[0] == s@[i as int] && rem[1] == s@[i + 1] && rem[2] == s@[i + 2]);
                assert(rem.skip(3) =~= plus_to_space(s@.subrange(i + 3, to as int)));
                assert(pct_decode(rem) == seq![v] + form_decode(s@.subrange(i + 3, to as int)));
                assert(out@ + form_decode(s@.subrange(i + 3, to as int)) =~= out0 + pct_decode(
                    rem,
                ));
            }
            i = i + 3;
        } else {
            let b = s[i];
            out.push(
                if b == 0x2b {
                    0x20
                } else {
                    b
                },
            );
            proof {
                assert(rem[0] == (if s@[i as int] == 0x2b {
                    0x20u8
                } else {
                    s@[i as int]
                }));
                assert(rem[0] != 0x25 || s@[i as int] == 0x25);
                if rem.len() >= 3 {
                    assert(rem[1] == 0x20 || rem[1] == s@[i + 1]);
                    assert(rem[2] == 0x20 || rem[2] == s@[i + 2]);
                }
                assert(rem.skip(1) =~= plus_to_space(s@.subrange(i + 1, to as int)));
                assert(pct_decode(rem) == seq![rem[0]] + form_decode(
                    s@.subrange(i + 1, to as int),
                ));
                assert(out@ + form_decode(s@.subrange(i + 1, to as int)) =~= out0 + pct_decode(
                    rem,
                ));
            }
            i = i + 1;
        }
    }
    proof {
        assert(s@.subrange(to as int, to as int) =~= Seq::<u8>::empty());
        assert(plus_to_space(Seq::<u8>::empty()) =~= Seq::<u8>::empty());
        assert(out@ + Seq::<u8>::empty() =~= out@);
    }
    out
}

/// Splits one `key[=value]` piece, the range `from..to` of `q`, at its
/// first `=` and form-decodes both sides.
fn split_piece(q: &Vec<u8>, from: usize, to: usize) -> (r: (Vec<u8>, Vec<u8>))
    requires
        from <= to <= q@.len(),
    ensures
        (r.0@, r.1@) == split_pair(q@.subrange(from as int, to as int)),
{
    let ghost piece = q@.subrange(from as int, to as int);
    let j = find_byte_range(q, from, to, 0x3d);
    if j < to {
        let k = decode_range(q, from, j);
        let v = decode_range(q, j + 1, to);
        proof {
            assert(piece.take(j - from) =~= q@.subrange(from as int, j as int));
            assert(piece.skip(j - from + 1) =~= q@.subrange(j + 1, to as int));
        }
        (k, v)
    } else {
        let k = decode_range(q, from, to);
        proof {
            assert(find_byte(piece, 0x3d) == piece.len());
        }
        (k, Vec::new())
    }
}

/// Splits a query string on `&` and each piece on its first `=`, and
/// form-decodes every key and value (`+` means space): the reverse of
/// `create_query`, and the reading under which a URL's pre-existing query
/// is merged and signed.
pub fn parse_query_pairs(q: &Vec<u8>) -> (r: Vec<(Vec<u8>, Vec<u8>)>)
    ensures
        r.deep_view() == parse_query(q@),
{
    let mut out: Vec<(Vec<u8>, Vec<u8>)> = Vec::new();
    let mut pos: usize = 0;
    if q.len() == 0 {
        proof {
            assert(out.deep_view() =~= parse_query(q@));
        }
        return out;
    }
    proof {
        assert(q@.skip(0) =~= q@);
        assert(out.deep_view() =~= Seq::<(Seq<u8>, Seq<u8>)>::empty());
        assert(out.deep_view() + parse_query(q@) =~= parse_query(q@));
    }
    loop
        invariant
            pos <= q@.len(),
            parse_query(q@) == out.deep_view() + parse_query(q@.skip(pos as int)),
        decreases q@.len() - pos,
    {
        let ghost t = q@.skip(pos as int);
        let ghost out0 = out.deep_view();
        if pos == q.len() {
            proof {
                assert(t =~= Seq::<u8>::empty());
                assert(out0 + parse_query(t) =~= out0);
            }
            return out;
        }
        let i = find_byte_range(q, pos, q.len(), 0x26);
        let pair = split_piece(q, pos, i);
        let ghost pv = (pair.0@, pair.1@);
        proof {
            assert(pair.0.deep_view() =~= pair.0@);
            assert(pair.1.deep_view() =~= pair.1@);
            assert(pair.deep_view() == pv);
        }
        out.push(pair);
        proof {
            assert(out.deep_view() =~= out0.push(pv));
            assert(t.len() > 0);
            assert(t.take(i - pos) =~= q@.subrange(pos as int, i as int));
            assert(find_byte(t, 0x26) == i - pos) by {
                assert(q@.subrange(pos as int, q@.len() as int) =~= t);
            }
        }
        if i == q.len() {
            proof {
                assert(t.take(i - pos) =~= t);
                assert(parse_query(t) == seq![split_pair(t)]);
                assert(out.deep_view() =~= out0 + parse_query(t));
                assert(q@.skip(q@.len() as int) =~= Seq::<u8>::empty());
                assert(out.deep_view() + parse_query(q@.skip(q@.len() as int)) =~= out.deep_view());
            }
            return out;
        }
        proof {
            assert(parse_query(t) == seq![split_pair(t.take(i - pos))] + parse_query(
                t.skip(i - pos + 1),
            ));
            assert(t.skip(i - pos + 1) =~= q@.skip(i + 1));
            assert(out.deep_view() + parse_query(q@.skip(i + 1)) =~= out0 + parse_query(t));
        }
        pos = i + 1;
    }
}

} // verus!
