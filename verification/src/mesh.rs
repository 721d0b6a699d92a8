//! Loading a mesh from OBJ text. The OBJ format is line-oriented:
//! `v`, `vn` and `vt` lines collect positions, normals and texture
//! coordinates, `f` lines build triangles or quads out of `v/vt/vn`
//! index triples, `#` starts a comment, anything else is ignored.
//!
//! This module decodes the format: it splits lines and tokens, parses
//! the face indices, resolves them against the collected attributes,
//! de-duplicates vertices by their index triple and triangulates
//! quads. Numeric attribute components stay as the validated byte
//! tokens they were read from; converting a token into a
//! single-precision float — including the customary flip of a texture
//! coordinate's second component — is floating-point work done by the
//! outer layer.

use vstd::prelude::*;

verus! {

/// Splitting a byte string at every occurrence of `sep`: the pieces,
/// in order, separators dropped, empty pieces kept.
pub open spec fn spec_split(s: Seq<u8>, sep: u8) -> Seq<Seq<u8>>
    decreases s.len(),
{
    if s.len() == 0 {
        seq![Seq::<u8>::empty()]
    } else if s[0] == sep {
        seq![Seq::<u8>::empty()] + spec_split(s.drop_first(), sep)
    } else {
        let rest = spec_split(s.drop_first(), sep);
        seq![seq![s[0]] + rest[0]] + rest.drop_first()
    }
}

/// A split has a piece before every separator and one after the last:
/// never no pieces.
pub proof fn lemma_split_len(s: Seq<u8>, sep: u8)
    ensures
        spec_split(s, sep).len() >= 1,
    decreases s.len(),
{
    if s.len() == 0 {
    } else {
        lemma_split_len(s.drop_first(), sep);
    }
}

/// How a split grows when one byte is appended: a separator opens a
/// new empty piece, any other byte extends the last piece.
proof fn lemma_split_snoc(s: Seq<u8>, sep: u8, c: u8)
    ensures
        spec_split(s, sep).len() >= 1,
        c == sep ==> spec_split(s.push(c), sep) == spec_split(s, sep).push(Seq::<u8>::empty()),
        c != sep ==> spec_split(s.push(c), sep) == spec_split(s, sep).update(
            spec_split(s, sep).len() - 1,
            spec_split(s, sep).last().push(c),
        ),
    decreases s.len(),
{
    reveal_with_fuel(spec_split, 3);
    lemma_split_len(s, sep);
    let t = s.push(c);
    if s.len() == 0 {
        assert(t.len() == 1 && t[0] == c);
        if c == sep {
            assert(t.drop_first() =~= Seq::<u8>::empty());
            assert(spec_split(t, sep) =~~= spec_split(s, sep).push(Seq::<u8>::empty()));
        } else {
            assert(t.drop_first() =~= Seq::<u8>::empty());
            assert(seq![t[0]] + spec_split(t.drop_first(), sep)[0] =~= seq![c]);
            assert(spec_split(t, sep) =~~= spec_split(s, sep).update(
                0,
                spec_split(s, sep).last().push(c),
            ));
        }
    } else {
        lemma_split_snoc(s.drop_first(), sep, c);
        lemma_split_len(s.drop_first(), sep);
        assert(t[0] == s[0]);
        assert(t.drop_first() =~= s.drop_first().push(c));
        if s[0] == sep {
            if c == sep {
                assert(spec_split(t, sep) =~~= spec_split(s, sep).push(Seq::<u8>::empty()));
            } else {
                assert(spec_split(t, sep) =~~= spec_split(s, sep).update(
                    spec_split(s, sep).len() - 1,
                    spec_split(s, sep).last().push(c),
                ));
            }
        } else {
            let rest = spec_split(s.drop_first(), sep);
            let restc = spec_split(s.drop_first().push(c), sep);
            if c == sep {
                assert(restc == rest.push(Seq::<u8>::empty()));
                assert(restc[0] == rest[0]);
                assert(restc.drop_first() =~~= rest.drop_first().push(Seq::<u8>::empty()));
                assert(spec_split(t, sep) =~~= spec_split(s, sep).push(Seq::<u8>::empty()));
            } else {
                assert(restc == rest.update(rest.len() - 1, rest.last().push(c)));
                if rest.len() == 1 {
                    assert(restc[0] == rest[0].push(c));
                    assert(restc.drop_first() =~~= rest.drop_first());
                    assert(spec_split(t, sep) =~~= spec_split(s, sep).update(
                        spec_split(s, sep).len() - 1,
                        spec_split(s, sep).last().push(c),
                    ));
                } else {
                    assert(restc[0] == rest[0]);
                    assert(restc.drop_first() =~~= rest.drop_first().update(
                        rest.drop_first().len() - 1,
                        rest.drop_first().last().push(c),
                    ));
                    assert(spec_split(t, sep) =~~= spec_split(s, sep).update(
                        spec_split(s, sep).len() - 1,
                        spec_split(s, sep).last().push(c),
                    ));
                }
            }
        }
    }
}

/// The byte views of a list of byte vectors.
pub open spec fn views_of(r: Seq<Vec<u8>>) -> Seq<Seq<u8>> {
    r.map_values(|v: Vec<u8>| v@)
}

/// Splits `s` at every `sep` byte, as `spec_split` states.
pub fn split_bytes(s: &[u8], sep: u8) -> (r: Vec<Vec<u8>>)
    ensures
        views_of(r@) == spec_split(s@, sep),
{
    let n = s.len();
    let mut r: Vec<Vec<u8>> = Vec::new();
    let mut cur: Vec<u8> = Vec::new();
    let mut i: usize = 0;
    proof {
        assert(s@.take(0) =~= Seq::<u8>::empty());
        assert(views_of(r@).push(cur@) =~= spec_split(s@.take(0), sep));
    }
    while i < n
        invariant
            i <= n,
            n == s@.len(),
            views_of(r@).push(cur@) == spec_split(s@.take(i as int), sep),
        decreases n - i,
    {
        let ghost pre_r = r@;
        let ghost pre_cur = cur@;
        let c = s[i];
        if c == sep {
            r.push(cur);
            cur = Vec::new();
        } else {
            cur.push(c);
        }
        proof {
            lemma_split_snoc(s@.take(i as int), sep, c);
            assert(s@.take(i + 1) =~= s@.take(i as int).push(c));
            if c == sep {
                assert(views_of(r@).push(cur@) =~= views_of(pre_r).push(pre_cur).push(
                    Seq::<u8>::empty(),
                ));
            } else {
                let old_split = spec_split(s@.take(i as int), sep);
                assert(views_of(r@) =~= views_of(pre_r));
                assert(old_split.last() == pre_cur);
                assert(views_of(r@).push(cur@) =~= old_split.update(
                    old_split.len() - 1,
                    old_split.last().push(c),
                ));
            }
        }
        i = i + 1;
    }
    proof {
        assert(s@.take(n as int) =~= s@);
    }
    r.push(cur);
    r
}

/// One line as `str::lines` would deliver it: a trailing carriage
/// return before the line feed is dropped.
pub open spec fn strip_cr(p: Seq<u8>) -> Seq<u8> {
    if p.len() > 0 && p.last() == 13 {
        p.drop_last()
    } else {
        p
    }
}

/// The lines of a byte string, split at every line feed, a carriage
/// return before a line feed dropped, and no phantom empty line after
/// a final line feed — the lines `str::lines` yields.
pub open spec fn spec_lines(s: Seq<u8>) -> Seq<Seq<u8>> {
    if s.len() == 0 {
        Seq::<Seq<u8>>::empty()
    } else {
        let raw = spec_split(s, 10);
        let kept = if s.last() == 10 {
            raw.drop_last()
        } else {
            raw
        };
        kept.map_values(|p: Seq<u8>| strip_cr(p))
    }
}

/// Splits `content` into lines, as `spec_lines` states.
pub fn lines_of(content: &[u8]) -> (r: Vec<Vec<u8>>)
    ensures
        views_of(r@) == spec_lines(content@),
{
    if content.len() == 0 {
        let r: Vec<Vec<u8>> = Vec::new();
        proof {
            assert(views_of(r@) =~= spec_lines(content@));
        }
        return r;
    }
    let mut pieces = split_bytes(content, 10);
    proof {
        lemma_split_len(content@, 10);
    }
    if content[content.len() - 1] == 10 {
        pieces.pop();
        proof {
            assert(views_of(pieces@) =~= spec_split(content@, 10).drop_last());
        }
    }
    let n = pieces.len();
    let ghost kept = views_of(pieces@);
    let mut i: usize = 0;
    while i < n
        invariant
            i <= n,
            n == pieces@.len(),
            kept.len() == n,
            forall|j: int| i <= j < n ==> #[trigger] pieces@[j]@ == kept[j],
            forall|j: int| 0 <= j < i ==> #[trigger] pieces@[j]@ == strip_cr(kept[j]),
        decreases n - i,
    {
        let len_i = pieces[i].len();
        if len_i > 0 && pieces[i][len_i - 1] == 13 {
            let _ = pieces[i].pop();
        }
        i = i + 1;
    }
    proof {
        assert(views_of(pieces@) =~= kept.map_values(|p: Seq<u8>| strip_cr(p)));
        assert(views_of(pieces@) =~= spec_lines(content@));
    }
    pieces
}

/// An ASCII decimal digit.
pub open spec fn is_digit(c: u8) -> bool {
    48 <= c <= 57
}

pub open spec fn all_digits(s: Seq<u8>) -> bool {
    forall|i: int| 0 <= i < s.len() ==> is_digit(#[trigger] s[i])
}

/// The number a string of decimal digits denotes.
pub open spec fn dec_value(s: Seq<u8>) -> int
    decreases s.len(),
{
    if s.len() == 0 {
        0
    } else {
        dec_value(s.drop_last()) * 10 + (s.last() - 48)
    }
}

proof fn lemma_dec_value_nonneg(s: Seq<u8>)
    requires
        all_digits(s),
    ensures
        dec_value(s) >= 0,
    decreases s.len(),
{
    if s.len() > 0 {
        assert(all_digits(s.drop_last()));
        lemma_dec_value_nonneg(s.drop_last());
    }
}

/// A signed decimal integer as `i32::from_str` reads it: an optional
/// sign, then at least one digit, and a value within the type's range.
pub open spec fn spec_parse_i32(s: Seq<u8>) -> Option<i32> {
    let digits = if s.len() > 0 && (s[0] == 43 || s[0] == 45) {
        s.drop_first()
    } else {
        s
    };
    let neg = s.len() > 0 && s[0] == 45;
    if digits.len() > 0 && all_digits(digits) {
        let v = if neg {
            -dec_value(digits)
        } else {
            dec_value(digits)
        };
        if i32::MIN <= v <= i32::MAX {
            Some(v as i32)
        } else {
            None
        }
    } else {
        None
    }
}

/// Parses a signed decimal integer, as `spec_parse_i32` states.
pub fn parse_i32(s: &[u8]) -> (r: Option<i32>)
    ensures
        r == spec_parse_i32(s@),
{
    let n = s.len();
    let mut start: usize = 0;
    let mut neg = false;
    if n > 0 && (s[0] == 43 || s[0] == 45) {
        start = 1;
        neg = s[0] == 45;
    }
    let ghost digits = s@.skip(start as int);
    if n == start {
        return None;
    }
    let mut acc: i64 = 0;
    let mut over = false;
    let mut i: usize = start;
    while i < n
        invariant
            start <= i <= n,
            n == s@.len(),
            n > start,
            start == if s@.len() > 0 && (s@[0] == 43 || s@[0] == 45) {
                1int
            } else {
                0int
            },
            neg == (s@.len() > 0 && s@[0] == 45),
            digits == s@.skip(start as int),
            all_digits(digits.take(i - start)),
            !over ==> acc == dec_value(digits.take(i - start)) && 0 <= acc <= 0x8000_0000,
            over ==> dec_value(digits.take(i - start)) > 0x8000_0000,
        decreases n - i,
    {
        let c = s[i];
        if c < 48 || c > 57 {
            proof {
                assert(digits[i - start] == c);
                assert(!all_digits(digits));
            }
            return None;
        }
        proof {
            assert(digits.take(i + 1 - start) =~= digits.take(i - start).push(c));
            assert(digits.take(i + 1 - start).drop_last() =~= digits.take(i - start));
            lemma_dec_value_nonneg(digits.take(i - start));
        }
        if over {
            proof {
                assert(dec_value(digits.take(i + 1 - start)) > 0x8000_0000);
            }
        } else {
            acc = acc * 10 + ((c - 48) as i64);
            if acc > 0x8000_0000 {
                over = true;
            }
        }
        i = i + 1;
    }
    proof {
        assert(digits.take(n - start) =~= digits);
        // the specification strips the sign with drop_first; relate
        // it to the suffix the loop walked
        let sd = if s@.len() > 0 && (s@[0] == 43 || s@[0] == 45) {
            s@.drop_first()
        } else {
            s@
        };
        assert(sd =~= digits);
    }
    if over {
        return None;
    }
    if neg {
        if acc > 0x8000_0000 {
            return None;
        }
        proof {
            assert(i32::MIN <= -dec_value(digits) <= i32::MAX);
            assert(-acc == -dec_value(digits));
        }
        Some((-acc) as i32)
    } else {
        if acc > 0x7FFF_FFFF {
            return None;
        }
        Some(acc as i32)
    }
}

/// An exponent marker inside a float literal.
pub open spec fn is_exp_marker(c: u8) -> bool {
    c == 101 || c == 69
}

/// ASCII lower-casing of one byte.
pub open spec fn to_lower(c: u8) -> u8 {
    if 65 <= c <= 90 {
        (c + 32) as u8
    } else {
        c
    }
}

/// ASCII lower-casing of a byte string.
pub open spec fn lower(s: Seq<u8>) -> Seq<u8> {
    s.map_values(|c: u8| to_lower(c))
}

/// The mantissa of a float literal: digits with at most one decimal
/// point among them, and at least one digit.
pub open spec fn spec_mantissa(m: Seq<u8>) -> bool {
    &&& m.len() > 0
    &&& forall|i: int| 0 <= i < m.len() ==> is_digit(#[trigger] m[i]) || m[i] == 46
    &&& exists|i: int| 0 <= i < m.len() && is_digit(#[trigger] m[i])
    &&& forall|i: int, j: int|
        #![trigger m[i], m[j]]
        0 <= i < j < m.len() ==> !(m[i] == 46 && m[j] == 46)
}

/// An exponent body: an optional sign, then at least one digit.
pub open spec fn spec_sign_digits(x: Seq<u8>) -> bool {
    let d = if x.len() > 0 && (x[0] == 43 || x[0] == 45) {
        x.drop_first()
    } else {
        x
    };
    d.len() > 0 && all_digits(d)
}

/// An unsigned float number: a mantissa, optionally followed by an
/// exponent marker and an exponent body.
pub open spec fn spec_number(b: Seq<u8>) -> bool {
    exists|k: int|
        0 <= k <= b.len() && spec_mantissa(#[trigger] b.take(k)) && (k == b.len() || (
        is_exp_marker(b[k]) && spec_sign_digits(b.skip(k + 1))))
}

/// A string `f32::from_str` accepts: an optional sign, then one of the
/// special words `inf`, `infinity` or `nan` in any casing, or a number.
pub open spec fn spec_float_token(s: Seq<u8>) -> bool {
    let body = if s.len() > 0 && (s[0] == 43 || s[0] == 45) {
        s.drop_first()
    } else {
        s
    };
    ||| lower(body) == seq![105u8, 110u8, 102u8]
    ||| lower(body) == seq![105u8, 110u8, 102u8, 105u8, 110u8, 105u8, 116u8, 121u8]
    ||| lower(body) == seq![110u8, 97u8, 110u8]
    ||| spec_number(body)
}

/// ASCII lower-casing of one byte, as `to_lower` states.
fn lower_byte(c: u8) -> (r: u8)
    ensures
        r == to_lower(c),
{
    if 65 <= c && c <= 90 {
        c + 32
    } else {
        c
    }
}

/// Whether the bytes of `s` from `from` on, lower-cased, spell the
/// same word as `w`.
fn eq_lower(s: &[u8], from: usize, w: &Vec<u8>) -> (r: bool)
    requires
        from <= s@.len(),
    ensures
        r == (lower(s@.skip(from as int)) == w@),
{
    let ghost body = s@.skip(from as int);
    let m = s.len() - from;
    if m != w.len() {
        proof {
            assert(lower(body).len() == body.len());
        }
        return false;
    }
    let mut i: usize = 0;
    while i < m
        invariant
            i <= m,
            from + m == s@.len(),
            from + m <= usize::MAX,
            m == w@.len(),
            body == s@.skip(from as int),
            forall|j: int| 0 <= j < i ==> to_lower(#[trigger] body[j]) == w@[j],
        decreases m - i,
    {
        let c = lower_byte(s[from + i]);
        if c != w[i] {
            proof {
                assert(lower(body)[i as int] != w@[i as int]);
            }
            return false;
        }
        i = i + 1;
    }
    proof {
        assert(lower(body) =~= w@);
    }
    true
}

/// Whether bytes `from .. to` of `s` form a mantissa, as
/// `spec_mantissa` states.
fn check_mantissa(s: &[u8], from: usize, to: usize) -> (r: bool)
    requires
        from <= to <= s@.len(),
    ensures
        r == spec_mantissa(s@.subrange(from as int, to as int)),
{
    let ghost m = s@.subrange(from as int, to as int);
    if from == to {
        return false;
    }
    let mut has_digit = false;
    let ghost mut dot_at: int = -1;
    let mut has_dot = false;
    let mut i: usize = from;
    while i < to
        invariant
            from <= i <= to <= s@.len(),
            m == s@.subrange(from as int, to as int),
            forall|j: int| 0 <= j < i - from ==> is_digit(#[trigger] m[j]) || m[j] == 46,
            has_digit == exists|j: int| 0 <= j < i - from && is_digit(#[trigger] m[j]),
            has_dot == (dot_at >= 0),
            has_dot ==> 0 <= dot_at < i - from && m[dot_at] == 46,
            forall|j: int| 0 <= j < i - from && #[trigger] m[j] == 46 ==> has_dot && j == dot_at,
        decreases to - i,
    {
        let c = s[i];
        proof {
            assert(m[i - from] == c);
        }
        if c == 46 {
            if has_dot {
                proof {
                    assert(m[dot_at] == 46 && m[i - from] == 46);
                }
                return false;
            }
            has_dot = true;
            proof {
                dot_at = i - from;
            }
        } else if 48 <= c && c <= 57 {
            has_digit = true;
        } else {
            return false;
        }
        i = i + 1;
    }
    if !has_digit {
        return false;
    }
    proof {
        assert forall|a: int, b: int|
            #![trigger m[a], m[b]]
            0 <= a < b < m.len() implies !(m[a] == 46 && m[b] == 46) by {
            if m[a] == 46 && m[b] == 46 {
                assert(has_dot && a == dot_at && b == dot_at);
            }
        }
    }
    true
}

/// Whether bytes `from ..` of `s` form an exponent body, as
/// `spec_sign_digits` states.
fn check_sign_digits(s: &[u8], from: usize) -> (r: bool)
    requires
        from <= s@.len(),
    ensures
        r == spec_sign_digits(s@.skip(from as int)),
{
    let ghost x = s@.skip(from as int);
    let n = s.len();
    let mut start = from;
    if from < n && (s[from] == 43 || s[from] == 45) {
        start = from + 1;
    }
    let ghost d = if x.len() > 0 && (x[0] == 43 || x[0] == 45) {
        x.drop_first()
    } else {
        x
    };
    proof {
        assert(d =~= s@.skip(start as int));
    }
    if start == n {
        return false;
    }
    let mut i: usize = start;
    while i < n
        invariant
            start <= i <= n,
            n == s@.len(),
            d == s@.skip(start as int),
            spec_sign_digits(s@.skip(from as int)) == (d.len() > 0 && all_digits(d)),
            forall|j: int| 0 <= j < i - start ==> is_digit(#[trigger] d[j]),
        decreases n - i,
    {
        let c = s[i];
        if c < 48 || c > 57 {
            proof {
                assert(d[i - start] == c);
                assert(!all_digits(d));
            }
            return false;
        }
        i = i + 1;
    }
    proof {
        assert(all_digits(d));
    }
    true
}

/// Whether `s` is a string `f32::from_str` accepts, as
/// `spec_float_token` states. The float value itself is not computed
/// here; the outer layer converts validated tokens.
pub fn is_float_token(s: &[u8]) -> (r: bool)
    ensures
        r == spec_float_token(s@),
{
    let n = s.len();
    let start: usize = if n > 0 && (s[0] == 43 || s[0] == 45) {
        1
    } else {
        0
    };
    let ghost body = s@.skip(start as int);
    proof {
        assert(body =~= if s@.len() > 0 && (s@[0] == 43 || s@[0] == 45) {
            s@.drop_first()
        } else {
            s@
        });
    }
    let mut word: Vec<u8> = Vec::new();
    word.push(105);
    word.push(110);
    word.push(102);
    proof {
        assert(word@ =~= seq![105u8, 110u8, 102u8]);
    }
    if eq_lower(s, start, &word) {
        return true;
    }
    word.push(105);
    word.push(110);
    word.push(105);
    word.push(116);
    word.push(121);
    proof {
        assert(word@ =~= seq![105u8, 110u8, 102u8, 105u8, 110u8, 105u8, 116u8, 121u8]);
    }
    if eq_lower(s, start, &word) {
        return true;
    }
    let mut word2: Vec<u8> = Vec::new();
    word2.push(110);
    word2.push(97);
    word2.push(110);
    proof {
        assert(word2@ =~= seq![110u8, 97u8, 110u8]);
    }
    if eq_lower(s, start, &word2) {
        return true;
    }
    // scan for the first exponent marker
    let m = n - start;
    let mut k: usize = m;
    let mut j: usize = 0;
    while j < m
        invariant
            0 <= j <= m,
            start + m == s@.len(),
            start + m <= usize::MAX,
            body == s@.skip(start as int),
            k == m || (0 <= k < m && is_exp_marker(body[k as int]) && k <= j),
            k == m ==> forall|t: int| 0 <= t < j ==> !is_exp_marker(#[trigger] body[t]),
            k < m ==> forall|t: int| 0 <= t < k ==> !is_exp_marker(#[trigger] body[t]),
        decreases m - j,
    {
        if k == m {
            let c = s[start + j];
            proof {
                assert(body[j as int] == c);
            }
            if c == 101 || c == 69 {
                k = j;
            }
        }
        j = j + 1;
    }
    let mantissa_ok = check_mantissa(s, start, start + k);
    proof {
        assert(body.take(k as int) =~= s@.subrange(start as int, (start + k) as int));
    }
    let expo_ok = if k == m {
        true
    } else {
        let e = check_sign_digits(s, start + k + 1);
        proof {
            assert(body.skip(k + 1) =~= s@.skip((start + k + 1) as int));
        }
        e
    };
    if mantissa_ok && expo_ok {
        proof {
            assert(0 <= k as int <= body.len() && spec_mantissa(body.take(k as int)) && (k as int
                == body.len() || (is_exp_marker(body[k as int]) && spec_sign_digits(
                body.skip(k as int + 1),
            ))));
            assert(spec_number(body));
        }
        true
    } else {
        proof {
            assert forall|k2: int|
                0 <= k2 <= body.len() implies !(spec_mantissa(#[trigger] body.take(k2)) && (k2
                == body.len() || (is_exp_marker(body[k2]) && spec_sign_digits(
                body.skip(k2 + 1),
            )))) by {
                if k2 < k {
                    // before the first marker: the byte after this
                    // prefix is not a marker, so only a full-length
                    // mantissa would do, and k2 < k <= body.len()
                    assert(k2 < body.len());
                    assert(!is_exp_marker(body[k2]));
                } else if k2 == k {
                    if k2 == k && (k as int) < body.len() {
                        assert(body.take(k as int) == body.take(k2));
                    }
                } else {
                    // past the first marker: the marker byte sits
                    // inside the would-be mantissa
                    assert(k < m);
                    assert(body.take(k2)[k as int] == body[k as int]);
                    assert(is_exp_marker(body[k as int]));
                    assert(!is_digit(body.take(k2)[k as int]) && body.take(k2)[k as int] != 46);
                }
            }
            assert(!spec_number(body));
        }
        false
    }
}


/// Why loading a model failed. `message` gives the human-readable
/// text of each case.
#[derive(Clone, Copy, Debug, PartialEq, Eq, Structural)]
pub enum ObjError {
    /// A texture-coordinate line with fewer than two components.
    Vec2Components,
    /// A position, normal or face-reference with fewer than three
    /// components.
    Vec3Components,
    /// An attribute component that is not a float literal.
    BadFloat,
    /// A face-reference component that is not a decimal integer.
    BadInt,
    /// A face with fewer than three vertices.
    FaceTooShort,
    /// A face with more than four vertices.
    NGonsUnsupported,
    /// A face referring to an attribute that was never collected.
    FaceIndexOutOfBounds,
    /// More distinct vertices than a 32-bit index can address.
    TooManyVertices,
}

impl ObjError {
    pub fn message(&self) -> (r: &'static str)
        ensures
            *self is Vec2Components ==> r@ == "Vec 2 needs 2 elements"@,
            *self is Vec3Components ==> r@ == "Vec 3 needs 3 elements"@,
            *self is BadFloat ==> r@ == "bad f32"@,
            *self is BadInt ==> r@ == "bad i32"@,
            *self is FaceTooShort ==> r@ == "Face has less then 3 vertices"@,
            *self is NGonsUnsupported ==> r@ == "N-Gons are not supported"@,
            *self is FaceIndexOutOfBounds ==> r@ == "Face index out of bounds"@,
            *self is TooManyVertices ==> r@ == "Too many vertices"@,
    {
        match self {
            ObjError::Vec2Components => "Vec 2 needs 2 elements",
            ObjError::Vec3Components => "Vec 3 needs 3 elements",
            ObjError::BadFloat => "bad f32",
            ObjError::BadInt => "bad i32",
            ObjError::FaceTooShort => "Face has less then 3 vertices",
            ObjError::NGonsUnsupported => "N-Gons are not supported",
            ObjError::FaceIndexOutOfBounds => "Face index out of bounds",
            ObjError::TooManyVertices => "Too many vertices",
        }
    }
}

/// Three float components held as the byte tokens they were read
/// from; the outer layer turns a validated token into an `f32`.
#[derive(Debug)]
pub struct Vec3Tokens {
    pub x: Vec<u8>,
    pub y: Vec<u8>,
    pub z: Vec<u8>,
}

impl Vec3Tokens {
    pub open spec fn model(self) -> (Seq<u8>, Seq<u8>, Seq<u8>) {
        (self.x@, self.y@, self.z@)
    }
}

/// Two float components held as byte tokens.
#[derive(Debug)]
pub struct Vec2Tokens {
    pub x: Vec<u8>,
    pub y: Vec<u8>,
}

impl Vec2Tokens {
    pub open spec fn model(self) -> (Seq<u8>, Seq<u8>) {
        (self.x@, self.y@)
    }
}

/// Three integer components, as a face reference's indices.
#[derive(Clone, Copy, Debug, PartialEq, Eq, Structural)]
pub struct IVec3 {
    pub x: i32,
    pub y: i32,
    pub z: i32,
}

/// A vector of three float tokens read from the first three parts:
/// absent parts or an invalid float literal are errors.
pub open spec fn spec_vec3_tokens(parts: Seq<Seq<u8>>) -> Result<
    (Seq<u8>, Seq<u8>, Seq<u8>),
    ObjError,
> {
    if parts.len() < 3 {
        Err(ObjError::Vec3Components)
    } else if !(spec_float_token(parts[0]) && spec_float_token(parts[1]) && spec_float_token(
        parts[2],
    )) {
        Err(ObjError::BadFloat)
    } else {
        Ok((parts[0], parts[1], parts[2]))
    }
}

/// A vector of two float tokens read from the first two parts.
pub open spec fn spec_vec2_tokens(parts: Seq<Seq<u8>>) -> Result<(Seq<u8>, Seq<u8>), ObjError> {
    if parts.len() < 2 {
        Err(ObjError::Vec2Components)
    } else if !(spec_float_token(parts[0]) && spec_float_token(parts[1])) {
        Err(ObjError::BadFloat)
    } else {
        Ok((parts[0], parts[1]))
    }
}

/// A vector of three integers read from the first three parts.
pub open spec fn spec_ivec3(parts: Seq<Seq<u8>>) -> Result<IVec3, ObjError> {
    if parts.len() < 3 {
        Err(ObjError::Vec3Components)
    } else {
        match (spec_parse_i32(parts[0]), spec_parse_i32(parts[1]), spec_parse_i32(parts[2])) {
            (Some(x), Some(y), Some(z)) => Ok(IVec3 { x, y, z }),
            _ => Err(ObjError::BadInt),
        }
    }
}

/// A copy of a byte token.
fn copy_bytes(v: &Vec<u8>) -> (r: Vec<u8>)
    ensures
        r@ == v@,
{
    let n = v.len();
    let mut r: Vec<u8> = Vec::new();
    let mut i: usize = 0;
    while i < n
        invariant
            i <= n,
            n == v@.len(),
            r@ == v@.take(i as int),
        decreases n - i,
    {
        r.push(v[i]);
        proof {
            assert(r@ =~= v@.take(i + 1));
        }
        i = i + 1;
    }
    proof {
        assert(v@.take(n as int) =~= v@);
    }
    r
}

/// A value read from the whitespace-separated parts of an OBJ line.
pub trait FromObjSlice: Sized {
    /// How a parse result relates to the parts it was read from.
    spec fn obj_slice_spec(parts: Seq<Seq<u8>>, r: Result<Self, ObjError>) -> bool;

    fn from_slice(parts: &[Vec<u8>]) -> (r: Result<Self, ObjError>)
        ensures
            Self::obj_slice_spec(views_of(parts@), r),
    ;
}

impl FromObjSlice for Vec3Tokens {
    open spec fn obj_slice_spec(parts: Seq<Seq<u8>>, r: Result<Self, ObjError>) -> bool {
        match spec_vec3_tokens(parts) {
            Ok(m) => r is Ok && r->Ok_0.model() == m,
            Err(e) => r is Err && r->Err_0 == e,
        }
    }

    fn from_slice(parts: &[Vec<u8>]) -> (r: Result<Self, ObjError>) {
        if parts.len() < 3 {
            return Err(ObjError::Vec3Components);
        }
        if !is_float_token(parts[0].as_slice()) || !is_float_token(parts[1].as_slice())
            || !is_float_token(parts[2].as_slice()) {
            return Err(ObjError::BadFloat);
        }
        Ok(
            Vec3Tokens {
                x: copy_bytes(&parts[0]),
                y: copy_bytes(&parts[1]),
                z: copy_bytes(&parts[2]),
            },
        )
    }
}

impl FromObjSlice for Vec2Tokens {
    open spec fn obj_slice_spec(parts: Seq<Seq<u8>>, r: Result<Self, ObjError>) -> bool {
        match spec_vec2_tokens(parts) {
            Ok(m) => r is Ok && r->Ok_0.model() == m,
            Err(e) => r is Err && r->Err_0 == e,
        }
    }

    fn from_slice(parts: &[Vec<u8>]) -> (r: Result<Self, ObjError>) {
        if parts.len() < 2 {
            return Err(ObjError::Vec2Components);
        }
        if !is_float_token(parts[0].as_slice()) || !is_float_token(parts[1].as_slice()) {
            return Err(ObjError::BadFloat);
        }
        Ok(Vec2Tokens { x: copy_bytes(&parts[0]), y: copy_bytes(&parts[1]) })
    }
}

impl FromObjSlice for IVec3 {
    open spec fn obj_slice_spec(parts: Seq<Seq<u8>>, r: Result<Self, ObjError>) -> bool {
        match spec_ivec3(parts) {
            Ok(m) => r is Ok && r->Ok_0 == m,
            Err(e) => r is Err && r->Err_0 == e,
        }
    }

    fn from_slice(parts: &[Vec<u8>]) -> (r: Result<Self, ObjError>) {
        if parts.len() < 3 {
            return Err(ObjError::Vec3Components);
        }
        let x = parse_i32(parts[0].as_slice());
        let y = parse_i32(parts[1].as_slice());
        let z = parse_i32(parts[2].as_slice());
        match (x, y, z) {
            (Some(a), Some(b), Some(c)) => Ok(IVec3 { x: a, y: b, z: c }),
            _ => Err(ObjError::BadInt),
        }
    }
}

/// Reads a vector value from the whitespace-separated parts of an OBJ
/// line.
pub fn parse_obj_vector<T: FromObjSlice>(parts: &[Vec<u8>]) -> (r: Result<T, ObjError>)
    ensures
        T::obj_slice_spec(views_of(parts@), r),
{
    T::from_slice(parts)
}


/// `s` begins with `p`.
pub open spec fn starts_with(s: Seq<u8>, p: Seq<u8>) -> bool {
    p.len() <= s.len() && s.take(p.len() as int) == p
}

proof fn lemma_starts_with(s: Seq<u8>, p: Seq<u8>)
    ensures
        starts_with(s, p) == (p.len() <= s.len() && forall|i: int|
            0 <= i < p.len() ==> s[i] == p[i]),
{
    if p.len() <= s.len() {
        if forall|i: int| 0 <= i < p.len() ==> s[i] == p[i] {
            assert(s.take(p.len() as int) =~= p);
        }
        if s.take(p.len() as int) == p {
            assert(forall|i: int| 0 <= i < p.len() ==> s[i] == s.take(p.len() as int)[i]);
        }
    }
}

/// A mesh vertex under construction: the attribute tokens a face
/// reference selected.
#[derive(Debug)]
pub struct ObjVertex {
    /// Position tokens, from a `v` line.
    pub v: Vec3Tokens,
    /// Normal tokens, from a `vn` line.
    pub vn: Vec3Tokens,
    /// Texture-coordinate tokens, from a `vt` line.
    pub vt: Vec2Tokens,
}

/// The mathematical value of one built vertex: its three attribute
/// token groups.
#[verifier::ext_equal]
pub ghost struct ObjVertexModel {
    pub v: (Seq<u8>, Seq<u8>, Seq<u8>),
    pub vn: (Seq<u8>, Seq<u8>, Seq<u8>),
    pub vt: (Seq<u8>, Seq<u8>),
}

impl ObjVertex {
    pub open spec fn model(self) -> ObjVertexModel {
        ObjVertexModel { v: self.v.model(), vn: self.vn.model(), vt: self.vt.model() }
    }
}

/// Everything an OBJ read has collected: the attribute lists, the
/// vertices built so far with the index each `v/vt/vn` triple was
/// assigned, and the triangle indices.
#[verifier::ext_equal]
pub ghost struct ObjState {
    pub positions: Seq<(Seq<u8>, Seq<u8>, Seq<u8>)>,
    pub normals: Seq<(Seq<u8>, Seq<u8>, Seq<u8>)>,
    pub uvs: Seq<(Seq<u8>, Seq<u8>)>,
    pub lookup: Map<(u32, u32, u32), u32>,
    pub faces: Seq<ObjVertexModel>,
    pub indices: Seq<u32>,
}

/// The state before any line is read.
pub open spec fn spec_obj_init() -> ObjState {
    ObjState {
        positions: Seq::empty(),
        normals: Seq::empty(),
        uvs: Seq::empty(),
        lookup: Map::empty(),
        faces: Seq::empty(),
        indices: Seq::empty(),
    }
}

/// Resolving one `v/vt/vn` reference of a face: its parts are parsed
/// as integers, checked against the collected attributes (indices
/// count from one), and the triple is either found in the lookup —
/// the vertex it named before is reused — or a new vertex is built
/// from the three attributes and remembered under the triple.
pub open spec fn spec_face_ref(st: ObjState, arg: Seq<u8>) -> Result<(ObjState, u32), ObjError> {
    match spec_ivec3(spec_split(arg, 47)) {
        Err(e) => Err(e),
        Ok(t) => {
            if !(1 <= t.x && t.x <= st.positions.len() && 1 <= t.y && t.y <= st.uvs.len() && 1
                <= t.z && t.z <= st.normals.len()) {
                Err(ObjError::FaceIndexOutOfBounds)
            } else {
                let key = ((t.x - 1) as u32, (t.y - 1) as u32, (t.z - 1) as u32);
                if st.lookup.contains_key(key) {
                    Ok((st, st.lookup[key]))
                } else if st.faces.len() > u32::MAX {
                    Err(ObjError::TooManyVertices)
                } else {
                    let vert = ObjVertexModel {
                        v: st.positions[t.x - 1],
                        vn: st.normals[t.z - 1],
                        vt: st.uvs[t.y - 1],
                    };
                    let idx = st.faces.len() as u32;
                    Ok(
                        (
                            ObjState {
                                faces: st.faces.push(vert),
                                lookup: st.lookup.insert(key, idx),
                                ..st
                            },
                            idx,
                        ),
                    )
                }
            }
        },
    }
}

/// A triangle: three references resolved in order, their indices
/// appended.
pub open spec fn spec_face3(st: ObjState, a0: Seq<u8>, a1: Seq<u8>, a2: Seq<u8>) -> Result<
    ObjState,
    ObjError,
> {
    match spec_face_ref(st, a0) {
        Err(e) => Err(e),
        Ok((st1, i0)) => match spec_face_ref(st1, a1) {
            Err(e) => Err(e),
            Ok((st2, i1)) => match spec_face_ref(st2, a2) {
                Err(e) => Err(e),
                Ok((st3, i2)) => Ok(ObjState { indices: st3.indices + seq![i0, i1, i2], ..st3 }),
            },
        },
    }
}

/// A quad: four references resolved in order, triangulated into the
/// two triangles `0 1 2` and `0 2 3`.
pub open spec fn spec_face4(
    st: ObjState,
    a0: Seq<u8>,
    a1: Seq<u8>,
    a2: Seq<u8>,
    a3: Seq<u8>,
) -> Result<ObjState, ObjError> {
    match spec_face_ref(st, a0) {
        Err(e) => Err(e),
        Ok((st1, i0)) => match spec_face_ref(st1, a1) {
            Err(e) => Err(e),
            Ok((st2, i1)) => match spec_face_ref(st2, a2) {
                Err(e) => Err(e),
                Ok((st3, i2)) => match spec_face_ref(st3, a3) {
                    Err(e) => Err(e),
                    Ok((st4, i3)) => Ok(
                        ObjState {
                            indices: st4.indices + seq![i0, i1, i2, i0, i2, i3],
                            ..st4
                        },
                    ),
                },
            },
        },
    }
}

/// A face line: three arguments make a triangle, four a quad, fewer
/// are rejected and more are n-gons, which this reader does not
/// support.
pub open spec fn spec_face_line(st: ObjState, args: Seq<Seq<u8>>) -> Result<ObjState, ObjError> {
    if args.len() < 3 {
        Err(ObjError::FaceTooShort)
    } else if args.len() == 3 {
        spec_face3(st, args[0], args[1], args[2])
    } else if args.len() == 4 {
        spec_face4(st, args[0], args[1], args[2], args[3])
    } else {
        Err(ObjError::NGonsUnsupported)
    }
}

/// One line of an OBJ file: comments and unknown keywords leave the
/// state as it is; `v`, `vn` and `vt` collect attribute tokens; `f`
/// builds faces. The keyword is the text before the first blank, and
/// the arguments are the blank-separated parts after it.
#[verifier::opaque]
pub open spec fn spec_obj_line(st: ObjState, line: Seq<u8>) -> Result<ObjState, ObjError> {
    if starts_with(line, seq![35u8]) {
        Ok(st)
    } else {
        let args = spec_split(line, 32).drop_first();
        if starts_with(line, seq![118u8, 32u8]) {
            match spec_vec3_tokens(args) {
                Ok(m) => Ok(ObjState { positions: st.positions.push(m), ..st }),
                Err(e) => Err(e),
            }
        } else if starts_with(line, seq![118u8, 110u8, 32u8]) {
            match spec_vec3_tokens(args) {
                Ok(m) => Ok(ObjState { normals: st.normals.push(m), ..st }),
                Err(e) => Err(e),
            }
        } else if starts_with(line, seq![118u8, 116u8, 32u8]) {
            match spec_vec2_tokens(args) {
                Ok(m) => Ok(ObjState { uvs: st.uvs.push(m), ..st }),
                Err(e) => Err(e),
            }
        } else if starts_with(line, seq![102u8, 32u8]) {
            spec_face_line(st, args)
        } else {
            Ok(st)
        }
    }
}

/// The lines of an OBJ file read in order; the first error wins.
pub open spec fn spec_obj_fold(st: ObjState, lines: Seq<Seq<u8>>) -> Result<ObjState, ObjError>
    decreases lines.len(),
{
    if lines.len() == 0 {
        Ok(st)
    } else {
        match spec_obj_line(st, lines[0]) {
            Ok(st2) => spec_obj_fold(st2, lines.drop_first()),
            Err(e) => Err(e),
        }
    }
}

/// What reading a whole OBJ text yields.
pub open spec fn spec_load_obj(content: Seq<u8>) -> Result<ObjState, ObjError> {
    spec_obj_fold(spec_obj_init(), spec_lines(content))
}

/// One remembered `v/vt/vn` triple and the vertex index it named.
struct LookupEntry {
    v: u32,
    t: u32,
    n: u32,
    idx: u32,
}

impl LookupEntry {
    spec fn key(self) -> (u32, u32, u32) {
        (self.v, self.t, self.n)
    }
}

/// Distinct triples, each naming a vertex that exists.
spec fn lookup_wf(entries: Seq<LookupEntry>, nfaces: nat) -> bool {
    &&& forall|i: int, j: int|
        #![trigger entries[i], entries[j]]
        0 <= i < j < entries.len() ==> entries[i].key() != entries[j].key()
    &&& forall|i: int| 0 <= i < entries.len() ==> (#[trigger] entries[i]).idx < nfaces
}

spec fn entry_index(entries: Seq<LookupEntry>, k: (u32, u32, u32)) -> int {
    choose|i: int| 0 <= i < entries.len() && entries[i].key() == k
}

/// The lookup as a map from triple to vertex index.
spec fn lookup_model(entries: Seq<LookupEntry>) -> Map<(u32, u32, u32), u32> {
    Map::new(
        |k: (u32, u32, u32)| exists|i: int| 0 <= i < entries.len() && (#[trigger] entries[i]).key() == k,
        |k: (u32, u32, u32)| entries[entry_index(entries, k)].idx,
    )
}

/// Appending a triple the lookup did not hold adds exactly that
/// mapping.
proof fn lemma_lookup_push(pre: Seq<LookupEntry>, e: LookupEntry)
    requires
        forall|i: int, j: int|
            #![trigger pre[i], pre[j]]
            0 <= i < j < pre.len() ==> pre[i].key() != pre[j].key(),
        forall|i: int| 0 <= i < pre.len() ==> (#[trigger] pre[i]).key() != e.key(),
    ensures
        lookup_model(pre.push(e)) == lookup_model(pre).insert(e.key(), e.idx),
{
    let post = pre.push(e);
    let n = pre.len() as int;
    assert forall|k: (u32, u32, u32)| #[trigger]
        lookup_model(post).contains_key(k) implies lookup_model(pre).insert(
        e.key(),
        e.idx,
    ).contains_key(k) && lookup_model(post)[k] == lookup_model(pre).insert(e.key(), e.idx)[k] by {
        let j = entry_index(post, k);
        assert(0 <= j < post.len() && post[j].key() == k);
        if j == n {
            assert(k == e.key());
            assert(lookup_model(post)[k] == e.idx);
        } else {
            assert(pre[j].key() == k);
            assert(k != e.key());
            assert(entry_index(pre, k) == j) by {
                let j2 = entry_index(pre, k);
                assert(pre[j2].key() == k);
                if j2 != j {
                    assert(post[j2].key() == k);
                    assert(false);
                }
            }
            assert(lookup_model(post)[k] == pre[j].idx);
        }
    }
    assert forall|k: (u32, u32, u32)|
        lookup_model(pre).insert(e.key(), e.idx).contains_key(k) implies lookup_model(
        post,
    ).contains_key(k) by {
        if k == e.key() {
            assert(post[n].key() == k);
        } else {
            let j2 = entry_index(pre, k);
            assert(pre[j2].key() == k);
            assert(post[j2].key() == k);
        }
    }
    assert(lookup_model(post) =~= lookup_model(pre).insert(e.key(), e.idx));
}

/// The vertex index remembered for a triple, if any.
fn find_entry(entries: &Vec<LookupEntry>, v: u32, t: u32, n: u32) -> (r: Option<u32>)
    requires
        forall|i: int, j: int|
            #![trigger entries@[i], entries@[j]]
            0 <= i < j < entries@.len() ==> entries@[i].key() != entries@[j].key(),
    ensures
        r == if lookup_model(entries@).contains_key((v, t, n)) {
            Some(lookup_model(entries@)[(v, t, n)])
        } else {
            None::<u32>
        },
{
    let ghost k = (v, t, n);
    let len = entries.len();
    let mut i: usize = 0;
    while i < len
        invariant
            i <= len,
            len == entries@.len(),
            k == (v, t, n),
            forall|i2: int, j2: int|
                #![trigger entries@[i2], entries@[j2]]
                0 <= i2 < j2 < entries@.len() ==> entries@[i2].key() != entries@[j2].key(),
            forall|j: int| 0 <= j < i ==> (#[trigger] entries@[j]).key() != k,
        decreases len - i,
    {
        let e = &entries[i];
        if e.v == v && e.t == t && e.n == n {
            proof {
                assert(entries@[i as int].key() == k);
                assert(lookup_model(entries@).contains_key(k));
                assert(entry_index(entries@, k) == i) by {
                    let j = entry_index(entries@, k);
                    assert(entries@[j].key() == k);
                }
            }
            return Some(e.idx);
        }
        i = i + 1;
    }
    proof {
        assert(!lookup_model(entries@).contains_key(k));
    }
    None
}

/// A copy of a position or normal token group.
fn copy_vec3_tokens(t: &Vec3Tokens) -> (r: Vec3Tokens)
    ensures
        r.model() == t.model(),
{
    Vec3Tokens { x: copy_bytes(&t.x), y: copy_bytes(&t.y), z: copy_bytes(&t.z) }
}

/// A copy of a texture-coordinate token group.
fn copy_vec2_tokens(t: &Vec2Tokens) -> (r: Vec2Tokens)
    ensures
        r.model() == t.model(),
{
    Vec2Tokens { x: copy_bytes(&t.x), y: copy_bytes(&t.y) }
}

/// The collected state as the specification sees it.
spec fn obj_model(
    positions: Seq<Vec3Tokens>,
    normals: Seq<Vec3Tokens>,
    uvs: Seq<Vec2Tokens>,
    entries: Seq<LookupEntry>,
    faces: Seq<ObjVertex>,
    indices: Seq<u32>,
) -> ObjState {
    ObjState {
        positions: positions.map_values(|t: Vec3Tokens| t.model()),
        normals: normals.map_values(|t: Vec3Tokens| t.model()),
        uvs: uvs.map_values(|t: Vec2Tokens| t.model()),
        lookup: lookup_model(entries),
        faces: faces.map_values(|f: ObjVertex| f.model()),
        indices: indices,
    }
}

/// Resolves one face reference against the collected attributes, as
/// `spec_face_ref` states.
fn face_ref(
    positions: &Vec<Vec3Tokens>,
    normals: &Vec<Vec3Tokens>,
    uvs: &Vec<Vec2Tokens>,
    entries: &mut Vec<LookupEntry>,
    faces: &mut Vec<ObjVertex>,
    indices: &Vec<u32>,
    arg: &Vec<u8>,
) -> (r: Result<u32, ObjError>)
    requires
        lookup_wf(old(entries)@, old(faces)@.len()),
    ensures
        lookup_wf(final(entries)@, final(faces)@.len()),
        final(faces)@.len() >= old(faces)@.len(),
        ({
            let st = obj_model(positions@, normals@, uvs@, old(entries)@, old(faces)@, indices@);
            let stf = obj_model(
                positions@,
                normals@,
                uvs@,
                final(entries)@,
                final(faces)@,
                indices@,
            );
            match (r, spec_face_ref(st, arg@)) {
                (Ok(idx), Ok(pair)) => stf == pair.0 && idx == pair.1 && (idx as int)
                    < final(faces)@.len(),
                (Err(e1), Err(e2)) => e1 == e2,
                _ => false,
            }
        }),
{
    let ghost st = obj_model(positions@, normals@, uvs@, entries@, faces@, indices@);
    let parts = split_bytes(arg.as_slice(), 47);
    let parsed = parse_obj_vector::<IVec3>(parts.as_slice());
    let t = match parsed {
        Err(e) => {
            return Err(e);
        },
        Ok(t) => t,
    };
    if !(1 <= t.x && ((t.x - 1) as usize) < positions.len() && 1 <= t.y && ((t.y - 1) as usize)
        < uvs.len() && 1 <= t.z && ((t.z - 1) as usize) < normals.len()) {
        return Err(ObjError::FaceIndexOutOfBounds);
    }
    let kv = (t.x - 1) as u32;
    let kt = (t.y - 1) as u32;
    let kn = (t.z - 1) as u32;
    let found = find_entry(entries, kv, kt, kn);
    match found {
        Some(idx) => {
            proof {
                assert(st.lookup.contains_key((kv, kt, kn)));
            }
            Ok(idx)
        },
        None => {
            if faces.len() > (u32::MAX as usize) {
                return Err(ObjError::TooManyVertices);
            }
            let idx = faces.len() as u32;
            let vert = ObjVertex {
                v: copy_vec3_tokens(&positions[(t.x - 1) as usize]),
                vn: copy_vec3_tokens(&normals[(t.z - 1) as usize]),
                vt: copy_vec2_tokens(&uvs[(t.y - 1) as usize]),
            };
            let ghost vert_model = vert.model();
            let entry = LookupEntry { v: kv, t: kt, n: kn, idx };
            proof {
                assert(forall|i: int|
                    0 <= i < entries@.len() ==> (#[trigger] entries@[i]).key() != (kv, kt, kn));
                lemma_lookup_push(entries@, entry);
            }
            entries.push(entry);
            faces.push(vert);
            proof {
                let stf = obj_model(positions@, normals@, uvs@, entries@, faces@, indices@);
                assert(faces@.map_values(|f: ObjVertex| f.model()) =~= old(faces)@.map_values(
                    |f: ObjVertex| f.model(),
                ).push(vert_model));
                assert(vert_model.v == st.positions[t.x - 1]);
                assert(vert_model.vn == st.normals[t.z - 1]);
                assert(vert_model.vt == st.uvs[t.y - 1]);
                let pair = spec_face_ref(st, arg@)->Ok_0;
                assert(stf =~= pair.0);
            }
            Ok(idx)
        },
    }
}



/// Copies of the parts after the keyword: an OBJ line's arguments.
fn tail_parts(parts: &Vec<Vec<u8>>) -> (r: Vec<Vec<u8>>)
    requires
        parts@.len() >= 1,
    ensures
        views_of(r@) == views_of(parts@).drop_first(),
{
    let n = parts.len();
    let mut r: Vec<Vec<u8>> = Vec::new();
    let mut i: usize = 1;
    proof {
        assert(views_of(r@) =~= views_of(parts@).subrange(1, 1));
    }
    while i < n
        invariant
            1 <= i <= n,
            n == parts@.len(),
            views_of(r@) == views_of(parts@).subrange(1, i as int),
        decreases n - i,
    {
        let ghost pre = r@;
        let copied = copy_bytes(&parts[i]);
        let ghost cv = copied@;
        r.push(copied);
        proof {
            assert(views_of(r@) =~= views_of(pre).push(cv));
            assert(views_of(r@) =~= views_of(parts@).subrange(1, i + 1));
        }
        i = i + 1;
    }
    proof {
        assert(views_of(parts@).subrange(1, n as int) =~= views_of(parts@).drop_first());
    }
    r
}

/// Builds the triangles of one face line, as `spec_face_line` states:
/// `parts` are the blank-separated parts of the line, keyword first.
#[verifier::rlimit(100)]
fn face_line(
    positions: &Vec<Vec3Tokens>,
    normals: &Vec<Vec3Tokens>,
    uvs: &Vec<Vec2Tokens>,
    entries: &mut Vec<LookupEntry>,
    faces: &mut Vec<ObjVertex>,
    indices: &mut Vec<u32>,
    parts: &Vec<Vec<u8>>,
) -> (r: Result<(), ObjError>)
    requires
        parts@.len() >= 1,
        lookup_wf(old(entries)@, old(faces)@.len()),
        forall|k: int|
            0 <= k < old(indices)@.len() ==> (old(indices)@[k] as int) < old(faces)@.len(),
    ensures
        lookup_wf(final(entries)@, final(faces)@.len()),
        final(faces)@.len() >= old(faces)@.len(),
        forall|k: int|
            0 <= k < final(indices)@.len() ==> (final(indices)@[k] as int) < final(faces)@.len(),
        ({
            let st = obj_model(
                positions@,
                normals@,
                uvs@,
                old(entries)@,
                old(faces)@,
                old(indices)@,
            );
            let stf = obj_model(
                positions@,
                normals@,
                uvs@,
                final(entries)@,
                final(faces)@,
                final(indices)@,
            );
            match (r, spec_face_line(st, views_of(parts@).drop_first())) {
                (Ok(u), Ok(st2)) => stf == st2,
                (Err(e1), Err(e2)) => e1 == e2,
                _ => false,
            }
        }),
{
    let ghost args = views_of(parts@).drop_first();
    let ghost st = obj_model(positions@, normals@, uvs@, entries@, faces@, indices@);
    proof {
        assert(forall|j: int| 0 <= j < args.len() ==> args[j] == parts@[j + 1]@);
    }
    let nargs = parts.len() - 1;
    if nargs < 3 {
        return Err(ObjError::FaceTooShort);
    }
    if nargs == 3 {
        let i0 = match face_ref(positions, normals, uvs, entries, faces, indices, &parts[1]) {
            Err(e) => {
                return Err(e);
            },
            Ok(i) => i,
        };
        let ghost st1 = obj_model(positions@, normals@, uvs@, entries@, faces@, indices@);
        let i1 = match face_ref(positions, normals, uvs, entries, faces, indices, &parts[2]) {
            Err(e) => {
                return Err(e);
            },
            Ok(i) => i,
        };
        let ghost st2 = obj_model(positions@, normals@, uvs@, entries@, faces@, indices@);
        let i2 = match face_ref(positions, normals, uvs, entries, faces, indices, &parts[3]) {
            Err(e) => {
                return Err(e);
            },
            Ok(i) => i,
        };
        let ghost st3 = obj_model(positions@, normals@, uvs@, entries@, faces@, indices@);
        let ghost nfaces = faces@.len();
        indices.push(i0);
        indices.push(i1);
        indices.push(i2);
        proof {
            assert(indices@ =~= old(indices)@ + seq![i0, i1, i2]);
            let stf = obj_model(positions@, normals@, uvs@, entries@, faces@, indices@);
            assert(stf =~= ObjState { indices: st3.indices + seq![i0, i1, i2], ..st3 });
        }
        Ok(())
    } else if nargs == 4 {
        let i0 = match face_ref(positions, normals, uvs, entries, faces, indices, &parts[1]) {
            Err(e) => {
                return Err(e);
            },
            Ok(i) => i,
        };
        let ghost st1 = obj_model(positions@, normals@, uvs@, entries@, faces@, indices@);
        let i1 = match face_ref(positions, normals, uvs, entries, faces, indices, &parts[2]) {
            Err(e) => {
                return Err(e);
            },
            Ok(i) => i,
        };
        let ghost st2 = obj_model(positions@, normals@, uvs@, entries@, faces@, indices@);
        let i2 = match face_ref(positions, normals, uvs, entries, faces, indices, &parts[3]) {
            Err(e) => {
                return Err(e);
            },
            Ok(i) => i,
        };
        let ghost st3 = obj_model(positions@, normals@, uvs@, entries@, faces@, indices@);
        let i3 = match face_ref(positions, normals, uvs, entries, faces, indices, &parts[4]) {
            Err(e) => {
                return Err(e);
            },
            Ok(i) => i,
        };
        let ghost st4 = obj_model(positions@, normals@, uvs@, entries@, faces@, indices@);
        indices.push(i0);
        indices.push(i1);
        indices.push(i2);
        indices.push(i0);
        indices.push(i2);
        indices.push(i3);
        proof {
            assert(indices@ =~= old(indices)@ + seq![i0, i1, i2, i0, i2, i3]);
            let stf = obj_model(positions@, normals@, uvs@, entries@, faces@, indices@);
            assert(stf =~= ObjState { indices: st4.indices + seq![i0, i1, i2, i0, i2, i3], ..st4 });
        }
        Ok(())
    } else {
        Err(ObjError::NGonsUnsupported)
    }
}

/// Reading on from line `i` is reading the line and then reading on
/// from the next line.
proof fn lemma_obj_fold_step_ok(st: ObjState, st2: ObjState, lns: Seq<Seq<u8>>, i: int)
    requires
        0 <= i < lns.len(),
        spec_obj_line(st, lns[i]) == Ok::<ObjState, ObjError>(st2),
    ensures
        spec_obj_fold(st, lns.skip(i)) == spec_obj_fold(st2, lns.skip(i + 1)),
{
    assert(lns.skip(i).len() > 0);
    assert(lns.skip(i)[0] == lns[i]);
    assert(lns.skip(i).drop_first() =~= lns.skip(i + 1));
}

/// A line that fails ends the whole read with its error.
proof fn lemma_obj_fold_step_err(st: ObjState, e: ObjError, lns: Seq<Seq<u8>>, i: int)
    requires
        0 <= i < lns.len(),
        spec_obj_line(st, lns[i]) == Err::<ObjState, ObjError>(e),
    ensures
        spec_obj_fold(st, lns.skip(i)) == Err::<ObjState, ObjError>(e),
{
    assert(lns.skip(i).len() > 0);
    assert(lns.skip(i)[0] == lns[i]);
}

/// Applies one line to the collected state, as `spec_obj_line`
/// states.
#[verifier::rlimit(100)]
fn obj_line_exec(
    positions: &mut Vec<Vec3Tokens>,
    normals: &mut Vec<Vec3Tokens>,
    uvs: &mut Vec<Vec2Tokens>,
    entries: &mut Vec<LookupEntry>,
    faces: &mut Vec<ObjVertex>,
    indices: &mut Vec<u32>,
    line: &Vec<u8>,
) -> (r: Result<(), ObjError>)
    requires
        lookup_wf(old(entries)@, old(faces)@.len()),
        forall|k: int|
            0 <= k < old(indices)@.len() ==> (old(indices)@[k] as int) < old(faces)@.len(),
    ensures
        lookup_wf(final(entries)@, final(faces)@.len()),
        forall|k: int|
            0 <= k < final(indices)@.len() ==> (final(indices)@[k] as int) < final(faces)@.len(),
        ({
            let st = obj_model(
                old(positions)@,
                old(normals)@,
                old(uvs)@,
                old(entries)@,
                old(faces)@,
                old(indices)@,
            );
            let stf = obj_model(
                final(positions)@,
                final(normals)@,
                final(uvs)@,
                final(entries)@,
                final(faces)@,
                final(indices)@,
            );
            match (r, spec_obj_line(st, line@)) {
                (Ok(u), Ok(st2)) => stf == st2,
                (Err(e1), Err(e2)) => e1 == e2,
                _ => false,
            }
        }),
{
    let ghost st = obj_model(positions@, normals@, uvs@, entries@, faces@, indices@);
    proof {
        reveal(spec_obj_line);
        lemma_starts_with(line@, seq![35u8]);
        lemma_starts_with(line@, seq![118u8, 32u8]);
        lemma_starts_with(line@, seq![118u8, 110u8, 32u8]);
        lemma_starts_with(line@, seq![118u8, 116u8, 32u8]);
        lemma_starts_with(line@, seq![102u8, 32u8]);
    }
    let llen = line.len();
    if llen >= 1 && line[0] == 35 {
        proof {
            assert(spec_obj_line(st, line@) == Ok::<ObjState, ObjError>(st));
        }
        return Ok(());
    }
    let parts = split_bytes(line.as_slice(), 32);
    proof {
        lemma_split_len(line@, 32);
    }
    if llen >= 2 && line[0] == 118 && line[1] == 32 {
        let args = tail_parts(&parts);
        match parse_obj_vector::<Vec3Tokens>(args.as_slice()) {
            Ok(v3) => {
                let ghost m = v3.model();
                positions.push(v3);
                proof {
                    assert(positions@.map_values(|t: Vec3Tokens| t.model()) =~= st.positions.push(
                        m,
                    ));
                    let st2 = obj_model(positions@, normals@, uvs@, entries@, faces@, indices@);
                    assert(st2 =~= ObjState { positions: st.positions.push(m), ..st });
                }
                Ok(())
            },
            Err(e) => Err(e),
        }
    } else if llen >= 3 && line[0] == 118 && line[1] == 110 && line[2] == 32 {
        let args = tail_parts(&parts);
        match parse_obj_vector::<Vec3Tokens>(args.as_slice()) {
            Ok(v3) => {
                let ghost m = v3.model();
                normals.push(v3);
                proof {
                    assert(normals@.map_values(|t: Vec3Tokens| t.model()) =~= st.normals.push(m));
                    let st2 = obj_model(positions@, normals@, uvs@, entries@, faces@, indices@);
                    assert(st2 =~= ObjState { normals: st.normals.push(m), ..st });
                }
                Ok(())
            },
            Err(e) => Err(e),
        }
    } else if llen >= 3 && line[0] == 118 && line[1] == 116 && line[2] == 32 {
        let args = tail_parts(&parts);
        match parse_obj_vector::<Vec2Tokens>(args.as_slice()) {
            Ok(v2) => {
                let ghost m = v2.model();
                uvs.push(v2);
                proof {
                    assert(uvs@.map_values(|t: Vec2Tokens| t.model()) =~= st.uvs.push(m));
                    let st2 = obj_model(positions@, normals@, uvs@, entries@, faces@, indices@);
                    assert(st2 =~= ObjState { uvs: st.uvs.push(m), ..st });
                }
                Ok(())
            },
            Err(e) => Err(e),
        }
    } else if llen >= 2 && line[0] == 102 && line[1] == 32 {
        face_line(positions, normals, uvs, entries, faces, indices, &parts)
    } else {
        proof {
            assert(spec_obj_line(st, line@) == Ok::<ObjState, ObjError>(st));
        }
        Ok(())
    }
}

/// Reads a whole OBJ text into the vertices it builds and the
/// triangle indices into them, as `spec_load_obj` states. Every index
/// refers to a built vertex.
#[verifier::rlimit(100)]
pub fn load_from_obj(content: &[u8]) -> (r: Result<(Vec<ObjVertex>, Vec<u32>), ObjError>)
    ensures
        ({
            match (r, spec_load_obj(content@)) {
                (Ok(pair), Ok(st)) => pair.0@.map_values(|f: ObjVertex| f.model()) == st.faces
                    && pair.1@ == st.indices && forall|k: int|
                    0 <= k < pair.1@.len() ==> (pair.1@[k] as int) < pair.0@.len(),
                (Err(e1), Err(e2)) => e1 == e2,
                _ => false,
            }
        }),
{
    let lines = lines_of(content);
    let ghost lns = spec_lines(content@);
    let nlines = lines.len();
    let mut positions: Vec<Vec3Tokens> = Vec::new();
    let mut normals: Vec<Vec3Tokens> = Vec::new();
    let mut uvs: Vec<Vec2Tokens> = Vec::new();
    let mut entries: Vec<LookupEntry> = Vec::new();
    let mut faces: Vec<ObjVertex> = Vec::new();
    let mut indices: Vec<u32> = Vec::new();
    proof {
        assert(obj_model(positions@, normals@, uvs@, entries@, faces@, indices@).lookup
            =~= Map::<(u32, u32, u32), u32>::empty());
        assert(obj_model(positions@, normals@, uvs@, entries@, faces@, indices@).positions
            =~= Seq::<(Seq<u8>, Seq<u8>, Seq<u8>)>::empty());
        assert(obj_model(positions@, normals@, uvs@, entries@, faces@, indices@).normals
            =~= Seq::<(Seq<u8>, Seq<u8>, Seq<u8>)>::empty());
        assert(obj_model(positions@, normals@, uvs@, entries@, faces@, indices@).uvs =~= Seq::<
            (Seq<u8>, Seq<u8>),
        >::empty());
        assert(obj_model(positions@, normals@, uvs@, entries@, faces@, indices@).faces =~= Seq::<
            ObjVertexModel,
        >::empty());
        assert(obj_model(positions@, normals@, uvs@, entries@, faces@, indices@)
            =~= spec_obj_init());
        assert(lns.skip(0) =~= lns);
    }
    let mut i: usize = 0;
    while i < nlines
        invariant
            i <= nlines,
            nlines == lines@.len(),
            views_of(lines@) == lns,
            lns == spec_lines(content@),
            lookup_wf(entries@, faces@.len()),
            forall|k: int| 0 <= k < indices@.len() ==> (indices@[k] as int) < faces@.len(),
            spec_obj_fold(spec_obj_init(), lns) == spec_obj_fold(
                obj_model(positions@, normals@, uvs@, entries@, faces@, indices@),
                lns.skip(i as int),
            ),
        decreases nlines - i,
    {
        let ghost st = obj_model(positions@, normals@, uvs@, entries@, faces@, indices@);
        proof {
            assert(lns[i as int] == lines@[i as int]@);
        }
        let line = &lines[i];
        match obj_line_exec(
            &mut positions,
            &mut normals,
            &mut uvs,
            &mut entries,
            &mut faces,
            &mut indices,
            line,
        ) {
            Ok(u) => {
                proof {
                    let st2 = obj_model(positions@, normals@, uvs@, entries@, faces@, indices@);
                    lemma_obj_fold_step_ok(st, st2, lns, i as int);
                }
            },
            Err(e) => {
                proof {
                    lemma_obj_fold_step_err(st, e, lns, i as int);
                }
                return Err(e);
            },
        }
        i = i + 1;
    }
    proof {
        assert(lns.skip(nlines as int) =~= Seq::<Seq<u8>>::empty());
    }
    Ok((faces, indices))
}


} // verus!
