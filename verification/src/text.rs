//! Text helpers for attribute parsing: character-exact string equality,
//! splitting on a separator character, and decimal integer parsing, each
//! specified over the character sequence of its input.

use vstd::prelude::*;

verus! {

/// Character-exact equality of two strings.
pub fn str_eq(a: &str, b: &str) -> (r: bool)
    ensures
        r == (a@ == b@),
{
    let n = a.unicode_len();
    if n != b.unicode_len() {
        proof {
            assert(a@.len() != b@.len());
        }
        return false;
    }
    let mut i: usize = 0;
    while i < n
        invariant
            i <= n,
            n == a@.len(),
            n == b@.len(),
            forall|j: int| 0 <= j < i ==> a@[j] == b@[j],
        decreases n - i,
    {
        if a.get_char(i) != b.get_char(i) {
            return false;
        }
        i += 1;
    }
    proof {
        assert(a@ =~= b@);
    }
    true
}

/// Whether `c` is a decimal digit.
pub open spec fn is_dec_digit(c: char) -> bool {
    48 <= (c as u32) && (c as u32) <= 57
}

/// The value of a decimal digit.
pub open spec fn digit_val(c: char) -> int {
    (c as u32) - 48
}

/// Whether every character of `s` is a decimal digit.
pub open spec fn all_digits(s: Seq<char>) -> bool {
    forall|i: int| 0 <= i < s.len() ==> is_dec_digit(#[trigger] s[i])
}

/// The value of a sequence of decimal digits, most significant first.
pub open spec fn dec_value(s: Seq<char>) -> int
    decreases s.len(),
{
    if s.len() == 0 {
        0
    } else {
        dec_value(s.drop_last()) * 10 + digit_val(s.last())
    }
}

/// The digit part of an unsigned decimal literal: everything after one
/// optional leading plus sign.
pub open spec fn digits_of(s: Seq<char>) -> Seq<char> {
    if s.len() > 0 && s[0] == '+' {
        s.skip(1)
    } else {
        s
    }
}

/// The number an unsigned decimal literal stands for: an optional leading
/// plus sign followed by at least one digit; anything else is no number.
pub open spec fn parses_as_uint(s: Seq<char>) -> Option<int> {
    let d = digits_of(s);
    if d.len() > 0 && all_digits(d) {
        Some(dec_value(d))
    } else {
        None
    }
}

/// A digit sequence has a value of at least zero.
pub proof fn lemma_dec_value_nonneg(s: Seq<char>)
    requires
        all_digits(s),
    ensures
        dec_value(s) >= 0,
    decreases s.len(),
{
    if s.len() > 0 {
        assert(all_digits(s.drop_last())) by {
            assert(forall|i: int| 0 <= i < s.len() - 1 ==> s.drop_last()[i] == s[i]);
        }
        lemma_dec_value_nonneg(s.drop_last());
    }
}

/// Extending a digit prefix by one digit multiplies its value by ten and
/// adds the digit.
pub proof fn lemma_dec_value_take_succ(s: Seq<char>, k: int)
    requires
        0 <= k < s.len(),
    ensures
        dec_value(s.take(k + 1)) == dec_value(s.take(k)) * 10 + digit_val(s[k]),
{
    assert(s.take(k + 1).drop_last() =~= s.take(k));
    assert(s.take(k + 1).last() == s[k]);
}

/// A digit sequence is worth at least any of its prefixes.
pub proof fn lemma_dec_value_prefix_le(s: Seq<char>, k: int)
    requires
        all_digits(s),
        0 <= k <= s.len(),
    ensures
        dec_value(s.take(k)) <= dec_value(s),
    decreases s.len() - k,
{
    if k == s.len() {
        assert(s.take(k) =~= s);
    } else {
        lemma_dec_value_take_succ(s, k);
        assert(all_digits(s.take(k))) by {
            assert(forall|i: int| 0 <= i < k ==> s.take(k)[i] == s[i]);
        }
        lemma_dec_value_nonneg(s.take(k));
        assert(dec_value(s.take(k)) * 10 >= dec_value(s.take(k))) by (nonlinear_arith)
            requires
                dec_value(s.take(k)) >= 0,
        ;
        lemma_dec_value_prefix_le(s, k + 1);
    }
}

/// Parse an unsigned 64-bit decimal literal: an optional leading plus sign
/// and at least one digit, whose value fits in 64 bits.
pub fn parse_u64(s: &str) -> (r: Option<u64>)
    ensures
        match r {
            Some(v) => parses_as_uint(s@) == Some(v as int),
            None => parses_as_uint(s@) is None || parses_as_uint(s@).unwrap() > u64::MAX,
        },
{
    let n = s.unicode_len();
    let mut start: usize = 0;
    if n > 0 && s.get_char(0) == '+' {
        start = 1;
    }
    let ghost d = digits_of(s@);
    proof {
        assert(d =~= s@.skip(start as int));
    }
    if start >= n {
        return None;
    }
    let mut acc: u64 = 0;
    let mut i: usize = start;
    while i < n
        invariant
            start < n,
            start <= i <= n,
            n == s@.len(),
            d == digits_of(s@),
            d == s@.skip(start as int),
            d.len() == n - start,
            forall|j: int| 0 <= j < i - start ==> is_dec_digit(#[trigger] d[j]),
            acc == dec_value(d.take(i - start)),
        decreases n - i,
    {
        let c = s.get_char(i);
        let u = c as u32;
        proof {
            assert(d[i - start] == s@[i as int]);
        }
        if u < 48 || u > 57 {
            proof {
                assert(!is_dec_digit(d[i - start]));
                assert(!all_digits(d));
            }
            return None;
        }
        let dg = (u - 48) as u64;
        let limit = (u64::MAX - dg) / 10;
        if acc > limit {
            proof {
                let k = i - start;
                lemma_dec_value_take_succ(d, k);
                vstd::arithmetic::div_mod::lemma_fundamental_div_mod(
                    (u64::MAX - dg) as int,
                    10,
                );
                assert(acc * 10 >= (limit + 1) * 10) by (nonlinear_arith)
                    requires
                        acc >= limit + 1,
                ;
                assert(dec_value(d.take(k + 1)) > u64::MAX);
                if all_digits(d) {
                    lemma_dec_value_prefix_le(d, k + 1);
                }
            }
            return None;
        }
        proof {
            lemma_dec_value_take_succ(d, i - start);
        }
        acc = acc * 10 + dg;
        i += 1;
    }
    proof {
        assert(d.take(n - start) =~= d);
    }
    Some(acc)
}

/// Parse an unsigned decimal literal whose value fits in 32 bits.
pub fn parse_u32(s: &str) -> (r: Option<u32>)
    ensures
        match r {
            Some(v) => parses_as_uint(s@) == Some(v as int),
            None => parses_as_uint(s@) is None || parses_as_uint(s@).unwrap() > u32::MAX,
        },
{
    match parse_u64(s) {
        Some(v) => if v <= u32::MAX as u64 {
            Some(v as u32)
        } else {
            None
        },
        None => None,
    }
}

/// Parse an unsigned decimal literal whose value fits in 16 bits.
pub fn parse_u16(s: &str) -> (r: Option<u16>)
    ensures
        match r {
            Some(v) => parses_as_uint(s@) == Some(v as int),
            None => parses_as_uint(s@) is None || parses_as_uint(s@).unwrap() > u16::MAX,
        },
{
    match parse_u64(s) {
        Some(v) => if v <= u16::MAX as u64 {
            Some(v as u16)
        } else {
            None
        },
        None => None,
    }
}

/// Parse an unsigned decimal literal whose value fits in 8 bits.
pub fn parse_u8(s: &str) -> (r: Option<u8>)
    ensures
        match r {
            Some(v) => parses_as_uint(s@) == Some(v as int),
            None => parses_as_uint(s@) is None || parses_as_uint(s@).unwrap() > u8::MAX,
        },
{
    match parse_u64(s) {
        Some(v) => if v <= u8::MAX as u64 {
            Some(v as u8)
        } else {
            None
        },
        None => None,
    }
}

/// The pieces of `s` between occurrences of `sep`: always at least one
/// piece, one more piece per separator, in order, separators removed.
pub open spec fn split_seq(s: Seq<char>, sep: char) -> Seq<Seq<char>>
    decreases s.len(),
{
    if s.len() == 0 {
        seq![Seq::<char>::empty()]
    } else if s[0] == sep {
        seq![Seq::<char>::empty()] + split_seq(s.skip(1), sep)
    } else {
        let rest = split_seq(s.skip(1), sep);
        seq![seq![s[0]] + rest[0]] + rest.skip(1)
    }
}

/// Splitting yields at least one piece.
pub proof fn lemma_split_seq_len(s: Seq<char>, sep: char)
    ensures
        split_seq(s, sep).len() >= 1,
    decreases s.len(),
{
    if s.len() != 0 {
        lemma_split_seq_len(s.skip(1), sep);
    }
}

/// How splitting treats the remainder of `s` from position `i` on: a
/// separator opens a fresh piece, any other character extends the first
/// piece of what follows.
proof fn lemma_split_seq_step(s: Seq<char>, sep: char, i: int)
    requires
        0 <= i < s.len(),
    ensures
        s[i] == sep ==> split_seq(s.skip(i), sep) == seq![Seq::<char>::empty()] + split_seq(
            s.skip(i + 1),
            sep,
        ),
        s[i] != sep ==> split_seq(s.skip(i), sep) == seq![
            seq![s[i]] + split_seq(s.skip(i + 1), sep)[0],
        ] + split_seq(s.skip(i + 1), sep).skip(1),
{
    let t = s.skip(i);
    assert(t.len() == s.len() - i);
    assert(t[0] == s[i]);
    assert(t.skip(1) =~= s.skip(i + 1));
}

/// The character sequences of a sequence of strings.
pub open spec fn views_of(ps: Seq<String>) -> Seq<Seq<char>> {
    ps.map_values(|p: String| p@)
}

/// `views_of` keeps length and looks up pointwise.
pub proof fn lemma_views_of_index(ps: Seq<String>, i: int)
    requires
        0 <= i < ps.len(),
    ensures
        views_of(ps).len() == ps.len(),
        views_of(ps)[i] == ps[i]@,
{
}

/// `views_of` looks up and appends pointwise.
pub proof fn lemma_views_of_push(ps: Seq<String>, x: String)
    ensures
        views_of(ps.push(x)) =~= views_of(ps).push(x@),
        views_of(ps).len() == ps.len(),
        forall|i: int| 0 <= i < ps.len() ==> views_of(ps)[i] == ps[i]@,
{
}

/// Split `s` at every occurrence of `sep`.
pub fn split_str(s: &str, sep: char) -> (r: Vec<String>)
    ensures
        views_of(r@) == split_seq(s@, sep),
        r@.len() >= 1,
{
    let n = s.unicode_len();
    let mut r: Vec<String> = Vec::new();
    let mut start: usize = 0;
    let mut i: usize = 0;
    proof {
        lemma_split_seq_len(s@, sep);
        assert(s@.skip(0) =~= s@);
        let whole = split_seq(s@, sep);
        assert(s@.subrange(0, 0) + whole[0] =~= whole[0]);
        assert(views_of(r@) + seq![s@.subrange(0, 0) + whole[0]] + whole.skip(1) =~= whole);
    }
    while i < n
        invariant
            0 <= start <= i <= n,
            n == s@.len(),
            split_seq(s@, sep) == views_of(r@) + seq![
                s@.subrange(start as int, i as int) + split_seq(s@.skip(i as int), sep)[0],
            ] + split_seq(s@.skip(i as int), sep).skip(1),
        decreases n - i,
    {
        let ghost pre_r = r@;
        let ghost rest = split_seq(s@.skip(i as int), sep);
        let ghost rest1 = split_seq(s@.skip(i + 1), sep);
        proof {
            lemma_split_seq_step(s@, sep, i as int);
            lemma_split_seq_len(s@.skip(i + 1), sep);
        }
        if s.get_char(i) == sep {
            let piece = s.substring_char(start, i).to_owned();
            r.push(piece);
            proof {
                lemma_views_of_push(pre_r, r@[pre_r.len() as int]);
                assert(r@ == pre_r.push(r@[pre_r.len() as int]));
                assert(views_of(r@) =~= views_of(pre_r).push(s@.subrange(
                    start as int,
                    i as int,
                )));
                assert(s@.subrange(start as int, i as int) + Seq::<char>::empty() =~= s@.subrange(
                    start as int,
                    i as int,
                ));
                assert(rest == seq![Seq::<char>::empty()] + rest1);
                assert(rest[0] == Seq::<char>::empty());
                assert(rest.skip(1) =~= rest1);
                assert(rest1 =~= seq![rest1[0]] + rest1.skip(1));
                assert(split_seq(s@, sep) =~= views_of(r@) + seq![
                    s@.subrange(i + 1, i + 1) + rest1[0],
                ] + rest1.skip(1)) by {
                    assert(s@.subrange(i + 1, i + 1) + rest1[0] =~= rest1[0]);
                }
            }
            start = i + 1;
        } else {
            proof {
                assert(rest == seq![seq![s@[i as int]] + rest1[0]] + rest1.skip(1));
                assert(rest[0] == seq![s@[i as int]] + rest1[0]);
                assert(rest.skip(1) =~= rest1.skip(1));
                assert(s@.subrange(start as int, i + 1) =~= s@.subrange(start as int, i as int)
                    + seq![s@[i as int]]);
                assert(s@.subrange(start as int, i as int) + (seq![s@[i as int]] + rest1[0])
                    =~= s@.subrange(start as int, i + 1) + rest1[0]);
            }
        }
        i += 1;
    }
    let ghost pre_r = r@;
    let last = s.substring_char(start, n).to_owned();
    r.push(last);
    proof {
        lemma_views_of_push(pre_r, r@[pre_r.len() as int]);
        assert(r@ == pre_r.push(r@[pre_r.len() as int]));
        assert(views_of(r@) =~= views_of(pre_r).push(s@.subrange(start as int, n as int)));
        assert(split_seq(s@.skip(n as int), sep) =~= seq![Seq::<char>::empty()]);
        assert(s@.subrange(start as int, n as int) + Seq::<char>::empty() =~= s@.subrange(
            start as int,
            n as int,
        ));
        assert(split_seq(s@.skip(n as int), sep).skip(1) =~= Seq::<Seq<char>>::empty());
        assert(views_of(r@) =~= split_seq(s@, sep));
    }
    r
}

} // verus!
