//! Verified text utilities for the command parser and the filter matcher:
//! literal substring containment, prefix tests, whitespace tokenization,
//! joining, ASCII lowercasing and signed integer parsing.

use vstd::prelude::*;

verus! {

/// `pat` occurs in `text` starting at position `i`.
pub open spec fn is_match_at(text: Seq<char>, pat: Seq<char>, i: int) -> bool {
    0 <= i && i + pat.len() <= text.len() && text.subrange(i, i + pat.len()) == pat
}

/// `pat` is a literal (contiguous) subsequence of `text`.
pub open spec fn contains_seq(text: Seq<char>, pat: Seq<char>) -> bool {
    exists|i: int| is_match_at(text, pat, i)
}

/// `pat` is a prefix of `text`.
pub open spec fn starts_with_seq(text: Seq<char>, pat: Seq<char>) -> bool {
    is_match_at(text, pat, 0)
}

/// `pat` occurs in `text` at position `i` exactly.
fn match_at(text: &str, pat: &str, i: usize, n: usize, m: usize) -> (r: bool)
    requires
        n == text@.len(),
        m == pat@.len(),
        i + m <= n,
    ensures
        r == is_match_at(text@, pat@, i as int),
{
    let mut j: usize = 0;
    while j < m
        invariant
            n == text@.len(),
            m == pat@.len(),
            i + m <= n,
            0 <= j <= m,
            forall|k: int| 0 <= k < j ==> text@[i + k] == pat@[k],
        decreases m - j,
    {
        if text.get_char(i + j) != pat.get_char(j) {
            assert(text@.subrange(i as int, i + m) != pat@) by {
                assert(text@.subrange(i as int, i + m)[j as int] != pat@[j as int]);
            }
            return false;
        }
        j += 1;
    }
    assert(text@.subrange(i as int, i + m) =~= pat@);
    true
}

/// Literal substring containment, the filter trigger test.
pub fn contains_str(text: &str, pat: &str) -> (r: bool)
    ensures
        r == contains_seq(text@, pat@),
{
    let n = text.unicode_len();
    let m = pat.unicode_len();
    if m > n {
        assert(forall|i: int| !is_match_at(text@, pat@, i));
        return false;
    }
    if m == 0 {
        assert(text@.subrange(0, 0) =~= pat@);
        assert(is_match_at(text@, pat@, 0));
        return true;
    }
    let mut i: usize = 0;
    while i <= n - m
        invariant
            n == text@.len(),
            m == pat@.len(),
            0 < m <= n,
            0 <= i <= n - m + 1,
            forall|k: int| 0 <= k < i ==> !is_match_at(text@, pat@, k),
        decreases n - i,
    {
        if match_at(text, pat, i, n, m) {
            return true;
        }
        i += 1;
    }
    assert(forall|k: int| !is_match_at(text@, pat@, k));
    false
}

/// Prefix test, the command classification test.
pub fn starts_with_str(text: &str, pat: &str) -> (r: bool)
    ensures
        r == starts_with_seq(text@, pat@),
{
    let n = text.unicode_len();
    let m = pat.unicode_len();
    if m > n {
        return false;
    }
    match_at(text, pat, 0, n, m)
}

/// The tokens of `s`, split on the single space character. Splitting never
/// yields an empty sequence: the empty text has the single empty token.
pub open spec fn split_spaces_spec(s: Seq<char>) -> Seq<Seq<char>>
    decreases s.len(),
{
    if s.len() == 0 {
        seq![Seq::<char>::empty()]
    } else if s[0] == ' ' {
        seq![Seq::<char>::empty()] + split_spaces_spec(s.skip(1))
    } else {
        let r = split_spaces_spec(s.skip(1));
        seq![seq![s[0]] + r[0]] + r.skip(1)
    }
}

pub proof fn lemma_split_spaces_len(s: Seq<char>)
    ensures
        split_spaces_spec(s).len() >= 1,
    decreases s.len(),
{
    if s.len() == 0 {
    } else {
        lemma_split_spaces_len(s.skip(1));
    }
}

/// When the first `k` characters of `s` hold no space and position `k` (if it
/// is inside `s`) holds one, the first token is `s.take(k)` and the rest are
/// the tokens of what follows that space.
pub proof fn lemma_split_token(s: Seq<char>, k: int)
    requires
        0 <= k <= s.len(),
        forall|j: int| 0 <= j < k ==> s[j] != ' ',
        k < s.len() ==> s[k] == ' ',
    ensures
        k == s.len() ==> split_spaces_spec(s) == seq![s],
        k < s.len() ==> split_spaces_spec(s) == seq![s.take(k)] + split_spaces_spec(s.skip(k + 1)),
    decreases k,
{
    lemma_split_spaces_len(s.skip(1));
    if k == 0 {
        if s.len() == 0 {
            assert(split_spaces_spec(s) =~~= seq![s]);
        } else {
            assert(s.take(0) =~= Seq::<char>::empty());
            assert(s.skip(1) == s.skip(k + 1));
        }
    } else {
        let t = s.skip(1);
        assert forall|j: int| 0 <= j < k - 1 implies t[j] != ' ' by {
            assert(t[j] == s[j + 1]);
        }
        if k - 1 < t.len() {
            assert(t[k - 1] == s[k]);
        }
        lemma_split_token(t, k - 1);
        let r = split_spaces_spec(t);
        if k == s.len() {
            assert(r == seq![t]);
            assert(seq![s[0]] + r[0] =~= s);
            assert(split_spaces_spec(s) =~= seq![s]);
        } else {
            assert(r == seq![t.take(k - 1)] + split_spaces_spec(t.skip(k)));
            assert(seq![s[0]] + r[0] =~= s.take(k));
            assert(r.skip(1) =~= split_spaces_spec(t.skip(k)));
            assert(t.skip(k) =~= s.skip(k + 1));
            assert(split_spaces_spec(s) =~= seq![s.take(k)] + split_spaces_spec(s.skip(k + 1)));
        }
    }
}

/// Position of the first space at or after `pos`, or `n` when there is none.
fn find_space(s: &str, pos: usize, n: usize) -> (j: usize)
    requires
        n == s@.len(),
        pos <= n,
    ensures
        pos <= j <= n,
        forall|t: int| pos <= t < j ==> s@[t] != ' ',
        j < n ==> s@[j as int] == ' ',
{
    let mut j: usize = pos;
    while j < n
        invariant
            n == s@.len(),
            pos <= j <= n,
            forall|t: int| pos <= t < j ==> s@[t] != ' ',
        decreases n - j,
    {
        if s.get_char(j) == ' ' {
            return j;
        }
        j += 1;
    }
    j
}

/// Split `s` on the single space character, as the command parser does.
pub fn split_spaces(s: &str) -> (out: Vec<String>)
    ensures
        out.deep_view() == split_spaces_spec(s@),
        out.len() >= 1,
{
    let n = s.unicode_len();
    let mut out: Vec<String> = Vec::new();
    let mut pos: usize = 0;
    proof {
        assert(s@.skip(0) =~= s@);
        assert(out.deep_view() =~~= Seq::<Seq<char>>::empty());
        assert(split_spaces_spec(s@) =~~= out.deep_view() + split_spaces_spec(s@.skip(0)));
    }
    loop
        invariant
            n == s@.len(),
            0 <= pos <= n,
            split_spaces_spec(s@) == out.deep_view() + split_spaces_spec(s@.skip(pos as int)),
        decreases n - pos,
    {
        let j = find_space(s, pos, n);
        let token = String::from_str(s.substring_char(pos, j));
        proof {
            let rest = s@.skip(pos as int);
            assert forall|t: int| 0 <= t < j - pos implies rest[t] != ' ' by {
                assert(rest[t] == s@[t + pos]);
            }
            if j < n {
                assert(rest[j - pos] == s@[j as int]);
            }
            lemma_split_token(rest, j - pos);
            assert(rest.take(j - pos) =~= s@.subrange(pos as int, j as int));
            assert(rest =~= s@.subrange(pos as int, n as int));
        }
        let ghost old_out = out.deep_view();
        out.push(token);
        proof {
            assert(out.deep_view() =~= old_out.push(token@));
        }
        if j < n {
            proof {
                assert(s@.skip(pos as int).skip(j - pos + 1) =~= s@.skip(j + 1));
                assert(split_spaces_spec(s@) =~= out.deep_view() + split_spaces_spec(
                    s@.skip(j + 1),
                ));
            }
            pos = j + 1;
        } else {
            proof {
                assert(split_spaces_spec(s@) =~= out.deep_view());
            }
            return out;
        }
    }
}

/// The tokens joined back with a single space between each pair.
pub open spec fn join_with_space(ts: Seq<Seq<char>>) -> Seq<char>
    decreases ts.len(),
{
    if ts.len() == 0 {
        Seq::empty()
    } else if ts.len() == 1 {
        ts[0]
    } else {
        ts[0] + seq![' '] + join_with_space(ts.skip(1))
    }
}

pub proof fn lemma_join_push(ts: Seq<Seq<char>>, t: Seq<char>)
    ensures
        ts.len() == 0 ==> join_with_space(ts.push(t)) == t,
        ts.len() > 0 ==> join_with_space(ts.push(t)) == join_with_space(ts) + seq![' '] + t,
    decreases ts.len(),
{
    if ts.len() == 0 {
        assert(ts.push(t)[0] == t);
    } else if ts.len() == 1 {
        assert(ts.push(t)[0] == ts[0]);
        assert(ts.push(t).skip(1) =~= seq![t]);
        assert(join_with_space(seq![t]) == t);
    } else {
        lemma_join_push(ts.skip(1), t);
        assert(ts.push(t).skip(1) =~= ts.skip(1).push(t));
        assert(ts.push(t)[0] == ts[0]);
    }
}

/// Join `args[from..]` with a single space, as the command arguments are.
pub fn join_from(args: &Vec<String>, from: usize) -> (r: String)
    requires
        from <= args.len(),
    ensures
        r@ == join_with_space(args.deep_view().skip(from as int)),
{
    let ghost dv = args.deep_view();
    let mut r = String::new();
    let mut i: usize = from;
    while i < args.len()
        invariant
            from <= i <= args.len(),
            dv == args.deep_view(),
            dv.len() == args.len(),
            r@ == join_with_space(dv.subrange(from as int, i as int)),
        decreases args.len() - i,
    {
        proof {
            reveal_strlit(" ");
            lemma_join_push(dv.subrange(from as int, i as int), dv[i as int]);
            assert(dv.subrange(from as int, i + 1) =~= dv.subrange(from as int, i as int).push(
                dv[i as int],
            ));
        }
        if i > from {
            r.append(" ");
            proof {
                assert(" "@ =~= seq![' ']);
            }
        }
        r.append(args[i].as_str());
        i += 1;
    }
    proof {
        assert(dv.subrange(from as int, args.len() as int) =~= dv.skip(from as int));
    }
    r
}


/// ASCII lowercasing of one character, as applied to the command verb.
pub open spec fn lower_char(c: char) -> char {
    if 65 <= c as int <= 90 {
        ((c as u8) + 32) as char
    } else {
        c
    }
}

/// ASCII lowercasing of a text.
pub open spec fn lower_seq(s: Seq<char>) -> Seq<char> {
    s.map_values(|c: char| lower_char(c))
}

/// `prefix` stripped from the left of `t` exactly once, when present.
pub open spec fn strip_prefix_spec(t: Seq<char>, prefix: Seq<char>) -> Seq<char> {
    if starts_with_seq(t, prefix) {
        t.skip(prefix.len() as int)
    } else {
        t
    }
}

/// The command verb named by the first token `t0`: the prefix stripped once
/// from its left, then lowercased.
pub open spec fn verb_spec(t0: Seq<char>, prefix: Seq<char>) -> Seq<char> {
    lower_seq(strip_prefix_spec(t0, prefix))
}

fn lower_char_x(c: char) -> (r: char)
    ensures
        r == lower_char(c),
{
    let u = c as u32;
    if 65 <= u && u <= 90 {
        ((u as u8) + 32) as char
    } else {
        c
    }
}

/// Does the first token `t0` name the command verb `verb`?
pub fn verb_is(t0: &str, prefix: &str, verb: &str) -> (r: bool)
    ensures
        r == (verb_spec(t0@, prefix@) == verb@),
{
    let n = t0.unicode_len();
    let k = if starts_with_str(t0, prefix) {
        prefix.unicode_len()
    } else {
        0
    };
    let ghost stripped = strip_prefix_spec(t0@, prefix@);
    proof {
        assert(stripped =~= t0@.skip(k as int));
        assert(verb_spec(t0@, prefix@).len() == stripped.len());
    }
    let m = verb.unicode_len();
    if n - k != m {
        return false;
    }
    let mut j: usize = 0;
    while j < m
        invariant
            n == t0@.len(),
            m == verb@.len(),
            k <= n,
            n - k == m,
            stripped == t0@.skip(k as int),
            forall|t: int| 0 <= t < j ==> lower_char(stripped[t]) == verb@[t],
        decreases m - j,
    {
        if lower_char_x(t0.get_char(k + j)) != verb.get_char(j) {
            assert(lower_seq(stripped)[j as int] != verb@[j as int]);
            return false;
        }
        assert(stripped[j as int] == t0@[k + j]);
        j += 1;
    }
    assert(lower_seq(stripped) =~= verb@);
    true
}

/// A digit character.
pub open spec fn is_digit(c: char) -> bool {
    48 <= c as int <= 57
}

/// The numeric value of a digit sequence, most significant digit first.
pub open spec fn digits_val(s: Seq<char>) -> int
    decreases s.len(),
{
    if s.len() == 0 {
        0
    } else {
        digits_val(s.drop_last()) * 10 + (s.last() as int - 48)
    }
}

/// The digit part of a signed integer literal: the text after an optional
/// single leading sign.
pub open spec fn int_body(s: Seq<char>) -> Seq<char> {
    if s.len() > 0 && (s[0] == '+' || s[0] == '-') {
        s.skip(1)
    } else {
        s
    }
}

/// The literal carries a leading minus sign.
pub open spec fn int_negative(s: Seq<char>) -> bool {
    s.len() > 0 && s[0] == '-'
}

/// `s` is a well-formed signed 64-bit integer literal: an optional sign, then
/// one or more digits, with a value in range.
pub open spec fn all_digits(s: Seq<char>) -> bool {
    forall|j: int| 0 <= j < s.len() ==> is_digit(#[trigger] s[j])
}

pub open spec fn parse_i64_ok(s: Seq<char>) -> bool {
    int_body(s).len() > 0 && all_digits(int_body(s)) && (if int_negative(s) {
        digits_val(int_body(s)) <= 0x8000000000000000
    } else {
        digits_val(int_body(s)) <= 0x7fffffffffffffff
    })
}

/// The value of a well-formed signed 64-bit integer literal.
pub open spec fn parse_i64_val(s: Seq<char>) -> int {
    if int_negative(s) {
        -digits_val(int_body(s))
    } else {
        digits_val(int_body(s))
    }
}

proof fn lemma_digits_val_nonneg(s: Seq<char>)
    requires
        all_digits(s),
    ensures
        digits_val(s) >= 0,
    decreases s.len(),
{
    if s.len() > 0 {
        lemma_digits_val_nonneg(s.drop_last());
    }
}

proof fn lemma_digits_val_mono(s: Seq<char>, t: int)
    requires
        all_digits(s),
        0 <= t <= s.len(),
    ensures
        digits_val(s) >= digits_val(s.take(t)),
    decreases s.len() - t,
{
    if t < s.len() {
        lemma_digits_val_mono(s, t + 1);
        assert(s.take(t + 1).drop_last() =~= s.take(t));
        assert(s.take(t + 1).last() == s[t]);
        assert(all_digits(s.take(t)));
        lemma_digits_val_nonneg(s.take(t));
    } else {
        assert(s.take(t) =~= s);
    }
}

/// Parse a signed 64-bit integer, as the repeat count is parsed: an optional
/// sign followed by one or more digits; anything else, or a value out of
/// range, yields `None`.
pub fn parse_i64(s: &str) -> (r: Option<i64>)
    ensures
        parse_i64_ok(s@) <==> r is Some,
        r is Some ==> r->0 as int == parse_i64_val(s@),
{
    let n = s.unicode_len();
    if n == 0 {
        return None;
    }
    let c0 = s.get_char(0);
    let neg = c0 == '-';
    let k: usize = if c0 == '-' || c0 == '+' {
        1
    } else {
        0
    };
    let ghost b = int_body(s@);
    proof {
        assert(b =~= s@.skip(k as int));
    }
    if n == k {
        return None;
    }
    let limit: u64 = if neg {
        0x8000000000000000
    } else {
        0x7fffffffffffffff
    };
    let mut acc: u64 = 0;
    let mut j: usize = k;
    while j < n
        invariant
            n == s@.len(),
            k <= j <= n,
            k < n,
            b == int_body(s@),
            b == s@.skip(k as int),
            b.len() == n - k,
            neg == int_negative(s@),
            neg ==> limit == 0x8000000000000000,
            !neg ==> limit == 0x7fffffffffffffff,
            acc <= limit,
            acc as int == digits_val(b.take(j - k)),
            forall|t: int| 0 <= t < j - k ==> is_digit(b[t]),
        decreases n - j,
    {
        let c = s.get_char(j);
        proof {
            assert(b[j - k] == s@[j as int]);
        }
        let u = c as u32;
        if u < 48 || u > 57 {
            assert(!is_digit(b[j - k]));
            return None;
        }
        let d = (u - 48) as u64;
        proof {
            assert(b.take(j - k + 1).drop_last() =~= b.take(j - k));
            assert(b.take(j - k + 1).last() == b[j - k]);
        }
        if acc > (0xffffffffffffffff - 9) / 10 || acc * 10 + d > limit {
            proof {
                if parse_i64_ok(s@) {
                    assert(all_digits(b));
                    assert(digits_val(b.take(j - k + 1)) == acc as int * 10 + d);
                    lemma_digits_val_mono(b, j - k + 1);
                    assert(digits_val(b) >= acc as int * 10 + d);
                    assert(false);
                }
            }
            return None;
        }
        acc = acc * 10 + d;
        j += 1;
    }
    proof {
        assert(b.take(n - k) =~= b);
    }
    if neg {
        if acc == 0x8000000000000000 {
            Some(i64::MIN)
        } else {
            Some(-(acc as i64))
        }
    } else {
        Some(acc as i64)
    }
}

} // verus!
