//! Small text utilities shared by the layout engine and the renderer:
//! decimal digit counts, decimal rendering, padding, centering, and
//! literal (non-regex) substring replacement.
use vstd::prelude::*;

verus! {

/// Number of decimal digits of `n`: 1 for values below ten, one more for
/// each further factor of ten.
pub open spec fn digit_count(n: int) -> int
    decreases n,
{
    if n < 10 {
        1
    } else {
        1 + digit_count(n / 10)
    }
}

/// Powers of ten, used to bound digit counts.
pub open spec fn pow10(k: nat) -> int
    decreases k,
{
    if k == 0 {
        1
    } else {
        10 * pow10((k - 1) as nat)
    }
}

pub proof fn lemma_digit_count_at_least_one(n: int)
    ensures
        digit_count(n) >= 1,
    decreases n,
{
    if n >= 10 {
        lemma_digit_count_at_least_one(n / 10);
    }
}

/// A value below `pow10(k)` has at most `k` digits.
pub proof fn lemma_digit_count_le(n: int, k: nat)
    requires
        k >= 1,
        0 <= n < pow10(k),
    ensures
        digit_count(n) <= k,
    decreases k,
{
    if n < 10 {
    } else {
        assert(pow10(1) == 10) by {
            reveal_with_fuel(pow10, 2);
        }
        if k == 1 {
            assert(false);
        } else {
            lemma_digit_count_le(n / 10, (k - 1) as nat);
        }
    }
}

/// Any `u64` has at most 20 decimal digits.
pub proof fn lemma_digit_count_u64(n: int)
    requires
        0 <= n <= u64::MAX,
    ensures
        1 <= digit_count(n) <= 20,
{
    reveal_with_fuel(pow10, 21);
    assert(pow10(20) > u64::MAX as int);
    lemma_digit_count_at_least_one(n);
    lemma_digit_count_le(n, 20);
}

/// The decimal digit character for a value in 0..=9.
pub open spec fn digit_char(d: int) -> char {
    ((48 + d) as u8) as char
}

/// Decimal rendering of a non-negative integer, most significant digit
/// first, with no sign and no leading zeros (except for zero itself).
pub open spec fn dec_str(n: int) -> Seq<char>
    recommends
        n >= 0,
    decreases n,
{
    if n < 10 {
        seq![digit_char(n)]
    } else {
        dec_str(n / 10) + seq![digit_char(n % 10)]
    }
}

/// Appends the decimal rendering of `n` to `out`.
pub fn push_dec_u64(out: &mut Vec<char>, n: u64)
    ensures
        final(out)@ == old(out)@ + dec_str(n as int),
    decreases n,
{
    if n >= 10 {
        push_dec_u64(out, n / 10);
    }
    let d: u8 = (n % 10) as u8 + 48;
    out.push(d as char);
    proof {
        if n < 10 {
            assert(out@ =~= old(out)@ + dec_str(n as int));
        } else {
            assert(out@ =~= old(out)@ + dec_str(n as int));
        }
    }
}

/// `n` copies of the character `c` (empty when `n` is not positive).
pub open spec fn repeat_char(c: char, n: int) -> Seq<char> {
    if n <= 0 {
        Seq::empty()
    } else {
        Seq::new(n as nat, |i| c)
    }
}

/// Appends `n` copies of `c` to `out`.
pub fn push_repeat(out: &mut Vec<char>, c: char, n: usize)
    ensures
        final(out)@ == old(out)@ + repeat_char(c, n as int),
{
    let mut i: usize = 0;
    while i < n
        invariant
            i <= n,
            out@ == old(out)@ + repeat_char(c, i as int),
        decreases n - i,
    {
        out.push(c);
        i = i + 1;
        proof {
            assert(out@ =~= old(out)@ + repeat_char(c, i as int));
        }
    }
}

/// Appends a copy of `t` to `out`.
pub fn push_chars(out: &mut Vec<char>, t: &Vec<char>)
    ensures
        final(out)@ == old(out)@ + t@,
{
    let mut i: usize = 0;
    while i < t.len()
        invariant
            i <= t@.len(),
            out@ == old(out)@ + t@.subrange(0, i as int),
        decreases t@.len() - i,
    {
        out.push(t[i]);
        i = i + 1;
        proof {
            assert(out@ =~= old(out)@ + t@.subrange(0, i as int));
        }
    }
    proof {
        assert(t@.subrange(0, t@.len() as int) =~= t@);
    }
}

/// Appends the characters of the string `s` to `out`.
pub fn push_str_chars(out: &mut Vec<char>, s: &str)
    ensures
        final(out)@ == old(out)@ + s@,
{
    let n = s.unicode_len();
    let mut i: usize = 0;
    while i < n
        invariant
            i <= n,
            n == s@.len(),
            out@ == old(out)@ + s@.subrange(0, i as int),
        decreases n - i,
    {
        out.push(s.get_char(i));
        i = i + 1;
        proof {
            assert(out@ =~= old(out)@ + s@.subrange(0, i as int));
        }
    }
    proof {
        assert(s@.subrange(0, s@.len() as int) =~= s@);
    }
}

/// The characters of `s` as a vector.
pub fn chars_of(s: &str) -> (v: Vec<char>)
    ensures
        v@ == s@,
{
    let mut v: Vec<char> = Vec::new();
    push_str_chars(&mut v, s);
    v
}

/// Relies on `String`'s `FromIterator` implementation: collecting the
/// characters of `v` yields a string whose character sequence is `v`.
#[verifier::external_body]
pub(crate) fn chars_to_string(v: &Vec<char>) -> (s: String)
    ensures
        s@ == v@,
{
    v.iter().collect()
}

/// `t` centered in a field of `w` characters, filled with `fill` on both
/// sides; when the padding is odd the right side gets the extra character,
/// and text at least `w` long is kept whole.
pub open spec fn centered(t: Seq<char>, fill: char, w: int) -> Seq<char> {
    if t.len() >= w {
        t
    } else {
        let pad = w - t.len();
        repeat_char(fill, pad / 2) + t + repeat_char(fill, pad - pad / 2)
    }
}

/// Builds the `centered` rendering of `t`.
pub fn centered_chars(t: &Vec<char>, fill: char, w: usize) -> (r: Vec<char>)
    ensures
        r@ == centered(t@, fill, w as int),
{
    let mut r: Vec<char> = Vec::new();
    if t.len() >= w {
        push_chars(&mut r, t);
    } else {
        let pad = w - t.len();
        let left = pad / 2;
        push_repeat(&mut r, fill, left);
        push_chars(&mut r, t);
        push_repeat(&mut r, fill, pad - left);
    }
    r
}

/// `t` padded on the left with spaces to at least `w` characters.
pub open spec fn pad_left(t: Seq<char>, w: int) -> Seq<char> {
    repeat_char(' ', w - t.len()) + t
}

/// Leftmost, non-overlapping replacement of `pat` by `rep` in `s`; the
/// replacement text is not itself rescanned. An empty pattern replaces
/// nothing.
pub open spec fn replace_all(s: Seq<char>, pat: Seq<char>, rep: Seq<char>) -> Seq<char>
    decreases s.len(),
{
    if pat.len() == 0 || s.len() < pat.len() {
        s
    } else if s.subrange(0, pat.len() as int) == pat {
        rep + replace_all(s.subrange(pat.len() as int, s.len() as int), pat, rep)
    } else {
        seq![s[0]] + replace_all(s.subrange(1, s.len() as int), pat, rep)
    }
}

/// True when `pat` occurs in `s` starting at position `i`.
pub fn chars_match_at(s: &Vec<char>, i: usize, pat: &Vec<char>) -> (r: bool)
    requires
        i <= s@.len(),
    ensures
        r == (i + pat@.len() <= s@.len() && s@.subrange(i as int, i + pat@.len()) == pat@),
{
    let n = s.len();
    if pat.len() > n - i {
        return false;
    }
    let mut k: usize = 0;
    while k < pat.len()
        invariant
            k <= pat@.len(),
            i + pat@.len() <= n,
            n == s@.len(),
            forall|j: int| 0 <= j < k ==> s@[i + j] == pat@[j],
        decreases pat@.len() - k,
    {
        if s[i + k] != pat[k] {
            proof {
                assert(s@.subrange(i as int, i + pat@.len())[k as int] != pat@[k as int]);
            }
            return false;
        }
        k = k + 1;
    }
    proof {
        assert(s@.subrange(i as int, i + pat@.len()) =~= pat@);
    }
    true
}

/// Builds the `replace_all` rendering of `s`.
pub fn replace_all_chars(s: &Vec<char>, pat: &Vec<char>, rep: &Vec<char>) -> (r: Vec<char>)
    ensures
        r@ == replace_all(s@, pat@, rep@),
{
    let mut out: Vec<char> = Vec::new();
    if pat.len() == 0 {
        push_chars(&mut out, s);
        return out;
    }
    let mut i: usize = 0;
    proof {
        assert(s@.subrange(0, s@.len() as int) =~= s@);
        assert(out@ + replace_all(s@, pat@, rep@) =~= replace_all(s@, pat@, rep@));
    }
    while i < s.len()
        invariant
            i <= s@.len(),
            pat@.len() >= 1,
            replace_all(s@, pat@, rep@) == out@ + replace_all(
                s@.subrange(i as int, s@.len() as int),
                pat@,
                rep@,
            ),
        decreases s@.len() - i,
    {
        let ghost suffix = s@.subrange(i as int, s@.len() as int);
        if chars_match_at(s, i, pat) {
            push_chars(&mut out, rep);
            i = i + pat.len();
            proof {
                assert(suffix.subrange(0, pat@.len() as int) =~= s@.subrange(
                    i - pat@.len(),
                    i - pat@.len() + pat@.len(),
                ));
                assert(suffix.subrange(pat@.len() as int, suffix.len() as int) =~= s@.subrange(
                    i as int,
                    s@.len() as int,
                ));
            }
        } else {
            out.push(s[i]);
            i = i + 1;
            proof {
                if suffix.len() >= pat@.len() {
                    assert(suffix.subrange(0, pat@.len() as int) =~= s@.subrange(
                        i - 1,
                        i - 1 + pat@.len(),
                    ));
                }
                assert(seq![suffix[0]] =~= Seq::empty().push(s@[i - 1]));
                assert(suffix.subrange(1, suffix.len() as int) =~= s@.subrange(
                    i as int,
                    s@.len() as int,
                ));
            }
        }
    }
    proof {
        assert(s@.subrange(s@.len() as int, s@.len() as int) =~= Seq::<char>::empty());
        assert(out@ + Seq::<char>::empty() =~= out@);
    }
    out
}

/// Decimal digit count of a machine integer, matching `digit_count`.
pub fn digits_u64(n: u64) -> (r: usize)
    ensures
        r == digit_count(n as int),
{
    proof {
        lemma_digit_count_u64(n as int);
    }
    let mut d: usize = 1;
    let mut rest: u64 = n;
    while rest >= 10
        invariant
            1 <= d <= 20,
            d + digit_count(rest as int) == 1 + digit_count(n as int),
            digit_count(n as int) <= 20,
        decreases rest,
    {
        proof {
            lemma_digit_count_at_least_one(rest as int / 10);
        }
        rest = rest / 10;
        d = d + 1;
    }
    d
}

} // verus!
