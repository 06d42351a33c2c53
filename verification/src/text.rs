//! Text building blocks shared by the message and request builders: decimal
//! notation of integers and substitution of a placeholder.

use vstd::prelude::*;
use vstd::string::*;

verus! {

/// The character that writes the decimal digit `d`, for `0 <= d <= 9`.
pub open spec fn digit_char(d: int) -> char {
    (48 + d) as char
}

/// Decimal notation of a natural number, most significant digit first and
/// without leading zeros.
pub open spec fn decimal(n: nat) -> Seq<char>
    decreases n,
{
    if n < 10 {
        seq![digit_char(n as int)]
    } else {
        decimal(n / 10).push(digit_char((n % 10) as int))
    }
}

/// Decimal notation of an integer: a minus sign before the magnitude of a
/// negative number.
pub open spec fn signed_decimal(n: int) -> Seq<char> {
    if n < 0 {
        seq!['-'] + decimal((-n) as nat)
    } else {
        decimal(n as nat)
    }
}

/// `s` with every occurrence of `pattern` replaced by `with`. Occurrences are
/// found from left to right and do not overlap; an empty pattern occurs
/// nowhere.
pub open spec fn substitute(s: Seq<char>, pattern: Seq<char>, with: Seq<char>) -> Seq<char>
    decreases s.len(),
{
    if pattern.len() == 0 || s.len() < pattern.len() {
        s
    } else if s.subrange(0, pattern.len() as int) == pattern {
        with + substitute(s.skip(pattern.len() as int), pattern, with)
    } else {
        seq![s[0]] + substitute(s.skip(1), pattern, with)
    }
}

fn digit_text(d: u64) -> (s: &'static str)
    requires
        d < 10,
    ensures
        s@ == seq![digit_char(d as int)],
{
    proof {
        reveal_strlit("0");
        reveal_strlit("1");
        reveal_strlit("2");
        reveal_strlit("3");
        reveal_strlit("4");
        reveal_strlit("5");
        reveal_strlit("6");
        reveal_strlit("7");
        reveal_strlit("8");
        reveal_strlit("9");
    }
    match d {
        0 => "0",
        1 => "1",
        2 => "2",
        3 => "3",
        4 => "4",
        5 => "5",
        6 => "6",
        7 => "7",
        8 => "8",
        _ => "9",
    }
}

/// Appends the decimal notation of `n` to `out`.
pub fn append_decimal(out: &mut String, n: u64)
    ensures
        final(out)@ == old(out)@ + decimal(n as nat),
    decreases n,
{
    if n >= 10 {
        append_decimal(out, n / 10);
    }
    out.append(digit_text(n % 10));
}

/// Appends the decimal notation of `n`, with its sign, to `out`.
pub fn append_signed_decimal(out: &mut String, n: i64)
    ensures
        final(out)@ == old(out)@ + signed_decimal(n as int),
{
    if n < 0 {
        let magnitude: u64 = (-(n + 1)) as u64 + 1;
        proof {
            reveal_strlit("-");
        }
        out.append("-");
        append_decimal(out, magnitude);
    } else {
        append_decimal(out, n as u64);
    }
}

/// The characters of `s`, in order.
pub fn chars_of(s: &str) -> (v: Vec<char>)
    ensures
        v@ == s@,
{
    let mut v: Vec<char> = Vec::new();
    for c in it: s.chars()
        invariant
            v@ == it.seq().take(it.index() as int),
            it.seq() == s@,
    {
        v.push(c);
    }
    v
}

fn occurs_at(text: &Vec<char>, pattern: &Vec<char>, at: usize) -> (r: bool)
    requires
        at + pattern@.len() <= text@.len(),
    ensures
        r == (text@.subrange(at as int, at + pattern@.len()) == pattern@),
{
    let n: usize = text.len();
    let m: usize = pattern.len();
    let mut k: usize = 0;
    while k < m
        invariant
            n == text@.len(),
            m == pattern@.len(),
            at + m <= n,
            k <= m,
            forall|j: int| 0 <= j < k ==> text@[at + j] == pattern@[j],
        decreases m - k,
    {
        if text[at + k] != pattern[k] {
            return false;
        }
        k += 1;
    }
    assert(text@.subrange(at as int, at + m) =~= pattern@);
    true
}

/// A copy of `s` in which every occurrence of `pattern` is replaced by
/// `with`; see [`substitute`].
pub fn replace_all(s: &str, pattern: &str, with: &str) -> (r: String)
    ensures
        r@ == substitute(s@, pattern@, with@),
{
    let text = chars_of(s);
    let pat = chars_of(pattern);
    let n: usize = text.len();
    let m: usize = pat.len();
    if m == 0 || n < m {
        return String::from_str(s);
    }
    let mut out = String::new();
    let mut start: usize = 0;
    let mut i: usize = 0;
    proof {
        assert(text@.skip(0) =~= text@);
    }
    while i <= n - m
        invariant
            text@ == s@,
            pat@ == pattern@,
            n == text@.len(),
            m == pat@.len(),
            0 < m <= n,
            start <= i <= n,
            out@ + text@.subrange(start as int, i as int) + substitute(
                text@.skip(i as int),
                pat@,
                with@,
            ) == substitute(text@, pat@, with@),
        decreases n - i,
    {
        let ghost rest = text@.skip(i as int);
        assert(rest.subrange(0, m as int) =~= text@.subrange(i as int, i + m));
        if occurs_at(&text, &pat, i) {
            out.append(s.substring_char(start, i));
            out.append(with);
            proof {
                assert(rest.skip(m as int) =~= text@.skip(i + m));
            }
            i += m;
            start = i;
        } else {
            proof {
                assert(rest.skip(1) =~= text@.skip(i + 1));
            }
            i += 1;
        }
    }
    out.append(s.substring_char(start, n));
    out
}

} // verus!
