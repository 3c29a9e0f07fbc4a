//! What the answers typed at Dopper's prompts mean, and which environments
//! may not be deleted.

use vstd::prelude::*;

use crate::text::{spec_trim, str_equal, trim};

verus! {

/// A character in ASCII lower case; other characters are kept.
pub open spec fn ascii_lower(c: char) -> char {
    if 'A' <= c && c <= 'Z' {
        ((c as int) + 32) as char
    } else {
        c
    }
}

/// The two texts are equal but for the case of ASCII letters.
pub open spec fn eq_ignore_ascii_case(a: Seq<char>, b: Seq<char>) -> bool {
    a.len() == b.len() && forall|i: int| 0 <= i < a.len() ==> ascii_lower(#[trigger] a[i]) == ascii_lower(b[i])
}

fn lower_char(c: char) -> (r: char)
    ensures
        r == ascii_lower(c),
{
    if 'A' <= c && c <= 'Z' {
        let code = (c as u32) + 32;
        assert(code < 256);
        let r = ((code as u8) as char);
        assert(r == ascii_lower(c));
        r
    } else {
        c
    }
}

/// Compares two texts ignoring the case of ASCII letters.
pub fn equals_ignoring_ascii_case(a: &str, b: &str) -> (r: bool)
    ensures
        r == eq_ignore_ascii_case(a@, b@),
{
    let n = a.unicode_len();
    if n != b.unicode_len() {
        return false;
    }
    for i in 0..n
        invariant
            n == a@.len(),
            n == b@.len(),
            forall|j: int| 0 <= j < i ==> ascii_lower(#[trigger] a@[j]) == ascii_lower(b@[j]),
    {
        if lower_char(a.get_char(i)) != lower_char(b.get_char(i)) {
            return false;
        }
    }
    true
}

/// A confirmation answer that means yes: `y` or `yes` in any case, with
/// surrounding whitespace ignored.
pub open spec fn spec_is_affirmative(answer: Seq<char>) -> bool {
    eq_ignore_ascii_case(spec_trim(answer), "y"@) || eq_ignore_ascii_case(spec_trim(answer), "yes"@)
}

/// Whether an answer to a yes/no question means yes.
pub fn is_affirmative(answer: &str) -> (r: bool)
    ensures
        r == spec_is_affirmative(answer@),
{
    let t = trim(answer);
    equals_ignoring_ascii_case(t, "y") || equals_ignoring_ascii_case(t, "yes")
}

/// The environments every project keeps: `dev` and `prod`.
pub open spec fn spec_is_protected_environment(slug: Seq<char>) -> bool {
    slug == "dev"@ || slug == "prod"@
}

/// Whether an environment may not be deleted.
pub fn is_protected_environment(slug: &str) -> (r: bool)
    ensures
        r == spec_is_protected_environment(slug@),
{
    str_equal(slug, "dev") || str_equal(slug, "prod")
}

pub open spec fn is_digit(c: char) -> bool {
    '0' <= c && c <= '9'
}

pub open spec fn digit_value(c: char) -> nat {
    ((c as int) - ('0' as int)) as nat
}

/// The number the decimal digits stand for.
pub open spec fn digits_value(s: Seq<char>) -> nat
    decreases s.len(),
{
    if s.len() == 0 {
        0
    } else {
        digits_value(s.drop_last()) * 10 + digit_value(s.last())
    }
}

/// The digits of a number text: without the `+` sign it may start with.
pub open spec fn unsigned_digits(s: Seq<char>) -> Seq<char> {
    if s.len() > 0 && s[0] == '+' {
        s.drop_first()
    } else {
        s
    }
}

/// An unsigned decimal number that fits in `usize`, as `str::parse::<usize>`
/// reads it: an optional `+`, then one or more digits.
pub open spec fn spec_parse_usize(s: Seq<char>) -> Option<nat> {
    let d = unsigned_digits(s);
    if d.len() > 0 && (forall|i: int| 0 <= i < d.len() ==> is_digit(#[trigger] d[i])) && digits_value(d)
        <= usize::MAX {
        Some(digits_value(d))
    } else {
        None
    }
}

proof fn lemma_digits_value_grows(s: Seq<char>, k: int)
    requires
        0 <= k <= s.len(),
        forall|i: int| 0 <= i < s.len() ==> is_digit(#[trigger] s[i]),
    ensures
        digits_value(s.take(k)) <= digits_value(s),
    decreases s.len() - k,
{
    if k < s.len() {
        lemma_digits_value_grows(s, k + 1);
        assert(s.take(k + 1).drop_last() =~= s.take(k));
        assert(digits_value(s.take(k + 1)) == digits_value(s.take(k)) * 10 + digit_value(s[k]));
    } else {
        assert(s.take(k) =~= s);
    }
}

/// Reads an unsigned decimal number that fits in `usize`.
pub fn parse_usize(s: &str) -> (r: Option<usize>)
    ensures
        match spec_parse_usize(s@) {
            Some(v) => r == Some(v as usize),
            None => r is None,
        },
{
    let n = s.unicode_len();
    let start: usize = if n > 0 && s.get_char(0) == '+' {
        1
    } else {
        0
    };
    let ghost d = unsigned_digits(s@);
    assert(d =~= s@.subrange(start as int, n as int));
    if start >= n {
        return None;
    }
    let mut acc: usize = 0;
    let mut i = start;
    while i < n
        invariant
            start <= i <= n,
            n == s@.len(),
            start < n,
            d == s@.subrange(start as int, n as int),
            d == unsigned_digits(s@),
            forall|j: int| 0 <= j < i - start ==> is_digit(#[trigger] d[j]),
            acc == digits_value(d.take(i - start)),
        decreases n - i,
    {
        let c = s.get_char(i);
        assert(c == d[i - start]);
        if !('0' <= c && c <= '9') {
            assert(!is_digit(d[i - start]));
            return None;
        }
        let dig = ((c as u32) - ('0' as u32)) as usize;
        assert(dig == digit_value(c));
        assert(d.take(i - start + 1).drop_last() =~= d.take(i - start));
        assert(digits_value(d.take(i - start + 1)) == acc * 10 + dig);
        if acc > (usize::MAX - dig) / 10 {
            assert(acc * 10 + dig > usize::MAX) by (nonlinear_arith)
                requires
                    acc > (usize::MAX - dig) / 10,
                    dig <= 9,
            ;
            proof {
                if forall|j: int| 0 <= j < d.len() ==> is_digit(#[trigger] d[j]) {
                    lemma_digits_value_grows(d, i - start + 1);
                }
            }
            return None;
        }
        assert(acc * 10 + dig <= usize::MAX) by (nonlinear_arith)
            requires
                acc <= (usize::MAX - dig) / 10,
                dig <= 9,
        ;
        acc = acc * 10 + dig;
        i = i + 1;
    }
    assert(d.take(n - start) =~= d);
    Some(acc)
}

/// The project picked at a numbered menu of `count` projects: the index of
/// the answer's number, counting from 1, where it is on the menu.
pub open spec fn spec_parse_selection(answer: Seq<char>, count: nat) -> Option<nat> {
    match spec_parse_usize(spec_trim(answer)) {
        Some(n) => if 1 <= n <= count {
            Some((n - 1) as nat)
        } else {
            None
        },
        None => None,
    }
}

/// Reads the answer to a numbered menu of `count` entries.
pub fn parse_selection(answer: &str, count: usize) -> (r: Option<usize>)
    ensures
        match spec_parse_selection(answer@, count as nat) {
            Some(i) => r == Some(i as usize),
            None => r is None,
        },
{
    match parse_usize(trim(answer)) {
        Some(n) => if n > 0 && n <= count {
            Some(n - 1)
        } else {
            None
        },
        None => None,
    }
}

} // verus!
