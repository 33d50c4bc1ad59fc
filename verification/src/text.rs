//! Character and decimal-string utilities shared by the classifier (age
//! parsing) and the duration formatter (decimal rendering).

use vstd::prelude::*;

verus! {

/// `c` is an ASCII decimal digit.
pub open spec fn is_digit_char(c: char) -> bool {
    48 <= c as int && c as int <= 57
}

/// Numeric value of an ASCII decimal digit.
pub open spec fn digit_val(c: char) -> int {
    c as int - 48
}

/// The ASCII digit character for a value in 0..=9.
pub open spec fn digit_char(d: int) -> char {
    if d == 0 {
        '0'
    } else if d == 1 {
        '1'
    } else if d == 2 {
        '2'
    } else if d == 3 {
        '3'
    } else if d == 4 {
        '4'
    } else if d == 5 {
        '5'
    } else if d == 6 {
        '6'
    } else if d == 7 {
        '7'
    } else if d == 8 {
        '8'
    } else {
        '9'
    }
}

/// Every character of `s` is an ASCII decimal digit.
pub open spec fn all_digits(s: Seq<char>) -> bool {
    forall|i: int| 0 <= i < s.len() ==> is_digit_char(s[i])
}

/// The value of `s` read as a decimal numeral (most significant digit first).
pub open spec fn digits_value(s: Seq<char>) -> int
    decreases s.len(),
{
    if s.len() == 0 {
        0
    } else {
        digits_value(s.drop_last()) * 10 + digit_val(s.last())
    }
}

/// The usual decimal rendering of `n`: no leading zeros except for `n == 0`.
pub open spec fn decimal_digits(n: nat) -> Seq<char>
    decreases n,
{
    if n < 10 {
        seq![digit_char(n as int)]
    } else {
        decimal_digits(n / 10).push(digit_char((n % 10) as int))
    }
}

/// A digit string denotes a value that fits in a `u64`.
pub open spec fn valid_u64_digits(s: Seq<char>) -> bool {
    &&& s.len() > 0
    &&& all_digits(s)
    &&& digits_value(s) <= u64::MAX
}

pub proof fn lemma_digits_value_nonneg(s: Seq<char>)
    requires
        all_digits(s),
    ensures
        0 <= digits_value(s),
    decreases s.len(),
{
    if s.len() > 0 {
        assert(all_digits(s.drop_last()));
        lemma_digits_value_nonneg(s.drop_last());
    }
}

/// Extending a digit string on the right cannot decrease its value.
pub proof fn lemma_digits_prefix_le(s: Seq<char>, n: int)
    requires
        all_digits(s),
        0 <= n <= s.len(),
    ensures
        digits_value(s.take(n)) <= digits_value(s),
    decreases s.len() - n,
{
    if n < s.len() {
        lemma_digits_prefix_le(s, n + 1);
        let t = s.take(n + 1);
        assert(t.drop_last() =~= s.take(n));
        assert(t.last() == s[n]);
        assert(all_digits(s.take(n)));
        lemma_digits_value_nonneg(s.take(n));
        assert(digits_value(s.take(n)) <= digits_value(s.take(n)) * 10 + digit_val(s[n]));
    } else {
        assert(s.take(n) =~= s);
    }
}

/// Parse a single ASCII decimal digit.
pub fn char_digit(c: char) -> (r: Option<u64>)
    ensures
        r == (if is_digit_char(c) {
            Some(digit_val(c) as u64)
        } else {
            None::<u64>
        }),
{
    if c == '0' {
        Some(0)
    } else if c == '1' {
        Some(1)
    } else if c == '2' {
        Some(2)
    } else if c == '3' {
        Some(3)
    } else if c == '4' {
        Some(4)
    } else if c == '5' {
        Some(5)
    } else if c == '6' {
        Some(6)
    } else if c == '7' {
        Some(7)
    } else if c == '8' {
        Some(8)
    } else if c == '9' {
        Some(9)
    } else {
        None
    }
}

/// The one-character string for a digit value.
pub fn digit_str(d: u64) -> (r: &'static str)
    requires
        d < 10,
    ensures
        r@ =~= seq![digit_char(d as int)],
{
    proof {
        reveal_strlit("0");
        reveal_strlit("1");
        reveal_strlit("2");
        reveal_strlit("3");
        reveal_strlit("4");
        reveal_strlit("5");
        reveal_strlit("6");
        reveal_strlit("7");
        reveal_strlit("8");
        reveal_strlit("9");
    }
    if d == 0 {
        "0"
    } else if d == 1 {
        "1"
    } else if d == 2 {
        "2"
    } else if d == 3 {
        "3"
    } else if d == 4 {
        "4"
    } else if d == 5 {
        "5"
    } else if d == 6 {
        "6"
    } else if d == 7 {
        "7"
    } else if d == 8 {
        "8"
    } else {
        "9"
    }
}

/// Parse `s` as an unsigned decimal numeral.
///
/// Returns the value exactly when `s` is non-empty, all digits, and the value
/// fits in a `u64`; otherwise `None`.
pub fn parse_u64(s: &str) -> (r: Option<u64>)
    ensures
        r == (if valid_u64_digits(s@) {
            Some(digits_value(s@) as u64)
        } else {
            None::<u64>
        }),
{
    let n = s.unicode_len();
    if n == 0 {
        return None;
    }
    let mut i: usize = 0;
    let mut acc: u64 = 0;
    while i < n
        invariant
            0 <= i <= n,
            n == s@.len(),
            all_digits(s@.take(i as int)),
            acc == digits_value(s@.take(i as int)),
        decreases n - i,
    {
        let c = s.get_char(i);
        match char_digit(c) {
            None => {
                assert(!is_digit_char(s@[i as int]));
                assert(!all_digits(s@));
                return None;
            },
            Some(d) => {
                if acc > (u64::MAX - d) / 10 {
                    proof {
                        let t = s@.take(i + 1);
                        assert(t.drop_last() =~= s@.take(i as int));
                        assert(t.last() == s@[i as int]);
                        assert(all_digits(t));
                        assert(digits_value(t) == acc * 10 + d);
                        assert(acc * 10 + d > u64::MAX) by {
                            assert(acc >= (u64::MAX - d) / 10 + 1);
                            assert(acc * 10 >= ((u64::MAX - d) / 10 + 1) * 10) by (nonlinear_arith)
                                requires
                                    acc >= (u64::MAX - d) / 10 + 1,
                            ;
                            assert(((u64::MAX - d) / 10) * 10 + 9 >= u64::MAX - d);
                        }
                        if all_digits(s@) {
                            lemma_digits_prefix_le(s@, i + 1);
                        }
                        assert(!valid_u64_digits(s@));
                    }
                    return None;
                }
                proof {
                    assert(acc * 10 + d <= u64::MAX) by {
                        assert(acc <= (u64::MAX - d) / 10);
                        assert(acc * 10 <= ((u64::MAX - d) / 10) * 10) by (nonlinear_arith)
                            requires
                                acc <= (u64::MAX - d) / 10,
                        ;
                        assert(((u64::MAX - d) / 10) * 10 <= u64::MAX - d);
                    }
                    let t = s@.take(i + 1);
                    assert(t.drop_last() =~= s@.take(i as int));
                    assert(t.last() == s@[i as int]);
                }
                acc = acc * 10 + d;
                i = i + 1;
            },
        }
    }
    assert(s@.take(n as int) =~= s@);
    Some(acc)
}

/// `n` occurs in `h` starting at position `i`.
pub open spec fn matches_at(h: Seq<char>, n: Seq<char>, i: int) -> bool {
    &&& 0 <= i
    &&& i + n.len() <= h.len()
    &&& forall|j: int| 0 <= j < n.len() ==> h[i + j] == n[j]
}

/// `n` occurs somewhere in `h` as a contiguous substring.
pub open spec fn contains_seq(h: Seq<char>, n: Seq<char>) -> bool {
    exists|i: int| matches_at(h, n, i)
}

/// Substring search: does `haystack` contain `needle`?
pub fn contains_str(haystack: &str, needle: &str) -> (r: bool)
    ensures
        r == contains_seq(haystack@, needle@),
{
    let hl = haystack.unicode_len();
    let nl = needle.unicode_len();
    if nl > hl {
        assert(forall|i: int| !matches_at(haystack@, needle@, i));
        return false;
    }
    let mut i: usize = 0;
    while i <= hl - nl
        invariant
            0 <= i <= hl - nl + 1,
            nl <= hl,
            hl == haystack@.len(),
            nl == needle@.len(),
            forall|k: int| 0 <= k < i ==> !matches_at(haystack@, needle@, k),
        decreases hl + 1 - nl - i,
    {
        let mut j: usize = 0;
        let mut hit = true;
        while j < nl
            invariant
                0 <= j <= nl,
                0 <= i <= hl - nl,
                hl == haystack@.len(),
                nl == needle@.len(),
                hit ==> forall|m: int| 0 <= m < j ==> haystack@[i + m] == needle@[m],
                !hit ==> !matches_at(haystack@, needle@, i as int),
            decreases nl - j,
        {
            if hit {
                let hc = haystack.get_char(i + j);
                let nc = needle.get_char(j);
                if hc != nc {
                    assert(haystack@[i + j] != needle@[j as int]);
                    hit = false;
                }
            }
            j = j + 1;
        }
        if hit {
            assert(matches_at(haystack@, needle@, i as int));
            return true;
        }
        i = i + 1;
    }
    assert(forall|k: int| !matches_at(haystack@, needle@, k));
    false
}

/// The character sequence begins with `text/html`.
pub open spec fn is_html_content_type(s: Seq<char>) -> bool {
    &&& s.len() >= 9
    &&& s[0] == 't'
    &&& s[1] == 'e'
    &&& s[2] == 'x'
    &&& s[3] == 't'
    &&& s[4] == '/'
    &&& s[5] == 'h'
    &&& s[6] == 't'
    &&& s[7] == 'm'
    &&& s[8] == 'l'
}

/// Does the content-type value begin with `text/html`?
pub fn starts_with_html(s: &str) -> (r: bool)
    ensures
        r == is_html_content_type(s@),
{
    let n = s.unicode_len();
    if n < 9 {
        return false;
    }
    s.get_char(0) == 't' && s.get_char(1) == 'e' && s.get_char(2) == 'x' && s.get_char(3) == 't'
        && s.get_char(4) == '/' && s.get_char(5) == 'h' && s.get_char(6) == 't' && s.get_char(7)
        == 'm' && s.get_char(8) == 'l'
}

} // verus!
