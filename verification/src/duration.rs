//! Human-readable duration rendering: a second count shown as its two most
//! significant non-zero units among days, hours, minutes and seconds.

use vstd::prelude::*;
use crate::text::{decimal_digits, digit_char, digit_str};

verus! {

/// The non-zero unit parts of `seconds`, most significant first, each already
/// rendered as digits plus its unit letter.
pub open spec fn duration_parts(seconds: u64) -> Seq<Seq<char>> {
    let days = seconds as int / 86400;
    let hours = (seconds as int % 86400) / 3600;
    let minutes = (seconds as int % 3600) / 60;
    let secs = seconds as int % 60;
    let p: Seq<Seq<char>> = Seq::empty();
    let p: Seq<Seq<char>> = if days > 0 {
        p.push(decimal_digits(days as nat).push('d'))
    } else {
        p
    };
    let p: Seq<Seq<char>> = if hours > 0 {
        p.push(decimal_digits(hours as nat).push('h'))
    } else {
        p
    };
    let p: Seq<Seq<char>> = if minutes > 0 {
        p.push(decimal_digits(minutes as nat).push('m'))
    } else {
        p
    };
    if secs > 0 {
        p.push(decimal_digits(secs as nat).push('s'))
    } else {
        p
    }
}

/// Concatenation of at most the first two elements.
pub open spec fn join_first_two(p: Seq<Seq<char>>) -> Seq<char> {
    if p.len() == 0 {
        Seq::empty()
    } else if p.len() == 1 {
        p[0]
    } else {
        p[0] + p[1]
    }
}

/// What the duration formatter returns: `0s` for zero, otherwise the two most
/// significant non-zero unit parts, concatenated.
pub open spec fn spec_format_duration(seconds: u64) -> Seq<char> {
    if seconds == 0 {
        seq!['0', 's']
    } else {
        join_first_two(duration_parts(seconds))
    }
}

/// The digit characters of `ds`, read from the last element to the first
/// (`ds` holds a numeral least significant digit first).
pub open spec fn rev_digit_chars(ds: Seq<u64>) -> Seq<char>
    decreases ds.len(),
{
    if ds.len() == 0 {
        Seq::empty()
    } else {
        seq![digit_char(ds.last() as int)] + rev_digit_chars(ds.drop_last())
    }
}

/// Peeling the suffix `skip(i)` one element from the front corresponds to
/// appending that element's character at the back of the reversal.
proof fn lemma_rev_skip(ds: Seq<u64>, i: int)
    requires
        0 <= i < ds.len(),
    ensures
        rev_digit_chars(ds.skip(i)) =~= rev_digit_chars(ds.skip(i + 1)) + seq![
            digit_char(ds[i] as int),
        ],
    decreases ds.len(),
{
    let u = ds.skip(i);
    if i == ds.len() - 1 {
        assert(u =~= seq![ds[i]]);
        assert(u.drop_last() =~= Seq::<u64>::empty());
        assert(ds.skip(i + 1) =~= Seq::<u64>::empty());
    } else {
        let t = ds.drop_last();
        lemma_rev_skip(t, i);
        assert(u.drop_last() =~= t.skip(i));
        assert(u.last() == ds.last());
        let v = ds.skip(i + 1);
        assert(v.drop_last() =~= t.skip(i + 1));
        assert(v.last() == ds.last());
        assert(t[i] == ds[i]);
        assert(rev_digit_chars(u) == seq![digit_char(u.last() as int)] + rev_digit_chars(
            u.drop_last(),
        ));
        assert(rev_digit_chars(v) == seq![digit_char(v.last() as int)] + rev_digit_chars(
            v.drop_last(),
        ));
    }
}

/// Append the decimal rendering of `n` to `out`.
fn append_decimal(out: &mut String, n: u64)
    ensures
        final(out)@ == old(out)@ + decimal_digits(n as nat),
{
    let mut digits: Vec<u64> = Vec::new();
    let mut m: u64 = n / 10;
    digits.push(n % 10);
    proof {
        let ds = digits@;
        assert(ds.drop_last() =~= Seq::<u64>::empty());
        assert(rev_digit_chars(Seq::<u64>::empty()) == Seq::<char>::empty());
        assert(rev_digit_chars(ds) == seq![digit_char(ds.last() as int)] + rev_digit_chars(
            ds.drop_last(),
        ));
        assert(rev_digit_chars(ds) =~= seq![digit_char((n % 10) as int)]);
        if m == 0 {
            assert(decimal_digits(n as nat) == seq![digit_char(n as int)]);
            assert(decimal_digits(n as nat) =~= rev_digit_chars(ds));
        } else {
            assert(decimal_digits(n as nat) == decimal_digits(m as nat).push(
                digit_char((n % 10) as int),
            ));
            assert(decimal_digits(n as nat) =~= decimal_digits(m as nat) + rev_digit_chars(ds));
        }
    }
    while m > 0
        invariant
            digits@.len() >= 1,
            forall|k: int| 0 <= k < digits@.len() ==> digits@[k] < 10,
            decimal_digits(n as nat) == (if m == 0 {
                rev_digit_chars(digits@)
            } else {
                decimal_digits(m as nat) + rev_digit_chars(digits@)
            }),
        decreases m,
    {
        let d = m % 10;
        let m2 = m / 10;
        proof {
            let ds = digits@.push(d);
            assert(ds.drop_last() =~= digits@);
            assert(rev_digit_chars(ds) =~= seq![digit_char(d as int)] + rev_digit_chars(digits@));
            if m2 == 0 {
                assert(decimal_digits(m as nat) =~= seq![digit_char(d as int)]);
                assert(decimal_digits(n as nat) =~= rev_digit_chars(ds));
            } else {
                assert(decimal_digits(m as nat) == decimal_digits(m2 as nat).push(
                    digit_char(d as int),
                ));
                assert(decimal_digits(n as nat) =~= decimal_digits(m2 as nat) + rev_digit_chars(
                    ds,
                ));
            }
        }
        digits.push(d);
        m = m2;
    }
    let mut i: usize = digits.len();
    proof {
        assert(digits@.skip(i as int) =~= Seq::<u64>::empty());
    }
    while i > 0
        invariant
            i <= digits@.len(),
            forall|k: int| 0 <= k < digits@.len() ==> digits@[k] < 10,
            out@ == old(out)@ + rev_digit_chars(digits@.skip(i as int)),
            decimal_digits(n as nat) == rev_digit_chars(digits@),
        decreases i,
    {
        i = i - 1;
        let s = digit_str(digits[i]);
        proof {
            lemma_rev_skip(digits@, i as int);
        }
        out.append(s);
        proof {
            assert(out@ =~= old(out)@ + rev_digit_chars(digits@.skip(i as int)));
        }
    }
    proof {
        assert(digits@.skip(0) =~= digits@);
    }
}

/// Render a second count as its two most significant non-zero units, e.g.
/// `0s`, `1m5s`, `1h`, `1d1h`.
pub fn format_duration(seconds: u64) -> (r: String)
    ensures
        r@ == spec_format_duration(seconds),
{
    if seconds == 0 {
        proof {
            reveal_strlit("0s");
        }
        let r = String::from_str("0s");
        proof {
            assert(r@ =~= seq!['0', 's']);
        }
        return r;
    }
    let days: u64 = seconds / 86400;
    let hours: u64 = (seconds % 86400) / 3600;
    let minutes: u64 = (seconds % 3600) / 60;
    let secs: u64 = seconds % 60;
    proof {
        reveal_strlit("d");
        reveal_strlit("h");
        reveal_strlit("m");
        reveal_strlit("s");
    }
    let ghost full: Seq<Seq<char>> = duration_parts(seconds);
    let ghost mut parts: Seq<Seq<char>> = Seq::empty();
    let mut out = String::new();
    let mut count: u64 = 0;
    if days > 0 {
        append_decimal(&mut out, days);
        out.append("d");
        count = count + 1;
        proof {
            parts = parts.push(decimal_digits(days as nat).push('d'));
            assert(out@ =~= join_first_two(parts));
        }
    }
    if hours > 0 {
        if count < 2 {
            append_decimal(&mut out, hours);
            out.append("h");
            count = count + 1;
        }
        proof {
            parts = parts.push(decimal_digits(hours as nat).push('h'));
            assert(out@ =~= join_first_two(parts));
        }
    }
    if minutes > 0 {
        if count < 2 {
            append_decimal(&mut out, minutes);
            out.append("m");
            count = count + 1;
        }
        proof {
            parts = parts.push(decimal_digits(minutes as nat).push('m'));
            assert(out@ =~= join_first_two(parts));
        }
    }
    if secs > 0 {
        if count < 2 {
            append_decimal(&mut out, secs);
            out.append("s");
            count = count + 1;
        }
        proof {
            parts = parts.push(decimal_digits(secs as nat).push('s'));
            assert(out@ =~= join_first_two(parts));
        }
    }
    proof {
        assert(parts =~= full);
    }
    out
}

} // verus!
