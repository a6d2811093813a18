//! Verified decimal rendering: the building blocks of the human-readable
//! event descriptions.

use vstd::prelude::*;

verus! {

/// The decimal digit character for `d` in `0 ..= 9`.
pub open spec fn spec_digit_char(d: int) -> char {
    if d == 0 {
        '0'
    } else if d == 1 {
        '1'
    } else if d == 2 {
        '2'
    } else if d == 3 {
        '3'
    } else if d == 4 {
        '4'
    } else if d == 5 {
        '5'
    } else if d == 6 {
        '6'
    } else if d == 7 {
        '7'
    } else if d == 8 {
        '8'
    } else {
        '9'
    }
}

/// The usual decimal rendering of a non-negative integer, without leading
/// zeros (a lone `0` for zero).
pub open spec fn spec_uint_text(n: int) -> Seq<char>
    recommends
        0 <= n,
    decreases n,
{
    if n <= 9 {
        seq![spec_digit_char(n)]
    } else {
        spec_uint_text(n / 10) + seq![spec_digit_char(n % 10)]
    }
}

/// Decimal rendering of a possibly negative integer, with a leading minus
/// sign when negative.
pub open spec fn spec_int_text(v: int) -> Seq<char> {
    if v < 0 {
        seq!['-'] + spec_uint_text(-v)
    } else {
        spec_uint_text(v)
    }
}

/// Append one decimal digit character.
fn append_digit(s: &mut String, d: u64)
    requires
        d <= 9,
    ensures
        final(s)@ == old(s)@ + seq![spec_digit_char(d as int)],
{
    proof {
        reveal_strlit("0");
        reveal_strlit("1");
        reveal_strlit("2");
        reveal_strlit("3");
        reveal_strlit("4");
        reveal_strlit("5");
        reveal_strlit("6");
        reveal_strlit("7");
        reveal_strlit("8");
        reveal_strlit("9");
    }
    match d {
        0 => s.append("0"),
        1 => s.append("1"),
        2 => s.append("2"),
        3 => s.append("3"),
        4 => s.append("4"),
        5 => s.append("5"),
        6 => s.append("6"),
        7 => s.append("7"),
        8 => s.append("8"),
        _ => s.append("9"),
    }
    proof {
        assert(final(s)@ =~= old(s)@ + seq![spec_digit_char(d as int)]);
    }
}

/// Append the decimal rendering of `n`.
pub fn append_u64(s: &mut String, n: u64)
    ensures
        final(s)@ == old(s)@ + spec_uint_text(n as int),
    decreases n,
{
    if n <= 9 {
        append_digit(s, n);
    } else {
        append_u64(s, n / 10);
        append_digit(s, n % 10);
        proof {
            assert(final(s)@ =~= old(s)@ + spec_uint_text(n as int));
        }
    }
}

/// Append the decimal rendering of `v`, minus sign included.
pub fn append_i64(s: &mut String, v: i64)
    requires
        i64::MIN < v,
    ensures
        final(s)@ == old(s)@ + spec_int_text(v as int),
{
    if v < 0 {
        proof {
            reveal_strlit("-");
        }
        s.append("-");
        append_u64(s, (-v) as u64);
        proof {
            assert(final(s)@ =~= old(s)@ + spec_int_text(v as int));
        }
    } else {
        append_u64(s, v as u64);
    }
}

} // verus!
