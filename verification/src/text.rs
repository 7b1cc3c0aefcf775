//! Decimal rendering of integers and the concatenation helpers that the
//! request builders use.

use vstd::prelude::*;

verus! {

/// The ASCII digit for `d`, which must be below ten.
pub open spec fn digit_char(d: nat) -> char
    recommends
        d < 10,
{
    (d + 48) as char
}

/// Decimal notation of a natural number, most significant digit first, with
/// no leading zeros (zero itself is written `0`).
pub open spec fn decimal(n: nat) -> Seq<char>
    decreases n,
{
    if n < 10 {
        seq![digit_char(n)]
    } else {
        decimal(n / 10).push(digit_char(n % 10))
    }
}

/// Decimal notation of a signed integer: a minus sign before the digits of
/// its magnitude when it is negative.
pub open spec fn signed_decimal(x: int) -> Seq<char> {
    if x < 0 {
        seq!['-'] + decimal((-x) as nat)
    } else {
        decimal(x as nat)
    }
}

/// The number that a string of decimal digits denotes.
pub open spec fn digits_value(s: Seq<char>) -> int
    decreases s.len(),
{
    if s.len() == 0 {
        0
    } else {
        digits_value(s.drop_last()) * 10 + (s.last() as int - 48)
    }
}

/// Every character is an ASCII digit.
pub open spec fn all_digits(s: Seq<char>) -> bool {
    forall|i: int| 0 <= i < s.len() ==> 48 <= #[trigger] (s[i] as int) <= 57
}

/// Decimal notation is faithful: it is a non-empty string of digits that
/// denotes `n`, with no leading zero unless `n` is zero.
pub proof fn decimal_denotes_its_number(n: nat)
    ensures
        decimal(n).len() > 0,
        all_digits(decimal(n)),
        digits_value(decimal(n)) == n,
        decimal(n)[0] == '0' ==> n == 0,
    decreases n,
{
    if n >= 10 {
        decimal_denotes_its_number(n / 10);
        let d = decimal(n);
        assert(d.drop_last() =~= decimal(n / 10));
        assert(d.last() == digit_char(n % 10));
        assert((d.last() as int) == n % 10 + 48);
        assert(digits_value(d) == (n / 10) * 10 + n % 10);
        assert((n / 10) * 10 + n % 10 == n) by (nonlinear_arith);
        assert(d[0] == decimal(n / 10)[0]);
        assert(n / 10 > 0);
    } else {
        let d = decimal(n);
        assert((digit_char(n) as int) == n + 48);
        assert(d.drop_last() =~= Seq::<char>::empty());
        assert(digits_value(d.drop_last()) == 0);
        assert(d.last() == digit_char(n));
    }
}

/// Signed decimal notation is faithful: a leading `-` exactly for negative
/// numbers, followed by the notation of the magnitude.
pub proof fn signed_decimal_denotes_its_number(x: int)
    ensures
        (signed_decimal(x)[0] == '-') == (x < 0),
        x < 0 ==> signed_decimal(x).drop_first() == decimal((-x) as nat) && digits_value(
            signed_decimal(x).drop_first(),
        ) == -x,
        x >= 0 ==> digits_value(signed_decimal(x)) == x && all_digits(signed_decimal(x)),
{
    if x < 0 {
        decimal_denotes_its_number((-x) as nat);
        assert(signed_decimal(x).drop_first() =~= decimal((-x) as nat));
    } else {
        decimal_denotes_its_number(x as nat);
        assert(48 <= (signed_decimal(x)[0] as int) <= 57);
    }
}

fn digit_str(d: u64) -> (r: &'static str)
    requires
        d < 10,
    ensures
        r@ == seq![digit_char(d as nat)],
{
    proof {
        reveal_strlit("0");
        reveal_strlit("1");
        reveal_strlit("2");
        reveal_strlit("3");
        reveal_strlit("4");
        reveal_strlit("5");
        reveal_strlit("6");
        reveal_strlit("7");
        reveal_strlit("8");
        reveal_strlit("9");
    }
    if d == 0 {
        "0"
    } else if d == 1 {
        "1"
    } else if d == 2 {
        "2"
    } else if d == 3 {
        "3"
    } else if d == 4 {
        "4"
    } else if d == 5 {
        "5"
    } else if d == 6 {
        "6"
    } else if d == 7 {
        "7"
    } else if d == 8 {
        "8"
    } else {
        "9"
    }
}

/// Appends the decimal notation of `n` to `out`.
pub fn push_decimal(out: &mut String, n: u64)
    ensures
        final(out)@ == old(out)@ + decimal(n as nat),
    decreases n,
{
    if n < 10 {
        out.append(digit_str(n));
    } else {
        push_decimal(out, n / 10);
        out.append(digit_str(n % 10));
    }
}

/// Appends the decimal notation of `x`, with a leading `-` when it is
/// negative, to `out`.
pub fn push_signed_decimal(out: &mut String, x: i64)
    requires
        x > i64::MIN,
    ensures
        final(out)@ == old(out)@ + signed_decimal(x as int),
{
    proof {
        reveal_strlit("-");
    }
    if x < 0 {
        out.append("-");
        let magnitude: i64 = -x;
        push_decimal(out, magnitude as u64);
    } else {
        push_decimal(out, x as u64);
    }
}

} // verus!
