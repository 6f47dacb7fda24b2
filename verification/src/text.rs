//! Decimal text of integers, as written in addresses and status messages.
use vstd::prelude::*;

verus! {

/// The character of a decimal digit `d < 10`.
pub open spec fn digit_char(d: nat) -> char {
    if d == 0 {
        '0'
    } else if d == 1 {
        '1'
    } else if d == 2 {
        '2'
    } else if d == 3 {
        '3'
    } else if d == 4 {
        '4'
    } else if d == 5 {
        '5'
    } else if d == 6 {
        '6'
    } else if d == 7 {
        '7'
    } else if d == 8 {
        '8'
    } else {
        '9'
    }
}

/// The decimal digits of `n`, most significant first, without leading zeros.
pub open spec fn decimal_digits(n: nat) -> Seq<char>
    decreases n,
{
    if n < 10 {
        seq![digit_char(n)]
    } else {
        decimal_digits(n / 10) + seq![digit_char(n % 10)]
    }
}

/// The decimal text of an integer, with a leading `-` when it is negative.
pub open spec fn decimal_text(x: int) -> Seq<char> {
    if x < 0 {
        seq!['-'] + decimal_digits((-x) as nat)
    } else {
        decimal_digits(x as nat)
    }
}

/// The number that a text of decimal digits denotes, most significant first.
pub open spec fn digits_value(s: Seq<char>) -> nat
    decreases s.len(),
{
    if s.len() == 0 {
        0
    } else {
        digits_value(s.drop_last()) * 10 + ((s.last() as u32) - 48) as nat
    }
}

/// `s` is the usual decimal text of `n`: one or more digits `0`-`9`, no
/// leading zero unless it is `0` itself, denoting `n`.
pub open spec fn is_decimal_of(s: Seq<char>, n: nat) -> bool {
    &&& s.len() > 0
    &&& forall|i: int| 0 <= i < s.len() ==> 48 <= (#[trigger] s[i] as u32) <= 57
    &&& (s[0] == '0' ==> s.len() == 1)
    &&& digits_value(s) == n
}

/// The decimal digits of every natural number read back as that number,
/// with no leading zero.
pub proof fn decimal_digits_read_back(n: nat)
    ensures
        is_decimal_of(decimal_digits(n), n),
    decreases n,
{
    let s = decimal_digits(n);
    if n < 10 {
        assert(s.drop_last() =~= Seq::<char>::empty());
        assert(digits_value(s) == n) by {
            reveal_with_fuel(digits_value, 2);
        }
    } else {
        decimal_digits_read_back(n / 10);
        let p = decimal_digits(n / 10);
        assert(s.drop_last() =~= p);
        assert(s[0] == p[0]);
        assert forall|i: int| 0 <= i < s.len() implies 48 <= (#[trigger] s[i] as u32) <= 57 by {
            if i < p.len() {
                assert(s[i] == p[i]);
            }
        }
        if p[0] == '0' {
            assert(p.len() == 1);
            assert(digits_value(p.drop_last()) == 0);
        }
    }
}

/// The decimal text of every integer reads back as that integer: a
/// negative one is `-` followed by the decimal text of its magnitude.
pub proof fn decimal_text_reads_back(x: int)
    ensures
        x >= 0 ==> is_decimal_of(decimal_text(x), x as nat),
        x < 0 ==> decimal_text(x)[0] == '-' && is_decimal_of(decimal_text(x).drop_first(), (-x) as nat),
{
    if x >= 0 {
        decimal_digits_read_back(x as nat);
    } else {
        decimal_digits_read_back((-x) as nat);
        assert(decimal_text(x).drop_first() =~= decimal_digits((-x) as nat));
    }
}

fn digit_str(d: u32) -> (s: &'static str)
    requires
        d < 10,
    ensures
        s@ == seq![digit_char(d as nat)],
{
    if d == 0 {
        proof { reveal_strlit("0"); }
        "0"
    } else if d == 1 {
        proof { reveal_strlit("1"); }
        "1"
    } else if d == 2 {
        proof { reveal_strlit("2"); }
        "2"
    } else if d == 3 {
        proof { reveal_strlit("3"); }
        "3"
    } else if d == 4 {
        proof { reveal_strlit("4"); }
        "4"
    } else if d == 5 {
        proof { reveal_strlit("5"); }
        "5"
    } else if d == 6 {
        proof { reveal_strlit("6"); }
        "6"
    } else if d == 7 {
        proof { reveal_strlit("7"); }
        "7"
    } else if d == 8 {
        proof { reveal_strlit("8"); }
        "8"
    } else {
        proof { reveal_strlit("9"); }
        "9"
    }
}

fn push_decimal_digits(out: &mut String, n: u32)
    ensures
        final(out)@ == old(out)@ + decimal_digits(n as nat),
    decreases n,
{
    if n >= 10 {
        push_decimal_digits(out, n / 10);
    }
    out.append(digit_str(n % 10));
    assert(out@ =~= old(out)@ + decimal_digits(n as nat));
}

/// Appends the decimal text of `x` to `out`.
pub fn push_decimal(out: &mut String, x: i32)
    ensures
        final(out)@ == old(out)@ + decimal_text(x as int),
{
    if x < 0 {
        proof { reveal_strlit("-"); }
        out.append("-");
        let magnitude: u32 = (0i64 - x as i64) as u32;
        push_decimal_digits(out, magnitude);
        assert(out@ =~= old(out)@ + decimal_text(x as int));
    } else {
        push_decimal_digits(out, x as u32);
    }
}

} // verus!
