//! Decimal rendering of counts, as used in positions inside messages.

use vstd::prelude::*;

verus! {

/// The character of a decimal digit.
pub open spec fn digit_char(d: nat) -> char
    recommends
        d < 10,
{
    if d == 0 { '0' }
    else if d == 1 { '1' }
    else if d == 2 { '2' }
    else if d == 3 { '3' }
    else if d == 4 { '4' }
    else if d == 5 { '5' }
    else if d == 6 { '6' }
    else if d == 7 { '7' }
    else if d == 8 { '8' }
    else { '9' }
}

/// The shortest base-ten spelling of `n`, most significant digit first.
pub open spec fn decimal(n: nat) -> Seq<char>
    decreases n,
{
    if n < 10 {
        seq![digit_char(n)]
    } else {
        decimal(n / 10).push(digit_char(n % 10))
    }
}

fn digit_str(d: usize) -> (s: &'static str)
    requires
        d < 10,
    ensures
        s@ == seq![digit_char(d as nat)],
{
    proof {
        reveal_strlit("0");
        reveal_strlit("1");
        reveal_strlit("2");
        reveal_strlit("3");
        reveal_strlit("4");
        reveal_strlit("5");
        reveal_strlit("6");
        reveal_strlit("7");
        reveal_strlit("8");
        reveal_strlit("9");
    }
    if d == 0 { "0" }
    else if d == 1 { "1" }
    else if d == 2 { "2" }
    else if d == 3 { "3" }
    else if d == 4 { "4" }
    else if d == 5 { "5" }
    else if d == 6 { "6" }
    else if d == 7 { "7" }
    else if d == 8 { "8" }
    else { "9" }
}

/// Renders `n` in base ten.
pub fn to_decimal(n: usize) -> (s: String)
    ensures
        s@ == decimal(n as nat),
    decreases n,
{
    if n < 10 {
        String::from_str(digit_str(n))
    } else {
        let mut s = to_decimal(n / 10);
        s.append(digit_str(n % 10));
        s
    }
}

/// The number a string of decimal digits spells, most significant
/// first.
pub open spec fn digits_value(digits: Seq<char>) -> int
    decreases digits.len(),
{
    if digits.len() == 0 {
        0
    } else {
        digits_value(digits.drop_last()) * 10 + (digits.last() as int - '0' as int)
    }
}

/// The spelling of `n` is made of the digits `0` to `9`, spells `n`,
/// and has no leading zero unless it is `0` itself.
pub proof fn law_decimal_spells_the_number(n: nat)
    ensures
        forall|i: int|
            0 <= i < decimal(n).len() ==> '0' <= #[trigger] decimal(n)[i] && decimal(n)[i] <= '9',
        digits_value(decimal(n)) == n,
        decimal(n).len() >= 1,
        decimal(n).len() == 1 || decimal(n)[0] != '0',
    decreases n,
{
    if n >= 10 {
        let high = decimal(n / 10);
        law_decimal_spells_the_number(n / 10);
        let d = digit_char(n % 10);
        assert(decimal(n) == high.push(d));
        assert(decimal(n).drop_last() =~= high);
        assert(d as int - '0' as int == n % 10);
        assert((n / 10) as int * 10 + n % 10 == n) by (nonlinear_arith);
        assert(decimal(n).last() == d);
        assert(digits_value(decimal(n)) == digits_value(high) * 10 + (d as int - '0' as int));
        assert forall|i: int| 0 <= i < decimal(n).len() implies '0' <= #[trigger] decimal(n)[i]
            && decimal(n)[i] <= '9' by {
            if i < high.len() {
                assert(decimal(n)[i] == high[i]);
            }
        }
        assert(n / 10 >= 1);
        if high.len() == 1 {
            assert(high[0] != '0') by {
                if high[0] == '0' {
                    assert(high.drop_last().len() == 0);
                    assert(high.last() == high[0]);
                    assert(digits_value(high.drop_last()) == 0);
                    assert(digits_value(high) == 0);
                }
            }
        }
        assert(decimal(n)[0] == high[0]);
    } else {
        assert(decimal(n)[0] as int - '0' as int == n);
        assert(decimal(n).drop_last().len() == 0);
        assert(decimal(n).last() == decimal(n)[0]);
        assert(digits_value(decimal(n).drop_last()) == 0);
    }
}

} // verus!
