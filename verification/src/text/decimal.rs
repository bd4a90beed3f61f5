//! Decimal digits of unsigned numbers.
use crate::text::chars::push_char;
use vstd::prelude::*;

verus! {

/// The decimal digit character for a value below ten.
pub open spec fn digit_char(d: nat) -> char {
    (48 + d) as char
}

/// The decimal digits of `v`, most significant first, without leading zeros
/// (zero is the single digit `0`).
pub open spec fn decimal_digits(v: nat) -> Seq<char>
    decreases v,
{
    if v < 10 {
        seq![digit_char(v)]
    } else {
        decimal_digits(v / 10).push(digit_char(v % 10))
    }
}

/// The decimal form of `v`.
pub fn decimal_string(v: u64) -> (r: String)
    ensures
        r@ == decimal_digits(v as nat),
{
    let first = ((48 + v % 10) as u8) as char;
    let mut digits: Vec<char> = Vec::new();
    digits.push(first);
    let mut x: u64 = v / 10;
    proof {
        assert(digits@.reverse() =~= seq![first]);
    }
    while x > 0
        invariant
            decimal_digits(v as nat) == (if x == 0 {
                Seq::<char>::empty()
            } else {
                decimal_digits(x as nat)
            }) + digits@.reverse(),
        decreases x,
    {
        let d = x % 10;
        let c = ((48 + d) as u8) as char;
        proof {
            assert(digits@.push(c).reverse() =~= seq![c] + digits@.reverse());
        }
        digits.push(c);
        x = x / 10;
    }
    assert(decimal_digits(v as nat) == digits@.reverse());
    let mut r = String::new();
    let n = digits.len();
    for i in 0..n
        invariant
            n == digits.len(),
            r@ == digits@.reverse().take(i as int),
    {
        push_char(&mut r, digits[n - 1 - i]);
        assert(digits@.reverse().take(i + 1) =~= digits@.reverse().take(i as int).push(
            digits@[n - 1 - i],
        ));
    }
    assert(digits@.reverse().take(n as int) =~= digits@.reverse());
    r
}

} // verus!
