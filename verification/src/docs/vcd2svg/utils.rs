//! Labels for the time axis.
use crate::text::decimal::{decimal_digits, decimal_string};
use vstd::prelude::*;

verus! {

/// The label of a time given in picoseconds: whole ps below 1000, then whole
/// ns, us and ms.
pub open spec fn time_label_spec(val: nat) -> Seq<char> {
    if val < 1000 {
        decimal_digits(val) + seq!['p', 's']
    } else if val < 1_000_000 {
        decimal_digits(val / 1000) + seq!['n', 's']
    } else if val < 1_000_000_000 {
        decimal_digits(val / 1_000_000) + seq!['u', 's']
    } else {
        decimal_digits(val / 1_000_000_000) + seq!['m', 's']
    }
}

/// The label of a time given in picoseconds, in the largest unit up to ms
/// that the time reaches.
pub fn time_label(val: u64) -> (r: String)
    ensures
        r@ == time_label_spec(val as nat),
{
    proof {
        reveal_strlit("ps");
        reveal_strlit("ns");
        reveal_strlit("us");
        reveal_strlit("ms");
    }
    if val < 1000 {
        let mut r = decimal_string(val);
        r.append("ps");
        r
    } else if val < 1_000_000 {
        let mut r = decimal_string(val / 1_000);
        r.append("ns");
        r
    } else if val < 1_000_000_000 {
        let mut r = decimal_string(val / 1_000_000);
        r.append("us");
        r
    } else {
        let mut r = decimal_string(val / 1_000_000_000);
        r.append("ms");
        r
    }
}

} // verus!
