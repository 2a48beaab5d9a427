use vstd::prelude::*;

verus! {

/// The weight of one wrap of the `i128` range: 2^128.
pub open spec fn wrap_weight() -> int {
    0x1_0000_0000_0000_0000_0000_0000_0000_0000int
}

/// The integer that the pair `(low, wraps)` stands for: `low + wraps * 2^128`.
/// Any integer has exactly one such pair with `low` in the `i128` range.
pub open spec fn wide_value(low: i128, wraps: i128) -> int {
    low + wraps * wrap_weight()
}

/// Adds `a` to the integer that `(low, wraps)` stands for, exactly, however
/// large the sum grows; `wraps` moves by at most one.
pub fn wide_add(low: i128, wraps: i128, a: i128) -> (res: (i128, i128))
    requires
        i64::MIN < wraps < i64::MAX,
    ensures
        wide_value(res.0, res.1) == wide_value(low, wraps) + a,
        wraps - 1 <= res.1 <= wraps + 1,
{
    match low.checked_add(a) {
        Some(v) => (v, wraps),
        None => {
            if a > 0 {
                ((low + i128::MIN) + (a + i128::MIN), wraps + 1)
            } else {
                ((low - i128::MIN) + (a - i128::MIN), wraps - 1)
            }
        },
    }
}

/// Whether the integer that `(low, wraps)` stands for equals `v`.
pub fn wide_equals(low: i128, wraps: i128, v: i128) -> (res: bool)
    ensures
        res == (wide_value(low, wraps) == v),
{
    wraps == 0 && low == v
}

} // verus!
