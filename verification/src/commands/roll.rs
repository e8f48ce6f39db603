//! `/roll`: a random number between one and a ceiling, both included.
use crate::common::helpers::random_range;
use crate::text::{decimal, decimal_string};
use vstd::prelude::*;

verus! {

/// A number drawn uniformly from `1..=ceiling`. A ceiling below one leaves
/// no number to draw (the draw panics there); `requires` leaves that out.
pub fn roll(ceiling: i64) -> (r: i64)
    requires
        ceiling >= 1,
    ensures
        1 <= r <= ceiling,
{
    let v = random_range(1, (ceiling as u64) + 1);
    v as i64
}

/// The text `/roll` posts: the number drawn, in decimal.
pub fn run(ceiling: i64) -> (r: String)
    requires
        ceiling >= 1,
    ensures
        exists|v: int| 1 <= v <= ceiling && r@ == #[trigger] decimal(v),
{
    let v = roll(ceiling);
    let r = decimal_string(v);
    assert(1 <= v <= ceiling && r@ == decimal(v as int));
    r
}

} // verus!
