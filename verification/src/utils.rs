//! Small shared helpers.

use vstd::prelude::*;

verus! {

/// Distance between two values on one axis.
pub open spec fn axis_gap(a: int, b: int) -> int {
    if a >= b {
        a - b
    } else {
        b - a
    }
}

/// Manhattan (taxicab) distance between two tile coordinates.
pub open spec fn spec_manhat(x1: int, y1: int, x2: int, y2: int) -> int {
    axis_gap(x1, x2) + axis_gap(y1, y2)
}

/// Computes the Manhattan distance between the tiles (x1, y1) and (x2, y2).
/// The result is widened so that the sum of the two axis gaps always fits.
pub fn manhat_distance(x1: u32, y1: u32, x2: u32, y2: u32) -> (r: u64)
    ensures
        r == spec_manhat(x1 as int, y1 as int, x2 as int, y2 as int),
{
    let dx: u64 = if x1 >= x2 {
        (x1 - x2) as u64
    } else {
        (x2 - x1) as u64
    };
    let dy: u64 = if y1 >= y2 {
        (y1 - y2) as u64
    } else {
        (y2 - y1) as u64
    };
    dx + dy
}

} // verus!
