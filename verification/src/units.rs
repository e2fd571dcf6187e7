//! Fixed-point field-space coordinates: positions, view boxes and camera
//! state are measured in thousandths of a cell, so that the viewer's
//! bookkeeping stays in exact integer arithmetic.

use vstd::prelude::*;

verus! {

use vstd::arithmetic::div_mod::lemma_div_is_ordered;
use vstd::arithmetic::div_mod::lemma_div_nonincreasing;
use vstd::arithmetic::div_mod::lemma_div_of0;
use vstd::arithmetic::div_mod::lemma_div_pos_is_pos;
use vstd::arithmetic::div_mod::lemma_fundamental_div_mod;
use vstd::arithmetic::div_mod::lemma_fundamental_div_mod_converse_div;
use vstd::arithmetic::div_mod::lemma_mod_bound;

/// How many fixed-point units make up one cell.
pub const UNITS_PER_CELL: i64 = 1000;

/// An axis-aligned field-space rectangle, in fixed-point units: the region
/// of the field currently visible through the camera.
#[derive(Clone, Copy, Debug, PartialEq, Eq, Structural)]
pub struct ViewBox {
    pub min_x: i64,
    pub min_y: i64,
    pub max_x: i64,
    pub max_y: i64,
}

impl ViewBox {
    pub fn new(min_x: i64, min_y: i64, max_x: i64, max_y: i64) -> (r: ViewBox)
        ensures
            r == (ViewBox { min_x, min_y, max_x, max_y }),
    {
        ViewBox { min_x, min_y, max_x, max_y }
    }
}

/// Floor division of a signed value by a positive divisor, matching the
/// mathematical (Euclidean) quotient `num / den` used in specifications.
pub fn floor_div(num: i64, den: i64) -> (r: i64)
    requires
        1 <= den,
    ensures
        r == num as int / den as int,
{
    if num >= 0 {
        let q = (num as u64) / (den as u64);
        q as i64
    } else {
        let m: u64 = (-(num as i128)) as u64;
        let d: u64 = den as u64;
        let a: u64 = m / d;
        let rem: u64 = m % d;
        proof {
            lemma_fundamental_div_mod(m as int, d as int);
            assert(a as int <= m as int) by (nonlinear_arith)
                requires
                    m as int == (d as int) * (a as int) + rem as int,
                    1 <= d as int,
                    0 <= a as int,
                    0 <= rem as int,
            ;
        }
        if rem == 0 {
            proof {
                assert(num as int == (-(a as int)) * (den as int) + 0) by (nonlinear_arith)
                    requires
                        num as int == -(m as int),
                        m as int == (d as int) * (a as int) + rem as int,
                        rem as int == 0,
                        d as int == den as int,
                ;
                lemma_fundamental_div_mod_converse_div(num as int, den as int, -(a as int), 0);
            }
            let q: i128 = -(a as i128);
            q as i64
        } else {
            proof {
                assert(num as int == (-(a as int) - 1) * (den as int) + (den - rem)) by (nonlinear_arith)
                    requires
                        num as int == -(m as int),
                        m as int == (d as int) * (a as int) + rem as int,
                        d as int == den as int,
                ;
                assert(a as int * (d as int) <= m as int - 1) by (nonlinear_arith)
                    requires
                        m as int == (d as int) * (a as int) + rem as int,
                        1 <= rem as int,
                ;
                assert(a as int <= a as int * (d as int)) by (nonlinear_arith)
                    requires
                        1 <= d as int,
                        0 <= a as int,
                ;
                lemma_fundamental_div_mod_converse_div(
                    num as int,
                    den as int,
                    -(a as int) - 1,
                    (den - rem) as int,
                );
            }
            let q: i128 = -(a as i128) - 1;
            q as i64
        }
    }
}

/// Flooring by a positive divisor never enlarges a value's magnitude.
pub proof fn lemma_floor_div_bounds(num: int, den: int)
    requires
        1 <= den,
    ensures
        0 <= num ==> 0 <= num / den <= num,
        num < 0 ==> num <= num / den <= 0,
{
    if 0 <= num {
        lemma_div_pos_is_pos(num, den);
        lemma_div_nonincreasing(num, den);
    } else {
        lemma_div_of0(den);
        lemma_div_is_ordered(num, 0, den);
        lemma_fundamental_div_mod(num, den);
        lemma_mod_bound(num, den);
        let q: int = num / den;
        let r: int = num % den;
        if q < num {
            assert(den * q <= den * (num - 1)) by (nonlinear_arith)
                requires
                    q <= num - 1,
                    1 <= den,
            ;
            assert(num * (1 - den) >= 0) by (nonlinear_arith)
                requires
                    num <= 0,
                    1 <= den,
            ;
            assert(num - den * (num - 1) == num * (1 - den) + den) by (nonlinear_arith);
            assert(r >= den);
            assert(false);
        }
    }
}

} // verus!
