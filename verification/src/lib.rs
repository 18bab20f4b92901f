//! Conway's Game of Life: the grid of cells and its rules, the text format
//! that grids are saved in, the file chooser, and the controller that decides
//! what each key press does.
use vstd::prelude::*;

pub mod cell;
pub mod controller;
pub mod format;
pub mod grid;
pub mod import_modal;
mod random;
pub mod text;

verus! {

/// Whether an integer fits in an `i32`.
pub open spec fn fits_i32(v: int) -> bool {
    i32::MIN <= v <= i32::MAX
}

/// Whether Rust can divide the `i32` `a` by `b`: it panics when `b` is 0 and
/// when the quotient overflows, which happens only for `i32::MIN / -1`.
pub open spec fn divides(a: int, b: int) -> bool {
    b != 0 && !(a == i32::MIN && b == -1)
}

/// Integer division as Rust computes it on signed integers: the quotient of
/// the absolute values, negated when the signs differ, so rounded toward zero.
pub open spec fn trunc_div(a: int, b: int) -> int {
    let q = (if a < 0 { -a } else { a }) / (if b < 0 { -b } else { b });
    if (a < 0) == (b < 0) {
        q
    } else {
        -q
    }
}

/// Division rounds toward zero: the quotient's size is that of the
/// absolute values, its sign is negative exactly when the signs differ, and
/// for non-negative `a` and positive `b` it is the number of whole `b` in `a`.
pub proof fn lemma_trunc_div(a: int, b: int)
    requires
        b != 0,
    ensures
        trunc_div(-a, b) == -trunc_div(a, b),
        trunc_div(a, -b) == -trunc_div(a, b),
        a >= 0 && b > 0 ==> trunc_div(a, b) * b <= a < trunc_div(a, b) * b + b,
{
    if a >= 0 && b > 0 {
        vstd::arithmetic::div_mod::lemma_fundamental_div_mod(a, b);
        let q = a / b;
        assert(a == b * q + a % b);
        assert(b * q == q * b) by (nonlinear_arith);
    }
}

/// `a / b`, as Rust divides `i32`s: rounded toward zero. Division by a
/// negative number is worked out on its absolute value, which gives the same
/// quotient.
pub(crate) fn div_i32(a: i32, b: i32) -> (q: i32)
    requires
        divides(a as int, b as int),
    ensures
        q == trunc_div(a as int, b as int),
{
    if b > 0 {
        a / b
    } else if b == i32::MIN {
        if a == i32::MIN {
            1
        } else {
            0
        }
    } else {
        let positive = -b;
        let ghost n: int = if a < 0 { -a } else { a as int };
        assert(n / (positive as int) < 0x8000_0000) by (nonlinear_arith)
            requires
                0 <= n <= 0x8000_0000,
                positive >= 1,
                positive == 1 ==> n < 0x8000_0000,
        ;
        let q = a / positive;
        -q
    }
}

} // verus!
