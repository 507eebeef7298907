//! The arithmetic that the library asks of its caller.

use vstd::prelude::*;

verus! {

/// One arithmetic step on single-precision bit patterns. Angles are in
/// radians.
#[derive(Clone, Copy, Debug, PartialEq, Eq, Structural)]
pub enum Arith {
    Add(u32, u32),
    Sub(u32, u32),
    Mul(u32, u32),
    Div(u32, u32),
    Cos(u32),
    Sin(u32),
}

/// The bit patterns of the two zeros, `+0.0` and `-0.0`.
pub open spec fn is_zero(x: u32) -> bool {
    x == 0 || x == 0x8000_0000u32
}

/// Whether `op` divides by a zero.
pub open spec fn divides_by_zero(op: Arith) -> bool {
    op matches Arith::Div(_, d) && is_zero(d)
}

/// `num` accepts every request but a division by zero, which the library
/// never makes.
pub open spec fn serves<N: Fn(Arith) -> u32>(num: &N) -> bool {
    forall|op: Arith| !divides_by_zero(op) ==> #[trigger] call_requires(*num, (op,))
}

/// `c` is an answer that `num` may give to `op`.
pub open spec fn yields<N: Fn(Arith) -> u32>(num: &N, op: Arith, c: u32) -> bool {
    call_ensures(*num, (op,), c)
}

/// Tells whether `x` is one of the two zeros.
pub fn zero(x: u32) -> (r: bool)
    ensures
        r == is_zero(x),
{
    x == 0 || x == 0x8000_0000u32
}

} // verus!
