//! Numbers as the interpreter sees them.
//!
//! A number is carried as the 64 bits of an IEEE 754 double. The interpreter
//! itself never rounds: whoever drives it hands in the arithmetic and the
//! reading of numeric literals as two functions over bit patterns. Contracts
//! speak of such a function through a model of it, a mathematical function
//! that gives each of its results. What the interpreter decides on its own
//! is whether a number is zero.

use vstd::prelude::*;

verus! {

/// The bit pattern of positive zero, the value that `let` and `display` return.
pub const ZERO: u64 = 0;

/// The bit pattern of negative zero.
pub const NEGATIVE_ZERO: u64 = 0x8000_0000_0000_0000;

/// The arithmetic operations that the numeric backend carries out.
#[derive(Clone, Copy, Debug, PartialEq, Eq, Structural)]
pub enum Arith {
    Add,
    Sub,
    Mul,
    Div,
}

/// A double compares equal to zero exactly when it is one of the two zeros.
pub open spec fn is_zero(bits: u64) -> bool {
    bits == ZERO || bits == NEGATIVE_ZERO
}

/// Whether the double with these bits compares equal to zero.
pub fn zero_valued(bits: u64) -> (r: bool)
    ensures
        r == is_zero(bits),
{
    bits == ZERO || bits == NEGATIVE_ZERO
}

/// A model of the arithmetic: the result for each operation and operands.
pub type Numeric = spec_fn(Arith, u64, u64) -> u64;

/// A model of the reading of numeric literals: for each spelling the bits of
/// the number it denotes, or `None` where it is no numeric literal.
pub type Literals = spec_fn(Seq<char>) -> Option<u64>;

/// Whether the arithmetic `f` can be called on every operation and operands
/// but a division by zero, which the evaluator never asks for.
pub open spec fn computes_all<F: Fn(Arith, u64, u64) -> u64>(f: &F) -> bool {
    forall|op: Arith, a: u64, b: u64|
        !(op == Arith::Div && is_zero(b)) ==> call_requires(f, (op, a, b))
}

/// Whether every result of the arithmetic `f` is the one that `num` gives.
pub open spec fn follows<F: Fn(Arith, u64, u64) -> u64>(f: &F, num: Numeric) -> bool {
    forall|op: Arith, a: u64, b: u64, r: u64| #[trigger]
        call_ensures(f, (op, a, b), r) ==> r == num(op, a, b)
}

/// Whether the reader `read` can be called on every token.
pub open spec fn reads_all<R: Fn(&str) -> Option<u64>>(read: &R) -> bool {
    forall|s: &str| call_requires(read, (s,))
}

/// Whether every answer of the reader `read` is the one that `lit` gives for
/// the token's spelling.
pub open spec fn reads_as<R: Fn(&str) -> Option<u64>>(read: &R, lit: Literals) -> bool {
    forall|s: &str, r: Option<u64>| #[trigger] call_ensures(read, (s,), r) ==> r == lit(s@)
}

} // verus!
