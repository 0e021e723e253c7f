//! Mathematical model of the scalar field the dealer works over.
//!
//! Every scalar handed out by the dealer is an element of the scalar field of
//! a fixed prime-order curve group. Contracts throughout the crate speak of
//! scalars through their canonical integer representative in `[0, field_order())`
//! and of the field operations through the modular functions below.

use vstd::prelude::*;

verus! {

/// The order of the scalar field: a prime.
pub open spec fn field_order() -> int {
    21888242871839275222246405745257275088548364400416034343698204186575808495617int
}

/// `x` is the canonical representative of a field element.
pub open spec fn in_field(x: int) -> bool {
    0 <= x < field_order()
}

/// Field addition on canonical representatives.
pub open spec fn fadd(a: int, b: int) -> int {
    (a + b) % field_order()
}

/// Field subtraction on canonical representatives.
pub open spec fn fsub(a: int, b: int) -> int {
    (a - b) % field_order()
}

/// Field multiplication on canonical representatives.
pub open spec fn fmul(a: int, b: int) -> int {
    (a * b) % field_order()
}

/// Additive shares `(s, v - s)` open back to `v`: the heart of the share
/// builder. Holds for any field element `v` and any blinding element `s`.
pub proof fn lemma_open_additive_shares(v: int, s: int)
    requires
        in_field(v),
        in_field(s),
    ensures
        fadd(s, fsub(v, s)) == v,
{
    vstd::arithmetic::div_mod::lemma_add_mod_noop_right(s, v - s, field_order());
    vstd::arithmetic::div_mod::lemma_small_mod(v as nat, field_order() as nat);
}

} // verus!
