//! Scalars of the dealer's field, and the trusted boundary to the curve
//! library that computes on them.
//!
//! A [`Scalar`] holds the canonical integer representative of a field element
//! as four 64-bit limbs, little-endian. The limbs are plain values, so
//! [`Scalar::val`] is an ordinary spec function; only the arithmetic itself
//! (addition, subtraction, multiplication, inversion and sampling, performed
//! by the curve library) is taken on trust, with a contract over `val`.

use vstd::prelude::*;
use ark_ff::PrimeField;
use ark_ff::UniformRand;
use ark_ff::Field;
use crate::field::{fadd, fsub, fmul, in_field};

verus! {

/// An element of the dealer's scalar field, as its canonical integer
/// representative in four little-endian 64-bit limbs.
///
/// A scalar is well formed when that integer lies in `[0, field_order())`;
/// every scalar this crate hands out is.
#[derive(Clone, Copy, Debug)]
pub struct Scalar {
    /// Little-endian limbs of the canonical representative.
    pub limbs: [u64; 4],
}

impl Scalar {
    /// The integer this scalar represents.
    pub open spec fn val(self) -> int {
        self.limbs[0] + self.limbs[1] * 0x1_0000_0000_0000_0000int
            + self.limbs[2] * 0x1_0000_0000_0000_0000_0000_0000_0000_0000int
            + self.limbs[3]
            * 0x1_0000_0000_0000_0000_0000_0000_0000_0000_0000_0000_0000_0000int
    }

    /// The scalar is a canonical field element.
    pub open spec fn wf(self) -> bool {
        in_field(self.val())
    }
}

/// The integer a scalar represents; `s.val()` as a free function.
pub open spec fn scalar_val(s: Scalar) -> int {
    s.val()
}

/// Relies on the curve library's uniform sampler (`UniformRand::rand` over a
/// fresh thread-local CSPRNG): the result is a canonical field element;
/// nothing is assumed about which one.
#[verifier::external_body]
pub(crate) fn scalar_random() -> (r: Scalar)
    ensures
        r.wf(),
{
    let f = ark_bn254::Fr::rand(&mut rand::thread_rng());
    Scalar { limbs: f.into_bigint().0 }
}

/// Relies on the curve library mapping a `u64` to the field element with that
/// value (every `u64` is below the field order).
#[verifier::external_body]
pub(crate) fn scalar_from_u64(x: u64) -> (r: Scalar)
    ensures
        r.val() == x,
        r.wf(),
{
    let f = ark_bn254::Fr::from(x);
    Scalar { limbs: f.into_bigint().0 }
}

/// Relies on the curve library's addition being addition modulo the field
/// order on canonical representatives.
#[verifier::external_body]
pub(crate) fn scalar_add(a: &Scalar, b: &Scalar) -> (r: Scalar)
    requires
        a.wf(),
        b.wf(),
    ensures
        r.val() == fadd(a.val(), b.val()),
        r.wf(),
{
    let fa = ark_bn254::Fr::from_bigint(ark_ff::BigInt(a.limbs)).unwrap();
    let fb = ark_bn254::Fr::from_bigint(ark_ff::BigInt(b.limbs)).unwrap();
    Scalar { limbs: (fa + fb).into_bigint().0 }
}

/// Relies on the curve library's subtraction being subtraction modulo the
/// field order on canonical representatives.
#[verifier::external_body]
pub(crate) fn scalar_sub(a: &Scalar, b: &Scalar) -> (r: Scalar)
    requires
        a.wf(),
        b.wf(),
    ensures
        r.val() == fsub(a.val(), b.val()),
        r.wf(),
{
    let fa = ark_bn254::Fr::from_bigint(ark_ff::BigInt(a.limbs)).unwrap();
    let fb = ark_bn254::Fr::from_bigint(ark_ff::BigInt(b.limbs)).unwrap();
    Scalar { limbs: (fa - fb).into_bigint().0 }
}

/// Relies on the curve library's multiplication being multiplication modulo
/// the field order on canonical representatives.
#[verifier::external_body]
pub(crate) fn scalar_mul(a: &Scalar, b: &Scalar) -> (r: Scalar)
    requires
        a.wf(),
        b.wf(),
    ensures
        r.val() == fmul(a.val(), b.val()),
        r.wf(),
{
    let fa = ark_bn254::Fr::from_bigint(ark_ff::BigInt(a.limbs)).unwrap();
    let fb = ark_bn254::Fr::from_bigint(ark_ff::BigInt(b.limbs)).unwrap();
    Scalar { limbs: (fa * fb).into_bigint().0 }
}

/// Relies on the curve library's inversion: for a nonzero field element it
/// returns the multiplicative inverse (`None` comes back only for zero, which
/// the precondition excludes).
#[verifier::external_body]
pub(crate) fn scalar_inverse(a: &Scalar) -> (r: Scalar)
    requires
        a.wf(),
        a.val() != 0,
    ensures
        fmul(a.val(), r.val()) == 1,
        r.wf(),
{
    let fa = ark_bn254::Fr::from_bigint(ark_ff::BigInt(a.limbs)).unwrap();
    Scalar { limbs: fa.inverse().unwrap().into_bigint().0 }
}

/// Relies on `rand::random::<bool>`: a fair coin from the thread-local
/// CSPRNG; nothing is assumed about the result.
#[verifier::external_body]
pub(crate) fn random_bool() -> (r: bool) {
    rand::random::<bool>()
}

/// Whether this scalar is the field's zero; decided on the limbs alone.
pub fn scalar_is_zero(a: &Scalar) -> (r: bool)
    ensures
        r == (a.val() == 0),
{
    let z = a.limbs[0] == 0 && a.limbs[1] == 0 && a.limbs[2] == 0 && a.limbs[3] == 0;
    proof {
        if !z {
            assert(a.val() != 0) by (nonlinear_arith)
                requires
                    a.val() == a.limbs[0] + a.limbs[1] * 0x1_0000_0000_0000_0000int
                        + a.limbs[2]
                        * 0x1_0000_0000_0000_0000_0000_0000_0000_0000int
                        + a.limbs[3]
                        * 0x1_0000_0000_0000_0000_0000_0000_0000_0000_0000_0000_0000_0000int,
                    !(a.limbs[0] == 0 && a.limbs[1] == 0 && a.limbs[2] == 0 && a.limbs[3]
                        == 0),
            ;
        }
    }
    z
}

} // verus!
