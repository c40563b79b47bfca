//! Arithmetic in the prime field that circuit variables range over.

use vstd::prelude::*;

verus! {

/// The field's modulus, the prime `2^61 - 1`.
pub const MODULUS: u64 = 0x1fff_ffff_ffff_ffff;

/// Whether `value` is the canonical form of a field element.
pub open spec fn is_element(value: u64) -> bool {
    value < MODULUS
}

/// Whether every entry of `values` is a field element.
pub open spec fn all_elements(values: Seq<u64>) -> bool {
    forall|i: int| 0 <= i < values.len() ==> is_element(#[trigger] values[i])
}

/// The sum of `a` and `b` in the field.
pub open spec fn sum_mod(a: u64, b: u64) -> u64 {
    ((a + b) % (MODULUS as int)) as u64
}

/// The product of `a` and `b` in the field.
pub open spec fn product_mod(a: u64, b: u64) -> u64 {
    ((a * b) % (MODULUS as int)) as u64
}

/// Adds in the field.
pub fn add_mod(a: u64, b: u64) -> (sum: u64)
    ensures
        sum == sum_mod(a, b),
        is_element(sum),
{
    let wide: u128 = a as u128 + b as u128;
    (wide % (MODULUS as u128)) as u64
}

/// Multiplies in the field.
pub fn mul_mod(a: u64, b: u64) -> (product: u64)
    ensures
        product == product_mod(a, b),
        is_element(product),
{
    assert(0 <= a * b <= 0xffff_ffff_ffff_ffff * 0xffff_ffff_ffff_ffff) by (nonlinear_arith)
        requires
            0 <= a <= 0xffff_ffff_ffff_ffff,
            0 <= b <= 0xffff_ffff_ffff_ffff,
    ;
    let wide: u128 = a as u128 * b as u128;
    (wide % (MODULUS as u128)) as u64
}

/// Whether every entry of `values` is a field element.
pub fn check_elements(values: &[u64]) -> (ok: bool)
    ensures
        ok == all_elements(values@),
{
    let mut i: usize = 0;
    while i < values.len()
        invariant
            i <= values.len(),
            forall|j: int| 0 <= j < i ==> is_element(#[trigger] values@[j]),
        decreases values.len() - i,
    {
        if values[i] >= MODULUS {
            return false;
        }
        i += 1;
    }
    true
}

} // verus!
