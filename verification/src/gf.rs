//! Multiplication in GF(2^8), the finite field AES works in.
//!
//! A byte stands for a polynomial over GF(2); products are reduced by the
//! AES polynomial x^8 + x^4 + x^3 + x + 1, whose low byte is 0x1b.

use vstd::prelude::*;

verus! {

/// One shift-and-add step: double `a` in the field (reducing by 0x1b on
/// high-bit carry), halve `b`, and accumulate `a` into `r` when the low
/// bit of `b` is set. `k` counts the steps still to run.
pub open spec fn spec_gmul_rec(a: u8, b: u8, r: u8, k: nat) -> u8
    decreases k,
{
    if k == 0 {
        r
    } else {
        let r2 = if b & 0x01 != 0 { r ^ a } else { r };
        let a2 = if a & 0x80 != 0 { ((a << 1) ^ 0x1b) as u8 } else { (a << 1) as u8 };
        spec_gmul_rec(a2, (b >> 1) as u8, r2, (k - 1) as nat)
    }
}

/// Product of `a` and `b` in GF(2^8): eight shift-and-add steps starting
/// from an empty accumulator.
pub open spec fn spec_gmul(a: u8, b: u8) -> u8 {
    spec_gmul_rec(a, b, 0, 8)
}

/// Multiplies two bytes in GF(2^8) under the AES reduction polynomial.
pub fn gmul(p: u8, q: u8) -> (r: u8)
    ensures
        r == spec_gmul(p, q),
{
    let mut a = p;
    let mut b = q;
    let mut r: u8 = 0;
    let mut k: usize = 0;
    while k < 8
        invariant
            k <= 8,
            spec_gmul_rec(a, b, r, (8 - k) as nat) == spec_gmul(p, q),
        decreases 8 - k,
    {
        if b & 0x01 != 0 {
            r ^= a;
        }
        if a & 0x80 != 0 {
            a <<= 1;
            a ^= 0x1b;
        } else {
            a <<= 1;
        }
        b >>= 1;
        k += 1;
    }
    r
}

} // verus!
