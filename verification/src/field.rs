use vstd::prelude::*;

verus! {

/// The modulus of the base field: the Mersenne prime 2^31 - 1.
pub const P: u32 = 0x7fff_ffff;

/// A value is a canonical field element when it lies below the modulus.
pub open spec fn is_felt(a: nat) -> bool {
    a < P
}

/// Field addition of two canonical elements.
pub open spec fn f_add(a: nat, b: nat) -> nat
    recommends
        is_felt(a),
        is_felt(b),
{
    if a + b < P {
        a + b
    } else {
        (a + b - P) as nat
    }
}

/// Field subtraction of two canonical elements.
pub open spec fn f_sub(a: nat, b: nat) -> nat
    recommends
        is_felt(a),
        is_felt(b),
{
    if a >= b {
        (a - b) as nat
    } else {
        (a + P - b) as nat
    }
}

/// Field multiplication of two canonical elements.
pub open spec fn f_mul(a: nat, b: nat) -> nat
    recommends
        is_felt(a),
        is_felt(b),
{
    (a * b) % (P as nat)
}

/// Field squaring.
pub open spec fn f_square(a: nat) -> nat
    recommends
        is_felt(a),
{
    f_mul(a, a)
}

/// Reduction of an arbitrary machine word to a canonical element.
pub open spec fn f_reduce(a: nat) -> nat {
    a % (P as nat)
}

pub fn madd(a: u32, b: u32) -> (r: u32)
    requires
        is_felt(a as nat),
        is_felt(b as nat),
    ensures
        is_felt(r as nat),
        r as nat == f_add(a as nat, b as nat),
{
    let s: u64 = a as u64 + b as u64;
    if s < P as u64 {
        s as u32
    } else {
        (s - P as u64) as u32
    }
}

pub fn msub(a: u32, b: u32) -> (r: u32)
    requires
        is_felt(a as nat),
        is_felt(b as nat),
    ensures
        is_felt(r as nat),
        r as nat == f_sub(a as nat, b as nat),
{
    if a >= b {
        a - b
    } else {
        a + (P - b)
    }
}

pub fn mmul(a: u32, b: u32) -> (r: u32)
    requires
        is_felt(a as nat),
        is_felt(b as nat),
    ensures
        is_felt(r as nat),
        r as nat == f_mul(a as nat, b as nat),
{
    assert((a as nat) * (b as nat) < 0x4000_0000_0000_0000) by (nonlinear_arith)
        requires
            a < 0x8000_0000,
            b < 0x8000_0000;
    let prod: u64 = a as u64 * b as u64;
    let r: u64 = prod % (P as u64);
    assert(r < P as u64) by (nonlinear_arith)
        requires
            r == prod % (P as u64);
    assert(r as nat == ((a as nat) * (b as nat)) % (P as nat));
    r as u32
}

pub fn msquare(a: u32) -> (r: u32)
    requires
        is_felt(a as nat),
    ensures
        is_felt(r as nat),
        r as nat == f_square(a as nat),
{
    mmul(a, a)
}

pub fn mreduce(a: u32) -> (r: u32)
    ensures
        is_felt(r as nat),
        r as nat == f_reduce(a as nat),
{
    a % P
}

/// The difference of two canonical elements vanishes exactly when they are
/// equal; this is what lets a boundary constraint pin a trace cell to a claim.
pub proof fn lemma_sub_zero_iff_eq(a: nat, b: nat)
    requires
        is_felt(a),
        is_felt(b),
    ensures
        (f_sub(a, b) == 0) <==> (a == b),
{
}

/// Multiplying by zero yields zero: a single vanishing factor annihilates a
/// whole constraint product.
pub proof fn lemma_mul_zero(a: nat)
    requires
        is_felt(a),
    ensures
        f_mul(a, 0) == 0,
        f_mul(0, a) == 0,
{
    assert(a * 0 == 0);
    assert(0 * a == 0);
}

} // verus!
