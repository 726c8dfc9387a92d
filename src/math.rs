use vstd::prelude::*;

verus! {

/// `r` is the square root of `n`, rounded down.
pub open spec fn is_floor_sqrt(r: int, n: int) -> bool {
    0 <= r && r * r <= n && n < (r + 1) * (r + 1)
}

/// `x * y / d`, rounded down: the fixed-point share of `x` that `y` parts
/// out of `d` make.
pub open spec fn mul_div(x: int, y: int, d: int) -> int {
    x * y / d
}

/// The product of two `u64` values fits in `u128`.
pub proof fn lemma_mul_fits_u128(x: u64, y: u64)
    ensures
        0 <= x * y <= u64::MAX * u64::MAX,
        u64::MAX * u64::MAX <= u128::MAX,
{
    assert(0 <= x * y <= u64::MAX * u64::MAX) by (nonlinear_arith)
        requires
            0 <= x <= u64::MAX,
            0 <= y <= u64::MAX,
    ;
}

/// Relies on `u128::isqrt`: the square root of `n`, rounded down.
#[verifier::external_body]
fn isqrt_u128(n: u128) -> (r: u128)
    ensures
        is_floor_sqrt(r as int, n as int),
{
    n.isqrt()
}

/// The rounded-down square root of `x * y`, computed at 128-bit precision.
pub fn sqrt_of_product(x: u64, y: u64) -> (r: u64)
    ensures
        is_floor_sqrt(r as int, x * y),
{
    proof {
        lemma_mul_fits_u128(x, y);
    }
    let n: u128 = (x as u128) * (y as u128);
    let s: u128 = isqrt_u128(n);
    proof {
        let si = s as int;
        if si > u64::MAX {
            assert(si * si >= (u64::MAX + 1) * (u64::MAX + 1)) by (nonlinear_arith)
                requires
                    si >= u64::MAX + 1,
            ;
        }
    }
    s as u64
}

/// `x * y / d`, rounded down, for `y <= d`: never more than `x`.
pub fn pro_rata(x: u64, y: u64, d: u64) -> (r: u64)
    requires
        0 < d,
        y <= d,
    ensures
        r == mul_div(x as int, y as int, d as int),
        r <= x,
        y == d ==> r == x,
{
    proof {
        lemma_mul_fits_u128(x, y);
        lemma_mul_div_le(x as int, y as int, d as int);
        if y == d {
            vstd::arithmetic::div_mod::lemma_div_by_multiple(x as int, d as int);
        }
    }
    let r: u128 = (x as u128) * (y as u128) / (d as u128);
    r as u64
}

/// `x * y / d <= x` when `0 <= y <= d`.
pub proof fn lemma_mul_div_le(x: int, y: int, d: int)
    requires
        0 <= x,
        0 <= y <= d,
        0 < d,
    ensures
        0 <= x * y / d <= x,
{
    assert(x * y <= x * d) by (nonlinear_arith)
        requires
            0 <= x,
            y <= d,
    ;
    assert(0 <= x * y) by (nonlinear_arith)
        requires
            0 <= x,
            0 <= y,
    ;
    vstd::arithmetic::div_mod::lemma_div_is_ordered(x * y, x * d, d);
    vstd::arithmetic::div_mod::lemma_div_is_ordered(0, x * y, d);
    vstd::arithmetic::div_mod::lemma_div_by_multiple(x, d);
    assert(x * d == d * x) by (nonlinear_arith);
    vstd::arithmetic::div_mod::lemma_div_multiples_vanish(x, d);
}

/// Rounding `k / d` down loses less than `d` of `k` once multiplied back.
pub proof fn lemma_floor_product(k: int, d: int)
    requires
        0 <= k,
        0 < d,
    ensures
        k - d < d * (k / d) <= k,
        k - d < (k / d) * d <= k,
{
    vstd::arithmetic::div_mod::lemma_fundamental_div_mod(k, d);
    vstd::arithmetic::div_mod::lemma_mod_pos_bound(k, d);
    assert(d * (k / d) == (k / d) * d) by (nonlinear_arith);
}

/// `x * y / (x + s) <= y`: adding to one side of a product and dividing the
/// product by it leaves at most the other side.
pub proof fn lemma_kept_reserve_le(x: int, y: int, s: int)
    requires
        0 <= x,
        0 <= y,
        0 < s,
    ensures
        0 <= x * y / (x + s) <= y,
{
    assert(x * y == y * x) by (nonlinear_arith);
    lemma_mul_div_le(y, x, x + s);
}

} // verus!
