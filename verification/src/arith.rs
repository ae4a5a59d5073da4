use vstd::prelude::*;

verus! {

/// The least value a coordinate can take.
pub open spec fn coord_min() -> int {
    -0x8000_0000
}

/// The greatest value a coordinate can take.
pub open spec fn coord_max() -> int {
    0x7fff_ffff
}

/// `v` brought into the range of a coordinate: values beyond either end
/// are replaced by that end.
pub open spec fn clamp_coord(v: int) -> int {
    if v < coord_min() {
        coord_min()
    } else if v > coord_max() {
        coord_max()
    } else {
        v
    }
}

/// Adds an offset to a coordinate, stopping at the ends of the range.
pub fn offset_coord(v: i32, by: i32) -> (r: i32)
    ensures
        r == clamp_coord(v + by),
{
    let wide: i64 = v as i64 + by as i64;
    if wide < i32::MIN as i64 {
        i32::MIN
    } else if wide > i32::MAX as i64 {
        i32::MAX
    } else {
        wide as i32
    }
}

/// The difference of two coordinates, stopping at the ends of the range.
pub fn coord_delta(to: i32, from: i32) -> (r: i32)
    ensures
        r == clamp_coord(to - from),
{
    let wide: i64 = to as i64 - from as i64;
    if wide < i32::MIN as i64 {
        i32::MIN
    } else if wide > i32::MAX as i64 {
        i32::MAX
    } else {
        wide as i32
    }
}

/// The largest magnitude of a factor that [`mul_wide`] takes.
pub open spec fn factor_limit() -> int {
    0x4000_0000_0000_0000
}

/// The product of two numbers whose magnitudes are at most `la` and `lb` is
/// at most `la * lb` in magnitude.
pub proof fn lemma_product_bound(a: int, b: int, la: int, lb: int)
    requires
        -la <= a <= la,
        -lb <= b <= lb,
    ensures
        -(la * lb) <= a * b <= la * lb,
{
    assert(-(la * lb) <= a * b <= la * lb) by (nonlinear_arith)
        requires
            -la <= a <= la,
            -lb <= b <= lb,
    ;
}

/// The exact product of two factors that are small enough for it to fit.
pub fn mul_wide(a: i128, b: i128) -> (r: i128)
    requires
        -factor_limit() <= a <= factor_limit(),
        -factor_limit() <= b <= factor_limit(),
    ensures
        r == a * b,
{
    proof {
        lemma_product_bound(a as int, b as int, factor_limit(), factor_limit());
        assert(factor_limit() * factor_limit() == 0x1000_0000_0000_0000_0000_0000_0000_0000)
            by (nonlinear_arith);
    }
    a * b
}

} // verus!
