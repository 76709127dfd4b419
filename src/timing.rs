use vstd::prelude::*;

verus! {

/// The value `v` held to the range of `i64`.
pub open spec fn clamp64(v: int) -> i64 {
    if v < i64::MIN {
        i64::MIN
    } else if v > i64::MAX {
        i64::MAX
    } else {
        v as i64
    }
}

/// Moves the coordinate `a` by `d`, stopping at the ends of `i64`.
pub fn shift(a: i64, d: i64) -> (r: i64)
    ensures
        r == clamp64(a + d),
{
    if d >= 0 {
        if a > i64::MAX - d {
            i64::MAX
        } else {
            a + d
        }
    } else {
        if a < i64::MIN - d {
            i64::MIN
        } else {
            a + d
        }
    }
}

/// Whether an accumulator at `elapsed`, given `dt` more, reaches `cadence`.
pub open spec fn fires(elapsed: u64, dt: u64, cadence: u64) -> bool {
    elapsed + dt >= cadence
}

/// One step of an animation timer: `elapsed` gains `dt`; when it reaches
/// `cadence` the timer fires and starts again from zero.
pub fn accumulate(elapsed: u64, dt: u64, cadence: u64) -> (r: (bool, u64))
    ensures
        r.0 == fires(elapsed, dt, cadence),
        r.0 ==> r.1 == 0,
        !r.0 ==> r.1 == elapsed + dt,
{
    let sum = elapsed.saturating_add(dt);
    if sum >= cadence {
        (true, 0)
    } else {
        (false, sum)
    }
}

} // verus!
