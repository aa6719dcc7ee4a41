use vstd::prelude::*;

verus! {

/// Relies on `rand::Rng::gen_range` of the thread-local generator `rand::thread_rng`,
/// on an inclusive range of `i64`: the value drawn lies in the range (it panics only
/// on an empty range, which `requires` leaves out).
#[verifier::external_body]
pub(crate) fn draw_in(lo: i64, hi: i64) -> (r: i64)
    requires
        lo <= hi,
    ensures
        lo <= r <= hi,
{
    rand::Rng::gen_range(&mut rand::thread_rng(), lo..=hi)
}

/// A random non-zero integer in `[min, max]`, uniform over the non-zero values there.
pub fn generate_non_zero_integer(min: i64, max: i64) -> (r: i64)
    requires
        min <= max,
        !(min == 0 && max == 0),
    ensures
        min <= r <= max,
        r != 0,
{
    if min <= 0 && 0 <= max {
        // Draw among the non-zero values by skipping zero.
        let k = draw_in(min, max - 1);
        if k >= 0 { k + 1 } else { k }
    } else {
        draw_in(min, max)
    }
}

} // verus!
