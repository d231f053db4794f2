use vstd::prelude::*;

use crate::renderer::MultithreadingMethod;

verus! {

/// Number of spheres that the camera can be pointed at in turn.
pub const BALL_SLOTS: u8 = 3;

/// The strategy that follows `m` when the user cycles through them:
/// sequential, then one chunk per thread, then work stealing, then back.
pub fn next_method(m: MultithreadingMethod) -> (r: MultithreadingMethod)
    ensures
        m == MultithreadingMethod::Sequential ==> r == MultithreadingMethod::Crossbeam,
        m == MultithreadingMethod::Crossbeam ==> r == MultithreadingMethod::Rayon,
        m == MultithreadingMethod::Rayon ==> r == MultithreadingMethod::Sequential,
{
    match m {
        MultithreadingMethod::Sequential => MultithreadingMethod::Crossbeam,
        MultithreadingMethod::Crossbeam => MultithreadingMethod::Rayon,
        MultithreadingMethod::Rayon => MultithreadingMethod::Sequential,
    }
}

/// The sphere slot that a click moves to from `click_count`: the next one,
/// wrapping around after the last.
pub fn next_ball_slot(click_count: u8) -> (r: u8)
    requires
        click_count < BALL_SLOTS,
    ensures
        r == (click_count + 1) % (BALL_SLOTS as int),
        r < BALL_SLOTS,
{
    (click_count + 1) % BALL_SLOTS
}

} // verus!
