//! The terrain: a walk of height samples, each made from the one before
//! and a random draw.
//!
//! A step adds the draw's remainder by the largest allowed change to the
//! last height, on 32-bit signed numbers, and then lifts the sum to the
//! floor, so that no height lies under the floor and none is negative.
//! The draws come from the thread's random number generator; what a draw
//! leads to is stated here for every value it can take.

use vstd::prelude::*;
use crate::random::draw_i32;

verus! {

/// The sum that stands in when a step leaves the signed 32-bit range.
pub const OVERFLOW_FALLBACK: i32 = 10;

/// The number that 32 bits stand for when read as signed.
pub open spec fn as_signed(x: u32) -> int {
    if x <= i32::MAX {
        x as int
    } else {
        x - 0x1_0000_0000
    }
}

/// The size of a number, without its sign.
pub open spec fn magnitude(x: int) -> int {
    if x >= 0 {
        x
    } else {
        -x
    }
}

/// The remainder of `x` by `m` that has the sign of `x`: what is left of
/// `x` when the division is rounded toward zero. Its size is the
/// remainder of the size of `x` by the size of `m`.
pub open spec fn rem_toward_zero(x: int, m: int) -> int {
    if m >= 0 {
        if x >= 0 {
            x % m
        } else {
            -((-x) % m)
        }
    } else {
        if x >= 0 {
            x % (-m)
        } else {
            -((-x) % (-m))
        }
    }
}

/// The signed sum of a step, or the fallback where it does not fit.
pub open spec fn step_sum(last: u32, draw: i32, max_delta: u32) -> i32 {
    let sum = as_signed(last) + rem_toward_zero(draw as int, as_signed(max_delta));
    if i32::MIN <= sum <= i32::MAX {
        sum as i32
    } else {
        OVERFLOW_FALLBACK
    }
}

/// The height that follows `last` when `draw` is drawn: the step's sum
/// where it reaches the floor, and the floor where it lies under it. A sum
/// below zero lies under every floor.
pub open spec fn next_height_of(last: u32, draw: i32, max_delta: u32, floor_height: u32) -> u32 {
    let sum = step_sum(last, draw, max_delta);
    if sum >= floor_height {
        sum as u32
    } else {
        floor_height
    }
}

/// The heights that a run of draws leads to, starting from height 0: one
/// height for each draw, in the order of the draws.
pub open spec fn heights_of(draws: Seq<i32>, max_delta: u32, floor_height: u32) -> Seq<u32>
    decreases draws.len(),
{
    if draws.len() == 0 {
        Seq::empty()
    } else {
        let before = heights_of(draws.drop_last(), max_delta, floor_height);
        let last = if before.len() == 0 { 0u32 } else { before.last() };
        before.push(next_height_of(last, draws.last(), max_delta, floor_height))
    }
}

/// Whether `draw` has a remainder by `max_delta`: nothing has one by zero,
/// and the smallest draw has none by the `max_delta` that reads as -1.
pub open spec fn has_remainder(draw: i32, max_delta: u32) -> bool {
    max_delta != 0 && !(max_delta == u32::MAX && draw == i32::MIN)
}

/// The largest changes by which every draw has a remainder.
pub open spec fn usable_delta(max_delta: u32) -> bool {
    max_delta != 0 && max_delta != u32::MAX
}

fn signed(x: u32) -> (y: i32)
    ensures
        y == as_signed(x),
{
    if x <= 0x7fff_ffff {
        x as i32
    } else {
        (x - 0x8000_0000) as i32 + i32::MIN
    }
}

fn size(x: i32) -> (y: u32)
    ensures
        y == magnitude(x as int),
{
    if x >= 0 {
        x as u32
    } else {
        (-(x + 1)) as u32 + 1
    }
}

fn remainder(x: i32, m: i32) -> (r: i32)
    requires
        m != 0,
        !(m == -1 && x == i32::MIN),
    ensures
        r == rem_toward_zero(x as int, m as int),
{
    let r: u32 = size(x) % size(m);
    if x >= 0 {
        r as i32
    } else {
        -(r as i32)
    }
}

/// One step of the walk: the height that follows `last` when `draw` was
/// drawn.
pub fn next_height(last: u32, draw: i32, max_delta: u32, floor_height: u32) -> (height: u32)
    requires
        has_remainder(draw, max_delta),
    ensures
        height == next_height_of(last, draw, max_delta, floor_height),
        height >= floor_height,
{
    let change: i32 = remainder(draw, signed(max_delta));
    let sum: i32 = match signed(last).checked_add(change) {
        Some(sum) => sum,
        None => OVERFLOW_FALLBACK,
    };
    if sum >= 0 && sum as u32 >= floor_height {
        sum as u32
    } else {
        floor_height
    }
}

/// The terrain that the given draws lead to: the walk that starts at
/// height 0 and takes one step for each draw, in their order.
pub fn heights_from(draws: &Vec<i32>, max_delta: u32, floor_height: u32) -> (heights: Vec<u32>)
    requires
        usable_delta(max_delta),
    ensures
        heights@ == heights_of(draws@, max_delta, floor_height),
{
    let mut heights: Vec<u32> = Vec::new();
    let mut last: u32 = 0;
    let mut done: usize = 0;
    while done < draws.len()
        invariant
            usable_delta(max_delta),
            done <= draws@.len(),
            heights@.len() == done,
            heights@ == heights_of(draws@.take(done as int), max_delta, floor_height),
            last == (if done == 0 { 0u32 } else { heights@.last() }),
        decreases draws@.len() - done,
    {
        proof {
            assert(draws@.take(done + 1).drop_last() =~= draws@.take(done as int));
        }
        last = next_height(last, draws[done], max_delta, floor_height);
        heights.push(last);
        done += 1;
    }
    proof {
        assert(draws@.take(done as int) =~= draws@);
    }
    heights
}

/// A fresh terrain of `length + 1` heights: as many random draws are
/// taken, and the terrain is the walk that they lead to.
pub fn generate(length: usize, max_delta: u32, floor_height: u32) -> (heights: Vec<u32>)
    requires
        length < usize::MAX,
        usable_delta(max_delta),
    ensures
        heights@.len() == length + 1,
        forall|i: int| 0 <= i < heights@.len() ==> heights@[i] >= floor_height,
        exists|draws: Seq<i32>|
            draws.len() == length + 1 && heights@ == heights_of(draws, max_delta, floor_height),
        max_delta <= i32::MAX && max_delta <= floor_height && floor_height + (max_delta - 1) * (
        length + 1) <= i32::MAX ==> gentle(heights@, max_delta, floor_height),
{
    let mut rng = rand::thread_rng();
    let mut draws: Vec<i32> = Vec::new();
    let mut taken: usize = 0;
    while taken <= length
        invariant
            length < usize::MAX,
            taken <= length + 1,
            draws@.len() == taken,
        decreases length + 1 - taken,
    {
        draws.push(draw_i32(&mut rng));
        taken += 1;
    }
    proof {
        lemma_heights_bounds(draws@, max_delta, floor_height);
        if max_delta <= i32::MAX && max_delta <= floor_height && floor_height + (max_delta - 1)
            * (length + 1) <= i32::MAX {
            lemma_walk_is_gentle(draws@, max_delta, floor_height);
        }
    }
    heights_from(&draws, max_delta, floor_height)
}

/// Whether a terrain is gentle: it starts at the floor, stays on or above
/// it, and from one height to the next it rises or falls by less than
/// `max_delta`.
pub open spec fn gentle(heights: Seq<u32>, max_delta: u32, floor_height: u32) -> bool {
    &&& heights.len() > 0 ==> heights[0] == floor_height
    &&& forall|i: int| 0 <= i < heights.len() ==> heights[i] >= floor_height
    &&& forall|i: int|
        0 < i < heights.len() ==> heights[i - 1] - max_delta < #[trigger] heights[i]
            && heights[i] < heights[i - 1] + max_delta
}

/// The remainder that a step adds is smaller in size than the largest
/// allowed change, and has the sign of the draw or is zero.
pub proof fn lemma_change_is_bounded(draw: i32, max_delta: u32)
    requires
        max_delta != 0,
    ensures
        magnitude(rem_toward_zero(draw as int, as_signed(max_delta))) < magnitude(
            as_signed(max_delta),
        ),
        draw >= 0 ==> rem_toward_zero(draw as int, as_signed(max_delta)) >= 0,
        draw <= 0 ==> rem_toward_zero(draw as int, as_signed(max_delta)) <= 0,
{
    let m = as_signed(max_delta);
    if draw == 0 {
        if m >= 0 {
            assert(0int % m == 0) by (nonlinear_arith)
                requires
                    m > 0,
            ;
        } else {
            assert(0int % (-m) == 0) by (nonlinear_arith)
                requires
                    m < 0,
            ;
        }
    }
}

/// From a height of zero, a largest change that does not exceed the floor
/// leads to the floor, whatever is drawn.
pub proof fn lemma_first_height_is_floor(draw: i32, max_delta: u32, floor_height: u32)
    requires
        0 < max_delta <= i32::MAX,
        max_delta <= floor_height,
    ensures
        next_height_of(0, draw, max_delta, floor_height) == floor_height,
{
    lemma_change_is_bounded(draw, max_delta);
}

/// From a height on or above the floor, a step whose sum cannot leave the
/// signed range stays on or above the floor and moves the height by less
/// than the largest allowed change.
pub proof fn lemma_step_is_gentle(last: u32, draw: i32, max_delta: u32, floor_height: u32)
    requires
        0 < max_delta <= i32::MAX,
        floor_height <= last,
        last + max_delta - 1 <= i32::MAX,
    ensures
        next_height_of(last, draw, max_delta, floor_height) >= floor_height,
        last - max_delta < next_height_of(last, draw, max_delta, floor_height) < last + max_delta,
{
    lemma_change_is_bounded(draw, max_delta);
}

/// Whatever is drawn, the walk gives one height for each draw and none of
/// them lies under the floor.
pub proof fn lemma_heights_bounds(draws: Seq<i32>, max_delta: u32, floor_height: u32)
    ensures
        heights_of(draws, max_delta, floor_height).len() == draws.len(),
        forall|i: int|
            0 <= i < draws.len() ==> heights_of(draws, max_delta, floor_height)[i] >= floor_height,
    decreases draws.len(),
{
    if draws.len() > 0 {
        lemma_heights_bounds(draws.drop_last(), max_delta, floor_height);
    }
}

/// Whatever is drawn, a walk is gentle when its largest change does not
/// exceed the floor and even a walk that only rises stays in the signed
/// range. Its i-th height then lies at most i changes above the floor.
pub proof fn lemma_walk_is_gentle(draws: Seq<i32>, max_delta: u32, floor_height: u32)
    requires
        0 < max_delta <= i32::MAX,
        max_delta <= floor_height,
        floor_height + (max_delta - 1) * draws.len() <= i32::MAX,
    ensures
        gentle(heights_of(draws, max_delta, floor_height), max_delta, floor_height),
        forall|i: int|
            0 <= i < draws.len() ==> heights_of(draws, max_delta, floor_height)[i] <= floor_height
                + (max_delta - 1) * i,
    decreases draws.len(),
{
    let heights = heights_of(draws, max_delta, floor_height);
    lemma_heights_bounds(draws, max_delta, floor_height);
    if draws.len() > 0 {
        let shorter = draws.drop_last();
        let before = heights_of(shorter, max_delta, floor_height);
        let n = shorter.len() as int;
        let step = max_delta - 1;
        assert(step * n <= step * draws.len()) by (nonlinear_arith)
            requires
                step >= 0,
                n <= draws.len(),
        ;
        lemma_walk_is_gentle(shorter, max_delta, floor_height);
        lemma_heights_bounds(shorter, max_delta, floor_height);
        if n == 0 {
            lemma_first_height_is_floor(draws.last(), max_delta, floor_height);
            assert(step * 0 == 0) by (nonlinear_arith);
        } else {
            let last = before.last();
            assert(step * (n - 1) + step == step * n) by (nonlinear_arith);
            lemma_step_is_gentle(last, draws.last(), max_delta, floor_height);
        }
        assert forall|i: int| 0 <= i < heights.len() implies heights[i] <= floor_height + step
            * i by {
            if i < n {
                assert(heights[i] == before[i]);
            }
        }
        assert forall|i: int| 0 < i < heights.len() implies heights[i - 1] - max_delta
            < #[trigger] heights[i] && heights[i] < heights[i - 1] + max_delta by {
            if i < n {
                assert(heights[i] == before[i]);
                assert(heights[i - 1] == before[i - 1]);
            } else {
                assert(heights[i - 1] == before[n - 1]);
            }
        }
    }
}

} // verus!
