//! Coordinate arithmetic on a wrapping grid, and the four headings.

use vstd::prelude::*;

verus! {

/// One of the four headings a segment can travel in.
#[derive(Clone, Copy, Debug, PartialEq, Eq, Structural)]
pub enum Direction {
    Up,
    Right,
    Down,
    Left,
}

/// The heading that points the other way.
pub open spec fn opposite(d: Direction) -> Direction {
    match d {
        Direction::Up => Direction::Down,
        Direction::Right => Direction::Left,
        Direction::Down => Direction::Up,
        Direction::Left => Direction::Right,
    }
}

/// Whether a heading moves along the vertical axis.
pub open spec fn is_vertical(d: Direction) -> bool {
    d == Direction::Up || d == Direction::Down
}

/// One step up an axis of length `bound`: past the bound the value is
/// mirrored to `bound - v - 1` rather than reduced modulo the bound.
pub open spec fn wrap_inc(v: i32, bound: u16) -> i32 {
    if v >= bound {
        (bound - v - 1) as i32
    } else {
        (v + 1) as i32
    }
}

/// One step down an axis of length `bound`: at or below zero the value
/// becomes `bound + v`.
pub open spec fn wrap_dec(v: i32, bound: u16) -> i32 {
    if v <= 0 {
        (bound + v) as i32
    } else {
        (v - 1) as i32
    }
}

/// The cell one step from `(x, y)` in direction `d`.
pub open spec fn step_forward(x: i32, y: i32, d: Direction, cx: u16, cy: u16) -> (i32, i32) {
    match d {
        Direction::Up => (x, wrap_inc(y, cy)),
        Direction::Right => (wrap_inc(x, cx), y),
        Direction::Down => (x, wrap_dec(y, cy)),
        Direction::Left => (wrap_dec(x, cx), y),
    }
}

/// The cell one step from `(x, y)` against direction `d`.
pub open spec fn step_backward(x: i32, y: i32, d: Direction, cx: u16, cy: u16) -> (i32, i32) {
    match d {
        Direction::Up => (x, wrap_dec(y, cy)),
        Direction::Right => (wrap_dec(x, cx), y),
        Direction::Down => (x, wrap_inc(y, cy)),
        Direction::Left => (wrap_inc(x, cx), y),
    }
}

/// Moves `v` one step up an axis of length `bound`.
pub fn wrap_increment(v: i32, bound: u16) -> (r: i32)
    ensures
        r == wrap_inc(v, bound),
{
    if v >= bound as i32 {
        bound as i32 - v - 1
    } else {
        v + 1
    }
}

/// Moves `v` one step down an axis of length `bound`.
pub fn wrap_decrement(v: i32, bound: u16) -> (r: i32)
    ensures
        r == wrap_dec(v, bound),
{
    if v <= 0 {
        bound as i32 + v
    } else {
        v - 1
    }
}

/// Returns the heading that points the other way.
pub fn opposite_of(d: Direction) -> (r: Direction)
    ensures
        r == opposite(d),
{
    match d {
        Direction::Up => Direction::Down,
        Direction::Right => Direction::Left,
        Direction::Down => Direction::Up,
        Direction::Left => Direction::Right,
    }
}

/// Returns the cell one step from `(x, y)` in direction `d`.
pub fn forward(x: i32, y: i32, d: Direction, cx: u16, cy: u16) -> (r: (i32, i32))
    ensures
        r == step_forward(x, y, d, cx, cy),
{
    match d {
        Direction::Up => (x, wrap_increment(y, cy)),
        Direction::Right => (wrap_increment(x, cx), y),
        Direction::Down => (x, wrap_decrement(y, cy)),
        Direction::Left => (wrap_decrement(x, cx), y),
    }
}

/// Returns the cell one step from `(x, y)` against direction `d`.
pub fn backward(x: i32, y: i32, d: Direction, cx: u16, cy: u16) -> (r: (i32, i32))
    ensures
        r == step_backward(x, y, d, cx, cy),
{
    match d {
        Direction::Up => (x, wrap_decrement(y, cy)),
        Direction::Right => (wrap_decrement(x, cx), y),
        Direction::Down => (x, wrap_increment(y, cy)),
        Direction::Left => (wrap_increment(x, cx), y),
    }
}

/// On an axis of positive length `b`, a step down undoes a step up from every
/// value in `[0, b)`, and a step up undoes a step down from every value in
/// `(0, b)`. At zero the step down lands on `b` itself, from which a step up
/// mirrors to `-1`. The closed range `[-1, b]` is never left by either step.
pub proof fn lemma_wrap_round_trip(v: i32, b: u16)
    requires
        b > 0,
    ensures
        0 <= v < b ==> wrap_dec(wrap_inc(v, b), b) == v,
        0 < v < b ==> wrap_inc(wrap_dec(v, b), b) == v,
        wrap_dec(0, b) == b as i32,
        wrap_inc(b as i32, b) == -1,
        -1 <= v <= b ==> -1 <= wrap_inc(v, b) <= b && -1 <= wrap_dec(v, b) <= b,
{
}

} // verus!
