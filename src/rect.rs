//! Axis-aligned rectangles and their linear interpolation.
use vstd::prelude::*;
use crate::fixed::{floor_div, PROGRESS_ONE};

verus! {

/// A rectangle: the position of its top-left corner and its size.
#[derive(Clone, Copy, Debug, PartialEq, Eq, Structural)]
pub struct Rect {
    pub x: i64,
    pub y: i64,
    pub width: i64,
    pub height: i64,
}

/// `v` held to the range of `i64`.
pub open spec fn saturate(v: int) -> int {
    if v < i64::MIN {
        i64::MIN as int
    } else if v > i64::MAX {
        i64::MAX as int
    } else {
        v
    }
}

/// The value a fraction `t / PROGRESS_ONE` of the way from `a` to `b`, rounded down.
pub open spec fn lerp_value(a: int, b: int, t: int) -> int {
    a + ((b - a) * t) / (PROGRESS_ONE as int)
}

/// Each of the four components interpolated at `t`, as [`lerp_value`] gives it.
pub open spec fn lerp_spec(a: Rect, b: Rect, t: int) -> Rect {
    Rect {
        x: saturate(lerp_value(a.x as int, b.x as int, t)) as i64,
        y: saturate(lerp_value(a.y as int, b.y as int, t)) as i64,
        width: saturate(lerp_value(a.width as int, b.width as int, t)) as i64,
        height: saturate(lerp_value(a.height as int, b.height as int, t)) as i64,
    }
}

fn lerp_component(a: i64, b: i64, t: i64) -> (r: i64)
    ensures
        r == saturate(lerp_value(a as int, b as int, t as int)),
{
    let d: i128 = b as i128 - a as i128;
    let tt: i128 = t as i128;
    assert(-0x7fff_ffff_ffff_ffff_8000_0000_0000_0000 <= d * tt <= 0x7fff_ffff_ffff_ffff_8000_0000_0000_0000)
        by (nonlinear_arith)
        requires
            -0xffff_ffff_ffff_ffff <= d <= 0xffff_ffff_ffff_ffff,
            -0x8000_0000_0000_0000 <= tt <= 0x7fff_ffff_ffff_ffff,
    ;
    let q: i128 = floor_div(d * tt, PROGRESS_ONE as i128);
    assert(-0x7fff_ffff_ffff_ffff_8000_0000_0000_0000 / 10_000 <= q
        <= 0x7fff_ffff_ffff_ffff_8000_0000_0000_0000int / 10_000) by {
        vstd::arithmetic::div_mod::lemma_div_is_ordered(d * tt, 0x7fff_ffff_ffff_ffff_8000_0000_0000_0000, 10_000);
        vstd::arithmetic::div_mod::lemma_div_is_ordered(-0x7fff_ffff_ffff_ffff_8000_0000_0000_0000, d * tt, 10_000);
    }
    let v: i128 = a as i128 + q;
    if v < i64::MIN as i128 {
        i64::MIN
    } else if v > i64::MAX as i128 {
        i64::MAX
    } else {
        v as i64
    }
}

impl Rect {
    pub fn new(x: i64, y: i64, width: i64, height: i64) -> (r: Rect)
        ensures
            r == (Rect { x, y, width, height }),
    {
        Rect { x, y, width, height }
    }

    /// The rectangle a fraction `t / PROGRESS_ONE` of the way from `self` to `to`.
    /// `t` may lie outside `[0, PROGRESS_ONE]`, for easing curves that overshoot.
    pub fn lerp(&self, to: &Rect, t: i64) -> (r: Rect)
        ensures
            r == lerp_spec(*self, *to, t as int),
    {
        Rect {
            x: lerp_component(self.x, to.x, t),
            y: lerp_component(self.y, to.y, t),
            width: lerp_component(self.width, to.width, t),
            height: lerp_component(self.height, to.height, t),
        }
    }
}

/// Interpolating at a progress of zero gives the start, and at a progress of one
/// gives the end, exactly.
pub proof fn lemma_lerp_endpoints(a: Rect, b: Rect)
    ensures
        lerp_spec(a, b, 0) == a,
        lerp_spec(a, b, PROGRESS_ONE as int) == b,
{
    assert forall|u: int, v: int| #![trigger lerp_value(u, v, PROGRESS_ONE as int)]
        lerp_value(u, v, 0) == u && lerp_value(u, v, PROGRESS_ONE as int) == v by {
        vstd::arithmetic::div_mod::lemma_div_multiples_vanish(v - u, PROGRESS_ONE as int);
        assert((v - u) * (PROGRESS_ONE as int) == (PROGRESS_ONE as int) * (v - u)) by (nonlinear_arith);
    }
    assert(lerp_value(a.x as int, b.x as int, 0) == a.x);
    assert(lerp_value(a.y as int, b.y as int, 0) == a.y);
    assert(lerp_value(a.width as int, b.width as int, 0) == a.width);
    assert(lerp_value(a.height as int, b.height as int, 0) == a.height);
    assert(lerp_value(a.x as int, b.x as int, PROGRESS_ONE as int) == b.x);
    assert(lerp_value(a.y as int, b.y as int, PROGRESS_ONE as int) == b.y);
    assert(lerp_value(a.width as int, b.width as int, PROGRESS_ONE as int) == b.width);
    assert(lerp_value(a.height as int, b.height as int, PROGRESS_ONE as int) == b.height);
}

} // verus!
