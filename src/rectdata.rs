//! A rectangle held as a size and a position.
use vstd::prelude::*;
use crate::css::{placement, placement_css};
use crate::rect::{lerp_spec, Rect};

verus! {

#[derive(Clone, Copy, Debug, PartialEq, Eq)]
pub struct RectData {
    size: (i64, i64),
    position: (i64, i64),
}

impl View for RectData {
    type V = Rect;

    /// The same rectangle as a [`Rect`].
    closed spec fn view(&self) -> Rect {
        Rect { x: self.position.0, y: self.position.1, width: self.size.0, height: self.size.1 }
    }
}

impl RectData {
    pub fn new(x: i64, y: i64, width: i64, height: i64) -> (r: RectData)
        ensures
            r@ == (Rect { x, y, width, height }),
    {
        RectData { size: (width, height), position: (x, y) }
    }

    /// The rectangle a fraction `t / PROGRESS_ONE` of the way from `self` to `to`.
    pub fn interpolate_to(&self, t: i64, to: &RectData) -> (r: RectData)
        ensures
            r@ == lerp_spec(self@, to@, t as int),
    {
        let a = Rect::new(self.position.0, self.position.1, self.size.0, self.size.1);
        let b = Rect::new(to.position.0, to.position.1, to.size.0, to.size.1);
        let c = a.lerp(&b, t);
        RectData { size: (c.width, c.height), position: (c.x, c.y) }
    }

    pub fn to_css(&self) -> (r: String)
        ensures
            r@ == placement(self@.x as int, self@.y as int, self@.width as int, self@.height as int),
    {
        placement_css(self.position.0, self.position.1, self.size.0, self.size.1)
    }
}

} // verus!
