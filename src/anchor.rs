//! Anchoring a box of text at a point of the screen.

use vstd::prelude::*;

verus! {

/// Which point of a box is placed at the given position.
#[derive(Clone, Copy, Debug, PartialEq, Eq, Structural)]
pub enum Anchor {
    TopLeft,
    Top,
    TopRight,
    Left,
    Center,
    Right,
    BottomLeft,
    Bottom,
    BottomRight,
}

/// How far left and up a box of width `w` and height `h` is shifted from
/// the position so that its `anchor` point lands there.
pub fn anchor_offset(anchor: Anchor, w: u32, h: u32) -> (r: (u32, u32))
    ensures
        r.0 == match anchor {
            Anchor::TopLeft | Anchor::Left | Anchor::BottomLeft => 0,
            Anchor::Top | Anchor::Center | Anchor::Bottom => w / 2,
            Anchor::TopRight | Anchor::Right | Anchor::BottomRight => w,
        },
        r.1 == match anchor {
            Anchor::TopLeft | Anchor::Top | Anchor::TopRight => 0,
            Anchor::Left | Anchor::Center | Anchor::Right => h / 2,
            Anchor::BottomLeft | Anchor::Bottom | Anchor::BottomRight => h,
        },
{
    match anchor {
        Anchor::TopLeft => (0, 0),
        Anchor::Top => (w / 2, 0),
        Anchor::TopRight => (w, 0),
        Anchor::Left => (0, h / 2),
        Anchor::Center => (w / 2, h / 2),
        Anchor::Right => (w, h / 2),
        Anchor::BottomLeft => (0, h),
        Anchor::Bottom => (w / 2, h),
        Anchor::BottomRight => (w, h),
    }
}

} // verus!
