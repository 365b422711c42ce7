//! Rectangles of a terminal screen.

use vstd::prelude::*;

verus! {

/// A rectangle: its upper left corner and its extent.
#[derive(Clone, Copy, Debug, PartialEq, Eq, Structural)]
pub struct Area {
    pub x: u16,
    pub y: u16,
    pub width: u16,
    pub height: u16,
}

impl Area {
    /// Whether a position lies in the rectangle.
    pub open spec fn covers(self, x: int, y: int) -> bool {
        &&& self.x <= x < self.x + self.width
        &&& self.y <= y < self.y + self.height
    }

    /// Whether all of `other` lies in the rectangle.
    pub open spec fn encloses(self, other: Area) -> bool {
        forall|x: int, y: int| other.covers(x, y) ==> self.covers(x, y)
    }

    /// The rectangle without its `columns` leftmost columns.
    pub open spec fn inset_left(self, columns: u16) -> Area {
        Area {
            x: if self.x + columns > u16::MAX {
                u16::MAX
            } else {
                (self.x + columns) as u16
            },
            width: if self.width < columns {
                0
            } else {
                (self.width - columns) as u16
            },
            ..self
        }
    }

    /// The rectangle without its `columns` leftmost columns.
    pub fn inset(self, columns: u16) -> (r: Area)
        ensures
            r == self.inset_left(columns),
    {
        Area {
            x: self.x.saturating_add(columns),
            y: self.y,
            width: self.width.saturating_sub(columns),
            height: self.height,
        }
    }
}

/// What is left after taking columns away was there before.
pub proof fn law_inset_shrinks(area: Area, columns: u16)
    ensures
        area.encloses(area.inset_left(columns)),
{
}

/// Taking `columns` columns away moves the left side so far to the right, as far as a
/// `u16` counts the columns, and leaves the positions that are not to the left of it.
pub proof fn law_inset_takes_the_left(area: Area, columns: u16, x: int, y: int)
    ensures
        area.x + columns <= 65535 ==> area.inset_left(columns).x == area.x + columns,
        area.x + columns > 65535 ==> area.inset_left(columns).x == 65535,
        area.width >= columns ==> area.inset_left(columns).width == area.width - columns,
        area.width <= columns ==> area.inset_left(columns).width == 0,
        area.inset_left(columns).y == area.y,
        area.inset_left(columns).height == area.height,
        area.x + columns <= 65535 ==> (area.inset_left(columns).covers(x, y) <==> area.covers(x, y)
            && x >= area.x + columns),
{
}

/// A rectangle covers as many columns as it is wide, from its left side on, and as
/// many rows as it is high, from its upper side on; it encloses what it covers.
pub proof fn law_covers(area: Area, other: Area, x: int, y: int)
    ensures
        area.covers(x, y) <==> 0 <= x - area.x < area.width && 0 <= y - area.y < area.height,
        area.encloses(other) && other.covers(x, y) ==> area.covers(x, y),
        area.encloses(area),
{
}

} // verus!
