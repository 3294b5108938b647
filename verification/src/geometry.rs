use vstd::prelude::*;

use crate::box_model::ResolvedBox;

verus! {

/// A position in terminal cells.
#[derive(Debug, Clone, Copy, PartialEq, Eq, Structural)]
pub struct Point {
    pub x: u16,
    pub y: u16,
}

impl Point {
    /// The origin.
    pub fn zero() -> (p: Self)
        ensures
            p.x == 0,
            p.y == 0,
    {
        Self { x: 0, y: 0 }
    }

    pub fn new(x: u16, y: u16) -> (p: Self)
        ensures
            p.x == x,
            p.y == y,
    {
        Self { x, y }
    }
}

impl Default for Point {
    fn default() -> (p: Self)
        ensures
            p.x == 0,
            p.y == 0,
    {
        Self::zero()
    }
}

/// A width and a height in terminal cells.
#[derive(Debug, Clone, Copy, PartialEq, Eq, Structural)]
pub struct Size {
    pub width: u16,
    pub height: u16,
}

impl Size {
    /// The empty size.
    pub fn zero() -> (s: Self)
        ensures
            s.width == 0,
            s.height == 0,
    {
        Self { width: 0, height: 0 }
    }

    pub fn new(width: u16, height: u16) -> (s: Self)
        ensures
            s.width == width,
            s.height == height,
    {
        Self { width, height }
    }
}

impl Default for Size {
    fn default() -> (s: Self)
        ensures
            s.width == 0,
            s.height == 0,
    {
        Self::zero()
    }
}

/// The space a box may use along one axis.
#[derive(Debug, Clone, Copy, PartialEq, Eq, Structural)]
pub enum AvailableSpace {
    Definite(u16),
    MinContent,
    MaxContent,
}

impl Default for AvailableSpace {
    fn default() -> (s: Self)
        ensures
            s == AvailableSpace::MaxContent,
    {
        AvailableSpace::MaxContent
    }
}

impl AvailableSpace {
    /// The amount of space, for a definite amount.
    pub open spec fn definite_amount(self) -> Option<u16> {
        match self {
            AvailableSpace::Definite(v) => Some(v),
            _ => None,
        }
    }

    /// What `shrink` gives: a definite amount loses `amount`, down to zero.
    pub open spec fn shrunk(self, amount: u16) -> AvailableSpace {
        match self {
            AvailableSpace::Definite(v) => AvailableSpace::Definite(v.saturating_sub(amount)),
            other => other,
        }
    }

    pub fn as_definite(self) -> (r: Option<u16>)
        ensures
            r == self.definite_amount(),
    {
        match self {
            AvailableSpace::Definite(v) => Some(v),
            AvailableSpace::MinContent => None,
            AvailableSpace::MaxContent => None,
        }
    }

    pub fn is_definite(self) -> (r: bool)
        ensures
            r == (self is Definite),
    {
        match self {
            AvailableSpace::Definite(_) => true,
            _ => false,
        }
    }

    pub fn shrink(&self, amount: u16) -> (r: Self)
        ensures
            r == self.shrunk(amount),
    {
        match self {
            AvailableSpace::Definite(v) => AvailableSpace::Definite(v.saturating_sub(amount)),
            AvailableSpace::MinContent => AvailableSpace::MinContent,
            AvailableSpace::MaxContent => AvailableSpace::MaxContent,
        }
    }
}

/// The space offered to a box along both axes.
#[derive(Debug, Clone, Copy, PartialEq, Eq, Structural)]
pub struct Constraints {
    pub width: AvailableSpace,
    pub height: AvailableSpace,
}

impl Default for Constraints {
    fn default() -> (c: Self)
        ensures
            c.width == AvailableSpace::MaxContent,
            c.height == AvailableSpace::MaxContent,
    {
        Self { width: AvailableSpace::MaxContent, height: AvailableSpace::MaxContent }
    }
}

impl Constraints {
    pub fn new(width: AvailableSpace, height: AvailableSpace) -> (c: Self)
        ensures
            c.width == width,
            c.height == height,
    {
        Self { width, height }
    }

    pub fn definite(width: u16, height: u16) -> (c: Self)
        ensures
            c.width == AvailableSpace::Definite(width),
            c.height == AvailableSpace::Definite(height),
    {
        Self { width: AvailableSpace::Definite(width), height: AvailableSpace::Definite(height) }
    }

    pub fn from_size(size: Size) -> (c: Self)
        ensures
            c.width == AvailableSpace::Definite(size.width),
            c.height == AvailableSpace::Definite(size.height),
    {
        Self::definite(size.width, size.height)
    }

    pub fn shrink(&self, width: u16, height: u16) -> (c: Self)
        ensures
            c.width == self.width.shrunk(width),
            c.height == self.height.shrunk(height),
    {
        Self { width: self.width.shrink(width), height: self.height.shrink(height) }
    }
}

/// Where a box was placed and how it was sized.
#[derive(Debug, Clone, Copy, PartialEq, Eq, Structural)]
pub struct Layout {
    pub order: u32,
    pub location: Point,
    pub resolved_box: ResolvedBox,
    pub scrollbar_size: Size,
}

impl Layout {
    /// The layout of a box that takes no room.
    pub fn zero() -> (l: Self)
        ensures
            l.order == 0,
            l.location == Point::spec_zero(),
            l.resolved_box == ResolvedBox::spec_zero(),
            l.scrollbar_size == Size::spec_zero(),
    {
        Self {
            order: 0,
            location: Point::zero(),
            resolved_box: ResolvedBox::zero(),
            scrollbar_size: Size::zero(),
        }
    }
}

impl Point {
    pub open spec fn spec_zero() -> Point {
        Point { x: 0, y: 0 }
    }
}

impl Size {
    pub open spec fn spec_zero() -> Size {
        Size { width: 0, height: 0 }
    }
}

} // verus!
