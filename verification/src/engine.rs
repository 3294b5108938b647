use vstd::prelude::*;

use crate::box_model::{spec_clamp, ResolvedBox, SizeConstraints};
use crate::edges::Edges;
use crate::geometry::{AvailableSpace, Constraints, Point, Size};

verus! {

/// The content size that a box ends with: its set width, clamped; or,
/// where the width is automatic, the laid-out content plus border and
/// padding, clamped, less border and padding again. Likewise the height.
pub open spec fn spec_final_content_size(
    limits: SizeConstraints,
    content: Size,
    border_padding_h: u16,
    border_padding_v: u16,
) -> Size {
    Size {
        width: match limits.width {
            Some(w) => spec_clamp(w, limits.min_width, limits.max_width),
            None => spec_clamp(
                content.width.saturating_add(border_padding_h),
                limits.min_width,
                limits.max_width,
            ).saturating_sub(border_padding_h),
        },
        height: match limits.height {
            Some(h) => spec_clamp(h, limits.min_height, limits.max_height),
            None => spec_clamp(
                content.height.saturating_add(border_padding_v),
                limits.min_height,
                limits.max_height,
            ).saturating_sub(border_padding_v),
        },
    }
}

/// The constraints on a box's content: the box's constraints less its
/// border and padding on each axis.
pub fn content_constraints(constraints: Constraints, border: &Edges<u16>, padding: &Edges<u16>) -> (r: (
    Constraints,
    u16,
    u16,
))
    ensures
        r.1 == border.spec_horizontal().saturating_add(padding.spec_horizontal()),
        r.2 == border.spec_vertical().saturating_add(padding.spec_vertical()),
        r.0 == (Constraints {
            width: constraints.width.shrunk(r.1),
            height: constraints.height.shrunk(r.2),
        }),
{
    let h = border.horizontal().saturating_add(padding.horizontal());
    let v = border.vertical().saturating_add(padding.vertical());
    (constraints.shrink(h, v), h, v)
}

/// The box of a laid-out element, from its edges and the size its content
/// took.
pub fn finish_node_box(
    limits: &SizeConstraints,
    margin: Edges<u16>,
    border: Edges<u16>,
    padding: Edges<u16>,
    content: Size,
) -> (b: ResolvedBox)
    ensures
        b.margin == margin,
        b.border == border,
        b.padding == padding,
        b.content_size == spec_final_content_size(
            *limits,
            content,
            border.spec_horizontal().saturating_add(padding.spec_horizontal()),
            border.spec_vertical().saturating_add(padding.spec_vertical()),
        ),
{
    let bp_h = border.horizontal().saturating_add(padding.horizontal());
    let bp_v = border.vertical().saturating_add(padding.vertical());
    let width = match limits.width {
        Some(w) => limits.clamp_width(w),
        None => limits.clamp_width(content.width.saturating_add(bp_h)).saturating_sub(bp_h),
    };
    let height = match limits.height {
        Some(h) => limits.clamp_height(h),
        None => limits.clamp_height(content.height.saturating_add(bp_v)).saturating_sub(bp_v),
    };
    ResolvedBox { margin, border, padding, content_size: Size::new(width, height) }
}

/// Block layout in progress: children stacked downwards, each as wide as
/// the container allows less its margins.
pub struct BlockCursor {
    pub available_width: u16,
    pub y: u16,
}

impl BlockCursor {
    /// Starts a block layout in the given constraints; an indefinite width
    /// counts as zero.
    pub fn new(constraints: Constraints) -> (c: Self)
        ensures
            c.available_width == (match constraints.width.definite_amount() {
                Some(w) => w,
                None => 0,
            }),
            c.y == 0,
    {
        let available_width = match constraints.width.as_definite() {
            Some(w) => w,
            None => 0,
        };
        BlockCursor { available_width, y: 0 }
    }

    /// Moves past the next child's top margin, and gives the constraints to
    /// lay the child out in.
    pub fn enter_child(&mut self, margin: &Edges<u16>, height: AvailableSpace) -> (c: Constraints)
        ensures
            final(self).available_width == old(self).available_width,
            final(self).y == old(self).y.saturating_add(margin.top),
            c == (Constraints {
                width: AvailableSpace::Definite(
                    old(self).available_width.saturating_sub(margin.left).saturating_sub(
                        margin.right,
                    ),
                ),
                height: height.shrunk(final(self).y),
            }),
    {
        self.y = self.y.saturating_add(margin.top);
        let width = self.available_width.saturating_sub(margin.left).saturating_sub(margin.right);
        Constraints::new(AvailableSpace::Definite(width), height.shrink(self.y))
    }

    /// Places the child just entered: at its left margin and the current
    /// height; then moves past its border box and bottom margin.
    pub fn leave_child(&mut self, margin: &Edges<u16>, child: &ResolvedBox) -> (p: Point)
        ensures
            p == (Point { x: margin.left, y: old(self).y }),
            final(self).available_width == old(self).available_width,
            final(self).y == old(self).y.saturating_add(
                child.spec_border_box_size().height,
            ).saturating_add(margin.bottom),
    {
        let p = Point::new(margin.left, self.y);
        self.y = self.y.saturating_add(child.border_box_size().height);
        self.y = self.y.saturating_add(margin.bottom);
        p
    }

    /// The size of the content: the available width, and the height
    /// reached.
    pub fn finish(&self) -> (s: Size)
        ensures
            s == (Size { width: self.available_width, height: self.y }),
    {
        Size::new(self.available_width, self.y)
    }
}

/// Inline layout in progress: children side by side, a new line when the
/// next does not fit.
pub struct InlineCursor {
    pub available_width: u16,
    pub x: u16,
    pub y: u16,
    pub line_height: u16,
    pub max_width: u16,
}

/// The width of a child with its margins.
pub open spec fn outer_width(margin: Edges<u16>, child: ResolvedBox) -> u16 {
    child.spec_border_box_size().width.saturating_add(margin.left).saturating_add(margin.right)
}

/// The height of a child with its margins.
pub open spec fn outer_height(margin: Edges<u16>, child: ResolvedBox) -> u16 {
    child.spec_border_box_size().height.saturating_add(margin.top).saturating_add(margin.bottom)
}

impl InlineCursor {
    /// Starts an inline layout; an indefinite width counts as unlimited.
    pub fn new(constraints: Constraints) -> (c: Self)
        ensures
            c.available_width == (match constraints.width.definite_amount() {
                Some(w) => w,
                None => u16::MAX,
            }),
            c.x == 0,
            c.y == 0,
            c.line_height == 0,
            c.max_width == 0,
    {
        let available_width = match constraints.width.as_definite() {
            Some(w) => w,
            None => u16::MAX,
        };
        InlineCursor { available_width, x: 0, y: 0, line_height: 0, max_width: 0 }
    }

    /// The constraints to lay the next child out in.
    pub fn child_constraints(&self, margin: &Edges<u16>, height: AvailableSpace) -> (c: Constraints)
        ensures
            c == (Constraints {
                width: AvailableSpace::Definite(
                    self.available_width.saturating_sub(margin.left).saturating_sub(margin.right),
                ),
                height: height,
            }),
    {
        Constraints::new(
            AvailableSpace::Definite(
                self.available_width.saturating_sub(margin.left).saturating_sub(margin.right),
            ),
            height,
        )
    }

    /// Places a laid-out child: on a new line if the current one has
    /// something and the child would overflow it; at its margins from the
    /// current position. Then moves past it.
    pub fn place(&mut self, margin: &Edges<u16>, child: &ResolvedBox) -> (p: Point)
        requires
            old(self).x > 0 ==> old(self).x + outer_width(*margin, *child) <= u16::MAX,
        ensures
            ({
                let w = outer_width(*margin, *child);
                let h = outer_height(*margin, *child);
                let wraps = old(self).x > 0 && old(self).x + w > old(self).available_width;
                let x0: u16 = if wraps { 0 } else { old(self).x };
                let y0: u16 = if wraps {
                    old(self).y.saturating_add(old(self).line_height)
                } else {
                    old(self).y
                };
                let lh0: u16 = if wraps { 0 } else { old(self).line_height };
                &&& p == (Point { x: x0.saturating_add(margin.left), y: y0.saturating_add(margin.top) })
                &&& final(self).available_width == old(self).available_width
                &&& final(self).x == x0.saturating_add(w)
                &&& final(self).y == y0
                &&& final(self).max_width == if old(self).max_width < final(self).x {
                    final(self).x
                } else {
                    old(self).max_width
                }
                &&& final(self).line_height == if lh0 < h {
                    h
                } else {
                    lh0
                }
            }),
    {
        let border_box = child.border_box_size();
        let child_width = border_box.width.saturating_add(margin.left).saturating_add(margin.right);
        let child_height = border_box.height.saturating_add(margin.top).saturating_add(
            margin.bottom,
        );
        if self.x > 0 && self.x + child_width > self.available_width {
            self.y = self.y.saturating_add(self.line_height);
            self.x = 0;
            self.line_height = 0;
        }
        let p = Point::new(self.x.saturating_add(margin.left), self.y.saturating_add(margin.top));
        self.x = self.x.saturating_add(child_width);
        if self.max_width < self.x {
            self.max_width = self.x;
        }
        if self.line_height < child_height {
            self.line_height = child_height;
        }
        p
    }

    /// The size of the content: the widest line, and the height with the
    /// last line.
    pub fn finish(&self) -> (s: Size)
        ensures
            s == (Size { width: self.max_width, height: self.y.saturating_add(self.line_height) }),
    {
        Size::new(self.max_width, self.y.saturating_add(self.line_height))
    }
}

/// A placed child keeps the box it was laid out with, its margins being the
/// ones the parent resolved.
pub fn with_margin(child: &ResolvedBox, margin: Edges<u16>) -> (b: ResolvedBox)
    ensures
        b == (ResolvedBox { margin, ..*child }),
{
    ResolvedBox {
        margin,
        border: child.border,
        padding: child.padding,
        content_size: child.content_size,
    }
}

} // verus!
