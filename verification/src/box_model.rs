use vstd::prelude::*;

use crate::edges::Edges;
use crate::geometry::Size;

verus! {

/// The content size of a box and the margin, border and padding around it.
#[derive(Debug, Clone, Copy, PartialEq, Eq, Structural)]
pub struct ResolvedBox {
    pub content_size: Size,
    pub margin: Edges<u16>,
    pub border: Edges<u16>,
    pub padding: Edges<u16>,
}

impl ResolvedBox {
    pub open spec fn spec_zero() -> ResolvedBox {
        ResolvedBox {
            content_size: Size::spec_zero(),
            margin: Edges::<u16>::spec_zero(),
            border: Edges::<u16>::spec_zero(),
            padding: Edges::<u16>::spec_zero(),
        }
    }

    /// A box that takes no room.
    pub fn zero() -> (b: Self)
        ensures
            b == Self::spec_zero(),
    {
        ResolvedBox {
            content_size: crate::geometry::Size::zero(),
            margin: Edges::<u16>::zero(),
            border: Edges::<u16>::zero(),
            padding: Edges::<u16>::zero(),
        }
    }

    /// A box with the given content size and nothing around it.
    pub fn from_size(size: Size) -> (b: Self)
        ensures
            b == (ResolvedBox { content_size: size, ..Self::spec_zero() }),
    {
        ResolvedBox {
            content_size: size,
            margin: Edges::<u16>::zero(),
            border: Edges::<u16>::zero(),
            padding: Edges::<u16>::zero(),
        }
    }

    pub open spec fn spec_border_padding_horizontal(self) -> u16 {
        self.border.spec_horizontal().saturating_add(self.padding.spec_horizontal())
    }

    pub open spec fn spec_border_padding_vertical(self) -> u16 {
        self.border.spec_vertical().saturating_add(self.padding.spec_vertical())
    }

    /// Content plus padding plus border, each axis saturating.
    pub open spec fn spec_border_box_size(self) -> Size {
        Size {
            width: self.content_size.width.saturating_add(self.spec_border_padding_horizontal()),
            height: self.content_size.height.saturating_add(self.spec_border_padding_vertical()),
        }
    }

    /// The border box plus the margin, each axis saturating.
    pub open spec fn spec_margin_box_size(self) -> Size {
        Size {
            width: self.spec_border_box_size().width.saturating_add(
                self.margin.spec_horizontal(),
            ),
            height: self.spec_border_box_size().height.saturating_add(self.margin.spec_vertical()),
        }
    }

    pub fn border_horizontal(&self) -> (r: u16)
        ensures
            r == self.border.spec_horizontal(),
    {
        self.border.left.saturating_add(self.border.right)
    }

    pub fn border_vertical(&self) -> (r: u16)
        ensures
            r == self.border.spec_vertical(),
    {
        self.border.top.saturating_add(self.border.bottom)
    }

    pub fn padding_horizontal(&self) -> (r: u16)
        ensures
            r == self.padding.spec_horizontal(),
    {
        self.padding.left.saturating_add(self.padding.right)
    }

    pub fn padding_vertical(&self) -> (r: u16)
        ensures
            r == self.padding.spec_vertical(),
    {
        self.padding.top.saturating_add(self.padding.bottom)
    }

    pub fn border_padding_horizontal(&self) -> (r: u16)
        ensures
            r == self.spec_border_padding_horizontal(),
    {
        self.border_horizontal().saturating_add(self.padding_horizontal())
    }

    pub fn border_padding_vertical(&self) -> (r: u16)
        ensures
            r == self.spec_border_padding_vertical(),
    {
        self.border_vertical().saturating_add(self.padding_vertical())
    }

    pub fn margin_horizontal(&self) -> (r: u16)
        ensures
            r == self.margin.spec_horizontal(),
    {
        self.margin.left.saturating_add(self.margin.right)
    }

    pub fn margin_vertical(&self) -> (r: u16)
        ensures
            r == self.margin.spec_vertical(),
    {
        self.margin.top.saturating_add(self.margin.bottom)
    }

    /// Border box size (content + padding + border).
    pub fn border_box_size(&self) -> (s: Size)
        ensures
            s == self.spec_border_box_size(),
    {
        Size::new(
            self.content_size.width.saturating_add(self.border_padding_horizontal()),
            self.content_size.height.saturating_add(self.border_padding_vertical()),
        )
    }

    /// Margin box size (border box + margin).
    pub fn margin_box_size(&self) -> (s: Size)
        ensures
            s == self.spec_margin_box_size(),
    {
        Size::new(
            self.content_size.width.saturating_add(self.border_padding_horizontal()).saturating_add(
                self.margin_horizontal(),
            ),
            self.content_size.height.saturating_add(
                self.border_padding_vertical(),
            ).saturating_add(self.margin_vertical()),
        )
    }
}

/// The margin box is never smaller than the border box, which is never
/// smaller than the content, on either axis.
pub proof fn lemma_box_sizes_nest(b: ResolvedBox)
    ensures
        b.content_size.width <= b.spec_border_box_size().width <= b.spec_margin_box_size().width,
        b.content_size.height <= b.spec_border_box_size().height
            <= b.spec_margin_box_size().height,
{
}

/// Width and height limits of a box, after percentages are resolved.
#[derive(Debug, Clone, Copy, PartialEq, Eq, Structural)]
pub struct SizeConstraints {
    pub width: Option<u16>,
    pub height: Option<u16>,
    pub min_width: u16,
    pub max_width: Option<u16>,
    pub min_height: u16,
    pub max_height: Option<u16>,
}

/// Raise `value` to `min`, then lower it to `max` when there is one
/// (so a maximum below the minimum wins).
pub open spec fn spec_clamp(value: u16, min: u16, max: Option<u16>) -> u16 {
    let raised = if value < min { min } else { value };
    match max {
        Some(m) => if m < raised { m } else { raised },
        None => raised,
    }
}

/// Clamps `value` into `[min, max]`, where a maximum below the minimum wins.
pub fn clamp(value: u16, min: u16, max: Option<u16>) -> (r: u16)
    ensures
        r == spec_clamp(value, min, max),
{
    let raised = if value < min { min } else { value };
    match max {
        Some(m) => if m < raised { m } else { raised },
        None => raised,
    }
}

/// A clamped value lies within the limits whenever the limits are consistent,
/// and clamping twice changes nothing.
pub proof fn lemma_clamp_bounds(value: u16, min: u16, max: Option<u16>)
    ensures
        max matches Some(m) ==> spec_clamp(value, min, max) <= m,
        (max matches Some(m) ==> min <= m) ==> min <= spec_clamp(value, min, max),
        (min <= value && (max matches Some(m) ==> value <= m)) ==> spec_clamp(value, min, max)
            == value,
        spec_clamp(spec_clamp(value, min, max), min, max) == spec_clamp(value, min, max),
{
}

impl Default for SizeConstraints {
    fn default() -> (c: Self)
        ensures
            c.width is None,
            c.height is None,
            c.min_width == 0,
            c.max_width is None,
            c.min_height == 0,
            c.max_height is None,
    {
        SizeConstraints {
            width: None,
            height: None,
            min_width: 0,
            max_width: None,
            min_height: 0,
            max_height: None,
        }
    }
}

impl SizeConstraints {
    pub fn clamp_width(&self, width: u16) -> (r: u16)
        ensures
            r == spec_clamp(width, self.min_width, self.max_width),
    {
        clamp(width, self.min_width, self.max_width)
    }

    pub fn clamp_height(&self, height: u16) -> (r: u16)
        ensures
            r == spec_clamp(height, self.min_height, self.max_height),
    {
        clamp(height, self.min_height, self.max_height)
    }
}

} // verus!
