use vstd::prelude::*;

use crate::strings::str_equals;

verus! {

/// A property that a declaration sets.
#[derive(Debug, Clone, PartialEq, Eq, Hash)]
pub enum Property {
    Display,
    FlexDirection,
    FlexWrap,
    JustifyContent,
    AlignItems,
    AlignContent,
    FlexGrow,
    FlexShrink,
    FlexBasis,
    AlignSelf,
    RowGap,
    ColumnGap,
    Width,
    Height,
    MinWidth,
    MaxWidth,
    MinHeight,
    MaxHeight,
    MarginTop,
    MarginRight,
    MarginBottom,
    MarginLeft,
    PaddingTop,
    PaddingRight,
    PaddingBottom,
    PaddingLeft,
    BorderTopStyle,
    BorderRightStyle,
    BorderBottomStyle,
    BorderLeftStyle,
    BorderTopColor,
    BorderRightColor,
    BorderBottomColor,
    BorderLeftColor,
    Color,
    BackgroundColor,
    FontWeight,
    FontStyle,
    TextDecoration,
    TextAlign,
    VerticalAlign,
    WhiteSpace,
    OverflowWrap,
    OverflowX,
    OverflowY,
    Visibility,
    ZIndex,
    GridTemplateColumns,
    GridTemplateRows,
    GridColumn,
    GridRow,
    /// A custom property, by its name without `--`.
    Custom(String),
}

impl Property {
    /// Whether an element takes its parent's value of the property when it
    /// declares none: the text properties, visibility and custom
    /// properties.
    pub open spec fn spec_inherited(self) -> bool {
        match self {
            Property::Color
            | Property::FontWeight
            | Property::FontStyle
            | Property::TextDecoration
            | Property::TextAlign
            | Property::WhiteSpace
            | Property::OverflowWrap
            | Property::Visibility
            | Property::Custom(_) => true,
            _ => false,
        }
    }

    /// The property, other than a custom one, named `s`, if any.
    pub open spec fn named(s: Seq<char>) -> Option<Self> {
        if s == "display"@ {
            Some(Property::Display)
        } else if s == "flex-direction"@ {
            Some(Property::FlexDirection)
        } else if s == "flex-wrap"@ {
            Some(Property::FlexWrap)
        } else if s == "justify-content"@ {
            Some(Property::JustifyContent)
        } else if s == "align-items"@ {
            Some(Property::AlignItems)
        } else if s == "align-content"@ {
            Some(Property::AlignContent)
        } else if s == "flex-grow"@ {
            Some(Property::FlexGrow)
        } else if s == "flex-shrink"@ {
            Some(Property::FlexShrink)
        } else if s == "flex-basis"@ {
            Some(Property::FlexBasis)
        } else if s == "align-self"@ {
            Some(Property::AlignSelf)
        } else if s == "row-gap"@ {
            Some(Property::RowGap)
        } else if s == "column-gap"@ {
            Some(Property::ColumnGap)
        } else if s == "width"@ {
            Some(Property::Width)
        } else if s == "height"@ {
            Some(Property::Height)
        } else if s == "min-width"@ {
            Some(Property::MinWidth)
        } else if s == "max-width"@ {
            Some(Property::MaxWidth)
        } else if s == "min-height"@ {
            Some(Property::MinHeight)
        } else if s == "max-height"@ {
            Some(Property::MaxHeight)
        } else if s == "margin-top"@ {
            Some(Property::MarginTop)
        } else if s == "margin-right"@ {
            Some(Property::MarginRight)
        } else if s == "margin-bottom"@ {
            Some(Property::MarginBottom)
        } else if s == "margin-left"@ {
            Some(Property::MarginLeft)
        } else if s == "padding-top"@ {
            Some(Property::PaddingTop)
        } else if s == "padding-right"@ {
            Some(Property::PaddingRight)
        } else if s == "padding-bottom"@ {
            Some(Property::PaddingBottom)
        } else if s == "padding-left"@ {
            Some(Property::PaddingLeft)
        } else if s == "border-top-style"@ {
            Some(Property::BorderTopStyle)
        } else if s == "border-right-style"@ {
            Some(Property::BorderRightStyle)
        } else if s == "border-bottom-style"@ {
            Some(Property::BorderBottomStyle)
        } else if s == "border-left-style"@ {
            Some(Property::BorderLeftStyle)
        } else if s == "border-top-color"@ {
            Some(Property::BorderTopColor)
        } else if s == "border-right-color"@ {
            Some(Property::BorderRightColor)
        } else if s == "border-bottom-color"@ {
            Some(Property::BorderBottomColor)
        } else if s == "border-left-color"@ {
            Some(Property::BorderLeftColor)
        } else if s == "color"@ {
            Some(Property::Color)
        } else if s == "background-color"@ {
            Some(Property::BackgroundColor)
        } else if s == "font-weight"@ {
            Some(Property::FontWeight)
        } else if s == "font-style"@ {
            Some(Property::FontStyle)
        } else if s == "text-decoration"@ {
            Some(Property::TextDecoration)
        } else if s == "text-align"@ {
            Some(Property::TextAlign)
        } else if s == "vertical-align"@ {
            Some(Property::VerticalAlign)
        } else if s == "white-space"@ {
            Some(Property::WhiteSpace)
        } else if s == "overflow-wrap"@ {
            Some(Property::OverflowWrap)
        } else if s == "overflow-x"@ {
            Some(Property::OverflowX)
        } else if s == "overflow-y"@ {
            Some(Property::OverflowY)
        } else if s == "visibility"@ {
            Some(Property::Visibility)
        } else if s == "z-index"@ {
            Some(Property::ZIndex)
        } else if s == "grid-template-columns"@ {
            Some(Property::GridTemplateColumns)
        } else if s == "grid-template-rows"@ {
            Some(Property::GridTemplateRows)
        } else if s == "grid-column"@ {
            Some(Property::GridColumn)
        } else if s == "grid-row"@ {
            Some(Property::GridRow)
        } else {
            None
        }
    }

    pub fn is_custom(&self) -> (r: bool)
        ensures
            r == (*self is Custom),
    {
        match self {
            Property::Custom(_) => true,
            _ => false,
        }
    }

    /// Whether an element takes its parent's value of the property when it
    /// declares none.
    pub fn inherited(&self) -> (r: bool)
        ensures
            r == self.spec_inherited(),
    {
        match self {
            Property::Color
            | Property::FontWeight
            | Property::FontStyle
            | Property::TextDecoration
            | Property::TextAlign
            | Property::WhiteSpace
            | Property::OverflowWrap
            | Property::Visibility
            | Property::Custom(_) => true,
            _ => false,
        }
    }

    /// The property, other than a custom one, with the CSS name `name`.
    pub fn from_name(name: &str) -> (r: Option<Self>)
        ensures
            r == Self::named(name@),
    {
        if str_equals(name, "display") {
            return Some(Property::Display);
        }
        if str_equals(name, "flex-direction") {
            return Some(Property::FlexDirection);
        }
        if str_equals(name, "flex-wrap") {
            return Some(Property::FlexWrap);
        }
        if str_equals(name, "justify-content") {
            return Some(Property::JustifyContent);
        }
        if str_equals(name, "align-items") {
            return Some(Property::AlignItems);
        }
        if str_equals(name, "align-content") {
            return Some(Property::AlignContent);
        }
        if str_equals(name, "flex-grow") {
            return Some(Property::FlexGrow);
        }
        if str_equals(name, "flex-shrink") {
            return Some(Property::FlexShrink);
        }
        if str_equals(name, "flex-basis") {
            return Some(Property::FlexBasis);
        }
        if str_equals(name, "align-self") {
            return Some(Property::AlignSelf);
        }
        if str_equals(name, "row-gap") {
            return Some(Property::RowGap);
        }
        if str_equals(name, "column-gap") {
            return Some(Property::ColumnGap);
        }
        if str_equals(name, "width") {
            return Some(Property::Width);
        }
        if str_equals(name, "height") {
            return Some(Property::Height);
        }
        if str_equals(name, "min-width") {
            return Some(Property::MinWidth);
        }
        if str_equals(name, "max-width") {
            return Some(Property::MaxWidth);
        }
        if str_equals(name, "min-height") {
            return Some(Property::MinHeight);
        }
        if str_equals(name, "max-height") {
            return Some(Property::MaxHeight);
        }
        if str_equals(name, "margin-top") {
            return Some(Property::MarginTop);
        }
        if str_equals(name, "margin-right") {
            return Some(Property::MarginRight);
        }
        if str_equals(name, "margin-bottom") {
            return Some(Property::MarginBottom);
        }
        if str_equals(name, "margin-left") {
            return Some(Property::MarginLeft);
        }
        if str_equals(name, "padding-top") {
            return Some(Property::PaddingTop);
        }
        if str_equals(name, "padding-right") {
            return Some(Property::PaddingRight);
        }
        if str_equals(name, "padding-bottom") {
            return Some(Property::PaddingBottom);
        }
        if str_equals(name, "padding-left") {
            return Some(Property::PaddingLeft);
        }
        if str_equals(name, "border-top-style") {
            return Some(Property::BorderTopStyle);
        }
        if str_equals(name, "border-right-style") {
            return Some(Property::BorderRightStyle);
        }
        if str_equals(name, "border-bottom-style") {
            return Some(Property::BorderBottomStyle);
        }
        if str_equals(name, "border-left-style") {
            return Some(Property::BorderLeftStyle);
        }
        if str_equals(name, "border-top-color") {
            return Some(Property::BorderTopColor);
        }
        if str_equals(name, "border-right-color") {
            return Some(Property::BorderRightColor);
        }
        if str_equals(name, "border-bottom-color") {
            return Some(Property::BorderBottomColor);
        }
        if str_equals(name, "border-left-color") {
            return Some(Property::BorderLeftColor);
        }
        if str_equals(name, "color") {
            return Some(Property::Color);
        }
        if str_equals(name, "background-color") {
            return Some(Property::BackgroundColor);
        }
        if str_equals(name, "font-weight") {
            return Some(Property::FontWeight);
        }
        if str_equals(name, "font-style") {
            return Some(Property::FontStyle);
        }
        if str_equals(name, "text-decoration") {
            return Some(Property::TextDecoration);
        }
        if str_equals(name, "text-align") {
            return Some(Property::TextAlign);
        }
        if str_equals(name, "vertical-align") {
            return Some(Property::VerticalAlign);
        }
        if str_equals(name, "white-space") {
            return Some(Property::WhiteSpace);
        }
        if str_equals(name, "overflow-wrap") {
            return Some(Property::OverflowWrap);
        }
        if str_equals(name, "overflow-x") {
            return Some(Property::OverflowX);
        }
        if str_equals(name, "overflow-y") {
            return Some(Property::OverflowY);
        }
        if str_equals(name, "visibility") {
            return Some(Property::Visibility);
        }
        if str_equals(name, "z-index") {
            return Some(Property::ZIndex);
        }
        if str_equals(name, "grid-template-columns") {
            return Some(Property::GridTemplateColumns);
        }
        if str_equals(name, "grid-template-rows") {
            return Some(Property::GridTemplateRows);
        }
        if str_equals(name, "grid-column") {
            return Some(Property::GridColumn);
        }
        if str_equals(name, "grid-row") {
            return Some(Property::GridRow);
        }
        None
    }
}

} // verus!
