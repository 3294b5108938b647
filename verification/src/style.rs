use vstd::prelude::*;

use crate::color::Color;
use crate::edges::Edges;
use crate::keywords::{
    AlignContent, AlignItems, AlignSelf, BorderStyle, Display, FlexDirection, FlexWrap, FontStyle,
    FontWeight, JustifyContent, Overflow, OverflowWrap, TextAlign, TextDecoration, VerticalAlign,
    Visibility, WhiteSpace,
};
use crate::property::Property;

verus! {

/// A size that may be automatic or without a limit, with lengths of type
/// `L`.
#[derive(Debug, PartialEq)]
pub enum Dimension<L> {
    Auto,
    Length(L),
    NoDimension,
}

/// Whether `b` is a clone of `a`: the same variant, the length cloned.
pub open spec fn dimension_cloned<L: Clone>(a: Dimension<L>, b: Dimension<L>) -> bool {
    match (a, b) {
        (Dimension::Auto, Dimension::Auto) => true,
        (Dimension::NoDimension, Dimension::NoDimension) => true,
        (Dimension::Length(x), Dimension::Length(y)) => cloned(x, y),
        _ => false,
    }
}

impl<L: Clone> Clone for Dimension<L> {
    fn clone(&self) -> (r: Self)
        ensures
            dimension_cloned(*self, r),
    {
        match self {
            Dimension::Auto => Dimension::Auto,
            Dimension::Length(l) => Dimension::Length(l.clone()),
            Dimension::NoDimension => Dimension::NoDimension,
        }
    }
}

/// A declared value of a property, with lengths of type `L` and numbers of
/// type `N`.
#[derive(Debug, Clone, PartialEq)]
pub enum Value<L, N> {
    Display(Display),
    FlexDirection(FlexDirection),
    FlexWrap(FlexWrap),
    JustifyContent(JustifyContent),
    AlignItems(AlignItems),
    AlignSelf(AlignSelf),
    AlignContent(AlignContent),
    Number(N),
    Integer(i16),
    Length(L),
    Dimension(Dimension<L>),
    BorderStyle(BorderStyle),
    Color(Color),
    FontWeight(FontWeight),
    FontStyle(FontStyle),
    TextDecoration(TextDecoration),
    TextAlign(TextAlign),
    VerticalAlign(VerticalAlign),
    WhiteSpace(WhiteSpace),
    OverflowWrap(OverflowWrap),
    Overflow(Overflow),
    Visibility(Visibility),
}

/// The style of an element once the cascade has run, with lengths of type
/// `L` and the flex factors of type `N`.
#[derive(Debug, Clone, PartialEq)]
pub struct ComputedStyle<L, N> {
    pub display: Display,
    pub flex_direction: FlexDirection,
    pub flex_wrap: FlexWrap,
    pub justify_content: JustifyContent,
    pub align_items: AlignItems,
    pub align_content: AlignContent,
    pub flex_grow: N,
    pub flex_shrink: N,
    pub flex_basis: Dimension<L>,
    pub align_self: AlignSelf,
    pub row_gap: L,
    pub column_gap: L,
    pub width: Dimension<L>,
    pub height: Dimension<L>,
    pub min_width: Dimension<L>,
    pub max_width: Dimension<L>,
    pub min_height: Dimension<L>,
    pub max_height: Dimension<L>,
    pub margin: Edges<L>,
    pub padding: Edges<L>,
    pub border_style: Edges<BorderStyle>,
    pub border_color: Edges<Color>,
    pub color: Color,
    pub background_color: Color,
    pub font_weight: FontWeight,
    pub font_style: FontStyle,
    pub text_decoration: TextDecoration,
    pub text_align: TextAlign,
    pub vertical_align: VerticalAlign,
    pub white_space: WhiteSpace,
    pub overflow_wrap: OverflowWrap,
    pub overflow_x: Overflow,
    pub overflow_y: Overflow,
    pub visibility: Visibility,
    pub z_index: i16,
}

/// Whether `new` is `old` with the value of `property` taken from `from`
/// (copied, or cloned where it holds a length); a grid or custom property
/// changes nothing.
pub open spec fn takes_property<L: Clone, N: Copy>(
    old: ComputedStyle<L, N>,
    new: ComputedStyle<L, N>,
    property: Property,
    from: ComputedStyle<L, N>,
) -> bool {
    match property {
        Property::Display => new == ComputedStyle { display: from.display, ..old },
        Property::FlexDirection => new == ComputedStyle { flex_direction: from.flex_direction, ..old },
        Property::FlexWrap => new == ComputedStyle { flex_wrap: from.flex_wrap, ..old },
        Property::JustifyContent => new == ComputedStyle { justify_content: from.justify_content, ..old },
        Property::AlignItems => new == ComputedStyle { align_items: from.align_items, ..old },
        Property::AlignContent => new == ComputedStyle { align_content: from.align_content, ..old },
        Property::FlexGrow => new == ComputedStyle { flex_grow: from.flex_grow, ..old },
        Property::FlexShrink => new == ComputedStyle { flex_shrink: from.flex_shrink, ..old },
        Property::FlexBasis => new == ComputedStyle { flex_basis: new.flex_basis, ..old } && dimension_cloned(from.flex_basis, new.flex_basis),
        Property::AlignSelf => new == ComputedStyle { align_self: from.align_self, ..old },
        Property::RowGap => new == ComputedStyle { row_gap: new.row_gap, ..old } && cloned(from.row_gap, new.row_gap),
        Property::ColumnGap => new == ComputedStyle { column_gap: new.column_gap, ..old } && cloned(from.column_gap, new.column_gap),
        Property::Width => new == ComputedStyle { width: new.width, ..old } && dimension_cloned(from.width, new.width),
        Property::Height => new == ComputedStyle { height: new.height, ..old } && dimension_cloned(from.height, new.height),
        Property::MinWidth => new == ComputedStyle { min_width: new.min_width, ..old } && dimension_cloned(from.min_width, new.min_width),
        Property::MaxWidth => new == ComputedStyle { max_width: new.max_width, ..old } && dimension_cloned(from.max_width, new.max_width),
        Property::MinHeight => new == ComputedStyle { min_height: new.min_height, ..old } && dimension_cloned(from.min_height, new.min_height),
        Property::MaxHeight => new == ComputedStyle { max_height: new.max_height, ..old } && dimension_cloned(from.max_height, new.max_height),
        Property::MarginTop => new == ComputedStyle { margin: Edges { top: new.margin.top, ..old.margin }, ..old } && cloned(from.margin.top, new.margin.top),
        Property::MarginRight => new == ComputedStyle { margin: Edges { right: new.margin.right, ..old.margin }, ..old } && cloned(from.margin.right, new.margin.right),
        Property::MarginBottom => new == ComputedStyle { margin: Edges { bottom: new.margin.bottom, ..old.margin }, ..old } && cloned(from.margin.bottom, new.margin.bottom),
        Property::MarginLeft => new == ComputedStyle { margin: Edges { left: new.margin.left, ..old.margin }, ..old } && cloned(from.margin.left, new.margin.left),
        Property::PaddingTop => new == ComputedStyle { padding: Edges { top: new.padding.top, ..old.padding }, ..old } && cloned(from.padding.top, new.padding.top),
        Property::PaddingRight => new == ComputedStyle { padding: Edges { right: new.padding.right, ..old.padding }, ..old } && cloned(from.padding.right, new.padding.right),
        Property::PaddingBottom => new == ComputedStyle { padding: Edges { bottom: new.padding.bottom, ..old.padding }, ..old } && cloned(from.padding.bottom, new.padding.bottom),
        Property::PaddingLeft => new == ComputedStyle { padding: Edges { left: new.padding.left, ..old.padding }, ..old } && cloned(from.padding.left, new.padding.left),
        Property::BorderTopStyle => new == ComputedStyle { border_style: Edges { top: from.border_style.top, ..old.border_style }, ..old },
        Property::BorderRightStyle => new == ComputedStyle { border_style: Edges { right: from.border_style.right, ..old.border_style }, ..old },
        Property::BorderBottomStyle => new == ComputedStyle { border_style: Edges { bottom: from.border_style.bottom, ..old.border_style }, ..old },
        Property::BorderLeftStyle => new == ComputedStyle { border_style: Edges { left: from.border_style.left, ..old.border_style }, ..old },
        Property::BorderTopColor => new == ComputedStyle { border_color: Edges { top: from.border_color.top, ..old.border_color }, ..old },
        Property::BorderRightColor => new == ComputedStyle { border_color: Edges { right: from.border_color.right, ..old.border_color }, ..old },
        Property::BorderBottomColor => new == ComputedStyle { border_color: Edges { bottom: from.border_color.bottom, ..old.border_color }, ..old },
        Property::BorderLeftColor => new == ComputedStyle { border_color: Edges { left: from.border_color.left, ..old.border_color }, ..old },
        Property::Color => new == ComputedStyle { color: from.color, ..old },
        Property::BackgroundColor => new == ComputedStyle { background_color: from.background_color, ..old },
        Property::FontWeight => new == ComputedStyle { font_weight: from.font_weight, ..old },
        Property::FontStyle => new == ComputedStyle { font_style: from.font_style, ..old },
        Property::TextDecoration => new == ComputedStyle { text_decoration: from.text_decoration, ..old },
        Property::TextAlign => new == ComputedStyle { text_align: from.text_align, ..old },
        Property::VerticalAlign => new == ComputedStyle { vertical_align: from.vertical_align, ..old },
        Property::WhiteSpace => new == ComputedStyle { white_space: from.white_space, ..old },
        Property::OverflowWrap => new == ComputedStyle { overflow_wrap: from.overflow_wrap, ..old },
        Property::OverflowX => new == ComputedStyle { overflow_x: from.overflow_x, ..old },
        Property::OverflowY => new == ComputedStyle { overflow_y: from.overflow_y, ..old },
        Property::Visibility => new == ComputedStyle { visibility: from.visibility, ..old },
        Property::ZIndex => new == ComputedStyle { z_index: from.z_index, ..old },
        _ => new == old,
    }
}

/// Whether `value` is of the kind that `property` takes; a grid property
/// takes any value, a custom property none.
pub open spec fn spec_value_fits<L, N>(property: Property, value: Value<L, N>) -> bool {
    match property {
        Property::Display => value is Display,
        Property::FlexDirection => value is FlexDirection,
        Property::FlexWrap => value is FlexWrap,
        Property::JustifyContent => value is JustifyContent,
        Property::AlignItems => value is AlignItems,
        Property::AlignContent => value is AlignContent,
        Property::FlexGrow => value is Number,
        Property::FlexShrink => value is Number,
        Property::FlexBasis => value is Dimension,
        Property::AlignSelf => value is AlignSelf,
        Property::RowGap => value is Length,
        Property::ColumnGap => value is Length,
        Property::Width => value is Dimension,
        Property::Height => value is Dimension,
        Property::MinWidth => value is Dimension,
        Property::MaxWidth => value is Dimension,
        Property::MinHeight => value is Dimension,
        Property::MaxHeight => value is Dimension,
        Property::MarginTop => value is Length,
        Property::MarginRight => value is Length,
        Property::MarginBottom => value is Length,
        Property::MarginLeft => value is Length,
        Property::PaddingTop => value is Length,
        Property::PaddingRight => value is Length,
        Property::PaddingBottom => value is Length,
        Property::PaddingLeft => value is Length,
        Property::BorderTopStyle => value is BorderStyle,
        Property::BorderRightStyle => value is BorderStyle,
        Property::BorderBottomStyle => value is BorderStyle,
        Property::BorderLeftStyle => value is BorderStyle,
        Property::BorderTopColor => value is Color,
        Property::BorderRightColor => value is Color,
        Property::BorderBottomColor => value is Color,
        Property::BorderLeftColor => value is Color,
        Property::Color => value is Color,
        Property::BackgroundColor => value is Color,
        Property::FontWeight => value is FontWeight,
        Property::FontStyle => value is FontStyle,
        Property::TextDecoration => value is TextDecoration,
        Property::TextAlign => value is TextAlign,
        Property::VerticalAlign => value is VerticalAlign,
        Property::WhiteSpace => value is WhiteSpace,
        Property::OverflowWrap => value is OverflowWrap,
        Property::OverflowX => value is Overflow,
        Property::OverflowY => value is Overflow,
        Property::Visibility => value is Visibility,
        Property::ZIndex => value is Integer,
        Property::Custom(_) => false,
        _ => true,
    }
}

/// Whether `new` is `old` with `value` written for `property` (copied, or
/// cloned where it holds a length); a grid property changes nothing.
pub open spec fn value_applied<L: Clone, N: Copy>(
    old: ComputedStyle<L, N>,
    new: ComputedStyle<L, N>,
    property: Property,
    value: Value<L, N>,
) -> bool {
    match (property, value) {
        (Property::Display, Value::Display(v)) => new == ComputedStyle { display: v, ..old },
        (Property::FlexDirection, Value::FlexDirection(v)) => new == ComputedStyle { flex_direction: v, ..old },
        (Property::FlexWrap, Value::FlexWrap(v)) => new == ComputedStyle { flex_wrap: v, ..old },
        (Property::JustifyContent, Value::JustifyContent(v)) => new == ComputedStyle { justify_content: v, ..old },
        (Property::AlignItems, Value::AlignItems(v)) => new == ComputedStyle { align_items: v, ..old },
        (Property::AlignContent, Value::AlignContent(v)) => new == ComputedStyle { align_content: v, ..old },
        (Property::FlexGrow, Value::Number(v)) => new == ComputedStyle { flex_grow: v, ..old },
        (Property::FlexShrink, Value::Number(v)) => new == ComputedStyle { flex_shrink: v, ..old },
        (Property::FlexBasis, Value::Dimension(v)) => new == ComputedStyle { flex_basis: new.flex_basis, ..old } && dimension_cloned(v, new.flex_basis),
        (Property::AlignSelf, Value::AlignSelf(v)) => new == ComputedStyle { align_self: v, ..old },
        (Property::RowGap, Value::Length(v)) => new == ComputedStyle { row_gap: new.row_gap, ..old } && cloned(v, new.row_gap),
        (Property::ColumnGap, Value::Length(v)) => new == ComputedStyle { column_gap: new.column_gap, ..old } && cloned(v, new.column_gap),
        (Property::Width, Value::Dimension(v)) => new == ComputedStyle { width: new.width, ..old } && dimension_cloned(v, new.width),
        (Property::Height, Value::Dimension(v)) => new == ComputedStyle { height: new.height, ..old } && dimension_cloned(v, new.height),
        (Property::MinWidth, Value::Dimension(v)) => new == ComputedStyle { min_width: new.min_width, ..old } && dimension_cloned(v, new.min_width),
        (Property::MaxWidth, Value::Dimension(v)) => new == ComputedStyle { max_width: new.max_width, ..old } && dimension_cloned(v, new.max_width),
        (Property::MinHeight, Value::Dimension(v)) => new == ComputedStyle { min_height: new.min_height, ..old } && dimension_cloned(v, new.min_height),
        (Property::MaxHeight, Value::Dimension(v)) => new == ComputedStyle { max_height: new.max_height, ..old } && dimension_cloned(v, new.max_height),
        (Property::MarginTop, Value::Length(v)) => new == ComputedStyle { margin: Edges { top: new.margin.top, ..old.margin }, ..old } && cloned(v, new.margin.top),
        (Property::MarginRight, Value::Length(v)) => new == ComputedStyle { margin: Edges { right: new.margin.right, ..old.margin }, ..old } && cloned(v, new.margin.right),
        (Property::MarginBottom, Value::Length(v)) => new == ComputedStyle { margin: Edges { bottom: new.margin.bottom, ..old.margin }, ..old } && cloned(v, new.margin.bottom),
        (Property::MarginLeft, Value::Length(v)) => new == ComputedStyle { margin: Edges { left: new.margin.left, ..old.margin }, ..old } && cloned(v, new.margin.left),
        (Property::PaddingTop, Value::Length(v)) => new == ComputedStyle { padding: Edges { top: new.padding.top, ..old.padding }, ..old } && cloned(v, new.padding.top),
        (Property::PaddingRight, Value::Length(v)) => new == ComputedStyle { padding: Edges { right: new.padding.right, ..old.padding }, ..old } && cloned(v, new.padding.right),
        (Property::PaddingBottom, Value::Length(v)) => new == ComputedStyle { padding: Edges { bottom: new.padding.bottom, ..old.padding }, ..old } && cloned(v, new.padding.bottom),
        (Property::PaddingLeft, Value::Length(v)) => new == ComputedStyle { padding: Edges { left: new.padding.left, ..old.padding }, ..old } && cloned(v, new.padding.left),
        (Property::BorderTopStyle, Value::BorderStyle(v)) => new == ComputedStyle { border_style: Edges { top: v, ..old.border_style }, ..old },
        (Property::BorderRightStyle, Value::BorderStyle(v)) => new == ComputedStyle { border_style: Edges { right: v, ..old.border_style }, ..old },
        (Property::BorderBottomStyle, Value::BorderStyle(v)) => new == ComputedStyle { border_style: Edges { bottom: v, ..old.border_style }, ..old },
        (Property::BorderLeftStyle, Value::BorderStyle(v)) => new == ComputedStyle { border_style: Edges { left: v, ..old.border_style }, ..old },
        (Property::BorderTopColor, Value::Color(v)) => new == ComputedStyle { border_color: Edges { top: v, ..old.border_color }, ..old },
        (Property::BorderRightColor, Value::Color(v)) => new == ComputedStyle { border_color: Edges { right: v, ..old.border_color }, ..old },
        (Property::BorderBottomColor, Value::Color(v)) => new == ComputedStyle { border_color: Edges { bottom: v, ..old.border_color }, ..old },
        (Property::BorderLeftColor, Value::Color(v)) => new == ComputedStyle { border_color: Edges { left: v, ..old.border_color }, ..old },
        (Property::Color, Value::Color(v)) => new == ComputedStyle { color: v, ..old },
        (Property::BackgroundColor, Value::Color(v)) => new == ComputedStyle { background_color: v, ..old },
        (Property::FontWeight, Value::FontWeight(v)) => new == ComputedStyle { font_weight: v, ..old },
        (Property::FontStyle, Value::FontStyle(v)) => new == ComputedStyle { font_style: v, ..old },
        (Property::TextDecoration, Value::TextDecoration(v)) => new == ComputedStyle { text_decoration: v, ..old },
        (Property::TextAlign, Value::TextAlign(v)) => new == ComputedStyle { text_align: v, ..old },
        (Property::VerticalAlign, Value::VerticalAlign(v)) => new == ComputedStyle { vertical_align: v, ..old },
        (Property::WhiteSpace, Value::WhiteSpace(v)) => new == ComputedStyle { white_space: v, ..old },
        (Property::OverflowWrap, Value::OverflowWrap(v)) => new == ComputedStyle { overflow_wrap: v, ..old },
        (Property::OverflowX, Value::Overflow(v)) => new == ComputedStyle { overflow_x: v, ..old },
        (Property::OverflowY, Value::Overflow(v)) => new == ComputedStyle { overflow_y: v, ..old },
        (Property::Visibility, Value::Visibility(v)) => new == ComputedStyle { visibility: v, ..old },
        (Property::ZIndex, Value::Integer(v)) => new == ComputedStyle { z_index: v, ..old },
        _ => new == old,
    }
}

/// Gives `style` the parent's value of `property`.
pub fn apply_inherited<L: Clone, N: Copy>(
    style: &mut ComputedStyle<L, N>,
    property: &Property,
    parent: &ComputedStyle<L, N>,
)
    ensures
        takes_property(*old(style), *final(style), *property, *parent),
{
    match property {
        Property::Display => style.display = parent.display,
        Property::FlexDirection => style.flex_direction = parent.flex_direction,
        Property::FlexWrap => style.flex_wrap = parent.flex_wrap,
        Property::JustifyContent => style.justify_content = parent.justify_content,
        Property::AlignItems => style.align_items = parent.align_items,
        Property::AlignContent => style.align_content = parent.align_content,
        Property::FlexGrow => style.flex_grow = parent.flex_grow,
        Property::FlexShrink => style.flex_shrink = parent.flex_shrink,
        Property::FlexBasis => style.flex_basis = parent.flex_basis.clone(),
        Property::AlignSelf => style.align_self = parent.align_self,
        Property::RowGap => style.row_gap = parent.row_gap.clone(),
        Property::ColumnGap => style.column_gap = parent.column_gap.clone(),
        Property::Width => style.width = parent.width.clone(),
        Property::Height => style.height = parent.height.clone(),
        Property::MinWidth => style.min_width = parent.min_width.clone(),
        Property::MaxWidth => style.max_width = parent.max_width.clone(),
        Property::MinHeight => style.min_height = parent.min_height.clone(),
        Property::MaxHeight => style.max_height = parent.max_height.clone(),
        Property::MarginTop => style.margin.top = parent.margin.top.clone(),
        Property::MarginRight => style.margin.right = parent.margin.right.clone(),
        Property::MarginBottom => style.margin.bottom = parent.margin.bottom.clone(),
        Property::MarginLeft => style.margin.left = parent.margin.left.clone(),
        Property::PaddingTop => style.padding.top = parent.padding.top.clone(),
        Property::PaddingRight => style.padding.right = parent.padding.right.clone(),
        Property::PaddingBottom => style.padding.bottom = parent.padding.bottom.clone(),
        Property::PaddingLeft => style.padding.left = parent.padding.left.clone(),
        Property::BorderTopStyle => style.border_style.top = parent.border_style.top,
        Property::BorderRightStyle => style.border_style.right = parent.border_style.right,
        Property::BorderBottomStyle => style.border_style.bottom = parent.border_style.bottom,
        Property::BorderLeftStyle => style.border_style.left = parent.border_style.left,
        Property::BorderTopColor => style.border_color.top = parent.border_color.top,
        Property::BorderRightColor => style.border_color.right = parent.border_color.right,
        Property::BorderBottomColor => style.border_color.bottom = parent.border_color.bottom,
        Property::BorderLeftColor => style.border_color.left = parent.border_color.left,
        Property::Color => style.color = parent.color,
        Property::BackgroundColor => style.background_color = parent.background_color,
        Property::FontWeight => style.font_weight = parent.font_weight,
        Property::FontStyle => style.font_style = parent.font_style,
        Property::TextDecoration => style.text_decoration = parent.text_decoration,
        Property::TextAlign => style.text_align = parent.text_align,
        Property::VerticalAlign => style.vertical_align = parent.vertical_align,
        Property::WhiteSpace => style.white_space = parent.white_space,
        Property::OverflowWrap => style.overflow_wrap = parent.overflow_wrap,
        Property::OverflowX => style.overflow_x = parent.overflow_x,
        Property::OverflowY => style.overflow_y = parent.overflow_y,
        Property::Visibility => style.visibility = parent.visibility,
        Property::ZIndex => style.z_index = parent.z_index,
        _ => {},
    }
}

/// Gives `style` the initial value of `property`, as the style `initial`
/// has it. Custom properties are resolved apart and never come here.
pub fn apply_initial<L: Clone, N: Copy>(
    style: &mut ComputedStyle<L, N>,
    property: &Property,
    initial: &ComputedStyle<L, N>,
)
    requires
        !(property is Custom),
    ensures
        takes_property(*old(style), *final(style), *property, *initial),
{
    match property {
        Property::Display => style.display = initial.display,
        Property::FlexDirection => style.flex_direction = initial.flex_direction,
        Property::FlexWrap => style.flex_wrap = initial.flex_wrap,
        Property::JustifyContent => style.justify_content = initial.justify_content,
        Property::AlignItems => style.align_items = initial.align_items,
        Property::AlignContent => style.align_content = initial.align_content,
        Property::FlexGrow => style.flex_grow = initial.flex_grow,
        Property::FlexShrink => style.flex_shrink = initial.flex_shrink,
        Property::FlexBasis => style.flex_basis = initial.flex_basis.clone(),
        Property::AlignSelf => style.align_self = initial.align_self,
        Property::RowGap => style.row_gap = initial.row_gap.clone(),
        Property::ColumnGap => style.column_gap = initial.column_gap.clone(),
        Property::Width => style.width = initial.width.clone(),
        Property::Height => style.height = initial.height.clone(),
        Property::MinWidth => style.min_width = initial.min_width.clone(),
        Property::MaxWidth => style.max_width = initial.max_width.clone(),
        Property::MinHeight => style.min_height = initial.min_height.clone(),
        Property::MaxHeight => style.max_height = initial.max_height.clone(),
        Property::MarginTop => style.margin.top = initial.margin.top.clone(),
        Property::MarginRight => style.margin.right = initial.margin.right.clone(),
        Property::MarginBottom => style.margin.bottom = initial.margin.bottom.clone(),
        Property::MarginLeft => style.margin.left = initial.margin.left.clone(),
        Property::PaddingTop => style.padding.top = initial.padding.top.clone(),
        Property::PaddingRight => style.padding.right = initial.padding.right.clone(),
        Property::PaddingBottom => style.padding.bottom = initial.padding.bottom.clone(),
        Property::PaddingLeft => style.padding.left = initial.padding.left.clone(),
        Property::BorderTopStyle => style.border_style.top = initial.border_style.top,
        Property::BorderRightStyle => style.border_style.right = initial.border_style.right,
        Property::BorderBottomStyle => style.border_style.bottom = initial.border_style.bottom,
        Property::BorderLeftStyle => style.border_style.left = initial.border_style.left,
        Property::BorderTopColor => style.border_color.top = initial.border_color.top,
        Property::BorderRightColor => style.border_color.right = initial.border_color.right,
        Property::BorderBottomColor => style.border_color.bottom = initial.border_color.bottom,
        Property::BorderLeftColor => style.border_color.left = initial.border_color.left,
        Property::Color => style.color = initial.color,
        Property::BackgroundColor => style.background_color = initial.background_color,
        Property::FontWeight => style.font_weight = initial.font_weight,
        Property::FontStyle => style.font_style = initial.font_style,
        Property::TextDecoration => style.text_decoration = initial.text_decoration,
        Property::TextAlign => style.text_align = initial.text_align,
        Property::VerticalAlign => style.vertical_align = initial.vertical_align,
        Property::WhiteSpace => style.white_space = initial.white_space,
        Property::OverflowWrap => style.overflow_wrap = initial.overflow_wrap,
        Property::OverflowX => style.overflow_x = initial.overflow_x,
        Property::OverflowY => style.overflow_y = initial.overflow_y,
        Property::Visibility => style.visibility = initial.visibility,
        Property::ZIndex => style.z_index = initial.z_index,
        _ => {},
    }
}

/// Whether `value` is of the kind that `property` takes.
pub fn value_fits<L, N>(property: &Property, value: &Value<L, N>) -> (r: bool)
    ensures
        r == spec_value_fits(*property, *value),
{
    match property {
        Property::Display => matches!(value, Value::Display(_)),
        Property::FlexDirection => matches!(value, Value::FlexDirection(_)),
        Property::FlexWrap => matches!(value, Value::FlexWrap(_)),
        Property::JustifyContent => matches!(value, Value::JustifyContent(_)),
        Property::AlignItems => matches!(value, Value::AlignItems(_)),
        Property::AlignContent => matches!(value, Value::AlignContent(_)),
        Property::FlexGrow => matches!(value, Value::Number(_)),
        Property::FlexShrink => matches!(value, Value::Number(_)),
        Property::FlexBasis => matches!(value, Value::Dimension(_)),
        Property::AlignSelf => matches!(value, Value::AlignSelf(_)),
        Property::RowGap => matches!(value, Value::Length(_)),
        Property::ColumnGap => matches!(value, Value::Length(_)),
        Property::Width => matches!(value, Value::Dimension(_)),
        Property::Height => matches!(value, Value::Dimension(_)),
        Property::MinWidth => matches!(value, Value::Dimension(_)),
        Property::MaxWidth => matches!(value, Value::Dimension(_)),
        Property::MinHeight => matches!(value, Value::Dimension(_)),
        Property::MaxHeight => matches!(value, Value::Dimension(_)),
        Property::MarginTop => matches!(value, Value::Length(_)),
        Property::MarginRight => matches!(value, Value::Length(_)),
        Property::MarginBottom => matches!(value, Value::Length(_)),
        Property::MarginLeft => matches!(value, Value::Length(_)),
        Property::PaddingTop => matches!(value, Value::Length(_)),
        Property::PaddingRight => matches!(value, Value::Length(_)),
        Property::PaddingBottom => matches!(value, Value::Length(_)),
        Property::PaddingLeft => matches!(value, Value::Length(_)),
        Property::BorderTopStyle => matches!(value, Value::BorderStyle(_)),
        Property::BorderRightStyle => matches!(value, Value::BorderStyle(_)),
        Property::BorderBottomStyle => matches!(value, Value::BorderStyle(_)),
        Property::BorderLeftStyle => matches!(value, Value::BorderStyle(_)),
        Property::BorderTopColor => matches!(value, Value::Color(_)),
        Property::BorderRightColor => matches!(value, Value::Color(_)),
        Property::BorderBottomColor => matches!(value, Value::Color(_)),
        Property::BorderLeftColor => matches!(value, Value::Color(_)),
        Property::Color => matches!(value, Value::Color(_)),
        Property::BackgroundColor => matches!(value, Value::Color(_)),
        Property::FontWeight => matches!(value, Value::FontWeight(_)),
        Property::FontStyle => matches!(value, Value::FontStyle(_)),
        Property::TextDecoration => matches!(value, Value::TextDecoration(_)),
        Property::TextAlign => matches!(value, Value::TextAlign(_)),
        Property::VerticalAlign => matches!(value, Value::VerticalAlign(_)),
        Property::WhiteSpace => matches!(value, Value::WhiteSpace(_)),
        Property::OverflowWrap => matches!(value, Value::OverflowWrap(_)),
        Property::OverflowX => matches!(value, Value::Overflow(_)),
        Property::OverflowY => matches!(value, Value::Overflow(_)),
        Property::Visibility => matches!(value, Value::Visibility(_)),
        Property::ZIndex => matches!(value, Value::Integer(_)),
        Property::Custom(_) => false,
        _ => true,
    }
}

/// Writes `value` into `style` for `property`, which must take a value of
/// its kind.
pub fn apply_value<L: Clone, N: Copy>(
    style: &mut ComputedStyle<L, N>,
    property: &Property,
    value: &Value<L, N>,
)
    requires
        spec_value_fits(*property, *value),
    ensures
        value_applied(*old(style), *final(style), *property, *value),
{
    match (property, value) {
        (Property::Display, Value::Display(v)) => style.display = *v,
        (Property::FlexDirection, Value::FlexDirection(v)) => style.flex_direction = *v,
        (Property::FlexWrap, Value::FlexWrap(v)) => style.flex_wrap = *v,
        (Property::JustifyContent, Value::JustifyContent(v)) => style.justify_content = *v,
        (Property::AlignItems, Value::AlignItems(v)) => style.align_items = *v,
        (Property::AlignContent, Value::AlignContent(v)) => style.align_content = *v,
        (Property::FlexGrow, Value::Number(v)) => style.flex_grow = *v,
        (Property::FlexShrink, Value::Number(v)) => style.flex_shrink = *v,
        (Property::FlexBasis, Value::Dimension(v)) => style.flex_basis = v.clone(),
        (Property::AlignSelf, Value::AlignSelf(v)) => style.align_self = *v,
        (Property::RowGap, Value::Length(v)) => style.row_gap = v.clone(),
        (Property::ColumnGap, Value::Length(v)) => style.column_gap = v.clone(),
        (Property::Width, Value::Dimension(v)) => style.width = v.clone(),
        (Property::Height, Value::Dimension(v)) => style.height = v.clone(),
        (Property::MinWidth, Value::Dimension(v)) => style.min_width = v.clone(),
        (Property::MaxWidth, Value::Dimension(v)) => style.max_width = v.clone(),
        (Property::MinHeight, Value::Dimension(v)) => style.min_height = v.clone(),
        (Property::MaxHeight, Value::Dimension(v)) => style.max_height = v.clone(),
        (Property::MarginTop, Value::Length(v)) => style.margin.top = v.clone(),
        (Property::MarginRight, Value::Length(v)) => style.margin.right = v.clone(),
        (Property::MarginBottom, Value::Length(v)) => style.margin.bottom = v.clone(),
        (Property::MarginLeft, Value::Length(v)) => style.margin.left = v.clone(),
        (Property::PaddingTop, Value::Length(v)) => style.padding.top = v.clone(),
        (Property::PaddingRight, Value::Length(v)) => style.padding.right = v.clone(),
        (Property::PaddingBottom, Value::Length(v)) => style.padding.bottom = v.clone(),
        (Property::PaddingLeft, Value::Length(v)) => style.padding.left = v.clone(),
        (Property::BorderTopStyle, Value::BorderStyle(v)) => style.border_style.top = *v,
        (Property::BorderRightStyle, Value::BorderStyle(v)) => style.border_style.right = *v,
        (Property::BorderBottomStyle, Value::BorderStyle(v)) => style.border_style.bottom = *v,
        (Property::BorderLeftStyle, Value::BorderStyle(v)) => style.border_style.left = *v,
        (Property::BorderTopColor, Value::Color(v)) => style.border_color.top = *v,
        (Property::BorderRightColor, Value::Color(v)) => style.border_color.right = *v,
        (Property::BorderBottomColor, Value::Color(v)) => style.border_color.bottom = *v,
        (Property::BorderLeftColor, Value::Color(v)) => style.border_color.left = *v,
        (Property::Color, Value::Color(v)) => style.color = *v,
        (Property::BackgroundColor, Value::Color(v)) => style.background_color = *v,
        (Property::FontWeight, Value::FontWeight(v)) => style.font_weight = *v,
        (Property::FontStyle, Value::FontStyle(v)) => style.font_style = *v,
        (Property::TextDecoration, Value::TextDecoration(v)) => style.text_decoration = *v,
        (Property::TextAlign, Value::TextAlign(v)) => style.text_align = *v,
        (Property::VerticalAlign, Value::VerticalAlign(v)) => style.vertical_align = *v,
        (Property::WhiteSpace, Value::WhiteSpace(v)) => style.white_space = *v,
        (Property::OverflowWrap, Value::OverflowWrap(v)) => style.overflow_wrap = *v,
        (Property::OverflowX, Value::Overflow(v)) => style.overflow_x = *v,
        (Property::OverflowY, Value::Overflow(v)) => style.overflow_y = *v,
        (Property::Visibility, Value::Visibility(v)) => style.visibility = *v,
        (Property::ZIndex, Value::Integer(v)) => style.z_index = *v,
        _ => {},
    }
}

/// Whether `r` holds the values of `parent` for the properties that an
/// element inherits (colour, font, text decoration and alignment, white
/// space, overflow wrapping, visibility) and those of `initial` for the
/// others (copied, or cloned where they hold lengths).
pub open spec fn inherits_from<L: Clone, N: Copy>(
    r: ComputedStyle<L, N>,
    parent: ComputedStyle<L, N>,
    initial: ComputedStyle<L, N>,
) -> bool {
    &&& r == (ComputedStyle { flex_basis: r.flex_basis, row_gap: r.row_gap, column_gap: r.column_gap, width: r.width, height: r.height, min_width: r.min_width, max_width: r.max_width, min_height: r.min_height, max_height: r.max_height, margin: r.margin, padding: r.padding, color: parent.color, font_weight: parent.font_weight, font_style: parent.font_style, text_decoration: parent.text_decoration, text_align: parent.text_align, white_space: parent.white_space, overflow_wrap: parent.overflow_wrap, visibility: parent.visibility, ..initial })
    &&& dimension_cloned(initial.flex_basis, r.flex_basis)
    &&& cloned(initial.row_gap, r.row_gap)
    &&& cloned(initial.column_gap, r.column_gap)
    &&& dimension_cloned(initial.width, r.width)
    &&& dimension_cloned(initial.height, r.height)
    &&& dimension_cloned(initial.min_width, r.min_width)
    &&& dimension_cloned(initial.max_width, r.max_width)
    &&& dimension_cloned(initial.min_height, r.min_height)
    &&& dimension_cloned(initial.max_height, r.max_height)
    &&& cloned(initial.margin.top, r.margin.top)
    &&& cloned(initial.margin.right, r.margin.right)
    &&& cloned(initial.margin.bottom, r.margin.bottom)
    &&& cloned(initial.margin.left, r.margin.left)
    &&& cloned(initial.padding.top, r.padding.top)
    &&& cloned(initial.padding.right, r.padding.right)
    &&& cloned(initial.padding.bottom, r.padding.bottom)
    &&& cloned(initial.padding.left, r.padding.left)
}

impl<L: Clone, N: Copy> ComputedStyle<L, N> {
    /// A fresh style that takes the inherited properties of `parent` and
    /// the others from `initial`.
    pub fn inherit_from(parent: &Self, initial: &Self) -> (r: Self)
        ensures
            inherits_from(r, *parent, *initial),
    {
        ComputedStyle {
            display: initial.display,
            flex_direction: initial.flex_direction,
            flex_wrap: initial.flex_wrap,
            justify_content: initial.justify_content,
            align_items: initial.align_items,
            align_content: initial.align_content,
            flex_grow: initial.flex_grow,
            flex_shrink: initial.flex_shrink,
            flex_basis: initial.flex_basis.clone(),
            align_self: initial.align_self,
            row_gap: initial.row_gap.clone(),
            column_gap: initial.column_gap.clone(),
            width: initial.width.clone(),
            height: initial.height.clone(),
            min_width: initial.min_width.clone(),
            max_width: initial.max_width.clone(),
            min_height: initial.min_height.clone(),
            max_height: initial.max_height.clone(),
            margin: Edges {
                top: initial.margin.top.clone(),
                right: initial.margin.right.clone(),
                bottom: initial.margin.bottom.clone(),
                left: initial.margin.left.clone(),
            },
            padding: Edges {
                top: initial.padding.top.clone(),
                right: initial.padding.right.clone(),
                bottom: initial.padding.bottom.clone(),
                left: initial.padding.left.clone(),
            },
            border_style: initial.border_style,
            border_color: initial.border_color,
            color: parent.color,
            background_color: initial.background_color,
            font_weight: parent.font_weight,
            font_style: parent.font_style,
            text_decoration: parent.text_decoration,
            text_align: parent.text_align,
            vertical_align: initial.vertical_align,
            white_space: parent.white_space,
            overflow_wrap: parent.overflow_wrap,
            overflow_x: initial.overflow_x,
            overflow_y: initial.overflow_y,
            visibility: parent.visibility,
            z_index: initial.z_index,
        }
    }

    pub fn is_flex_container(&self) -> (r: bool)
        ensures
            r == (self.display == Display::Flex),
    {
        self.display == Display::Flex
    }

    pub fn is_grid_container(&self) -> (r: bool)
        ensures
            r == (self.display == Display::Grid),
    {
        self.display == Display::Grid
    }

    pub fn is_inline_container(&self) -> (r: bool)
        ensures
            r == (self.display == Display::Inline),
    {
        self.display == Display::Inline
    }

    /// Whether the element is not shown: no display, or hidden.
    pub fn is_hidden(&self) -> (r: bool)
        ensures
            r == (self.display == Display::NoDisplay || self.visibility == Visibility::Hidden),
    {
        self.display == Display::NoDisplay || self.visibility == Visibility::Hidden
    }
}

/// A `z-index` from the integer written for it, where it fits an `i16`.
pub fn z_index_from(n: i32) -> (r: Option<i16>)
    ensures
        r == if i16::MIN <= n <= i16::MAX {
            Some(n as i16)
        } else {
            None
        },
{
    if i16::MIN as i32 <= n && n <= i16::MAX as i32 {
        Some(n as i16)
    } else {
        None
    }
}


/// Whether `a` holds for `p` what `b` holds: the same value, or a clone of
/// it where it holds a length; a grid or custom property has no field.
pub open spec fn same_property<L: Clone, N: Copy>(
    p: Property,
    a: ComputedStyle<L, N>,
    b: ComputedStyle<L, N>,
) -> bool {
    match p {
        Property::Display => a.display == b.display,
        Property::FlexDirection => a.flex_direction == b.flex_direction,
        Property::FlexWrap => a.flex_wrap == b.flex_wrap,
        Property::JustifyContent => a.justify_content == b.justify_content,
        Property::AlignItems => a.align_items == b.align_items,
        Property::AlignContent => a.align_content == b.align_content,
        Property::FlexGrow => a.flex_grow == b.flex_grow,
        Property::FlexShrink => a.flex_shrink == b.flex_shrink,
        Property::FlexBasis => dimension_cloned(b.flex_basis, a.flex_basis),
        Property::AlignSelf => a.align_self == b.align_self,
        Property::RowGap => cloned(b.row_gap, a.row_gap),
        Property::ColumnGap => cloned(b.column_gap, a.column_gap),
        Property::Width => dimension_cloned(b.width, a.width),
        Property::Height => dimension_cloned(b.height, a.height),
        Property::MinWidth => dimension_cloned(b.min_width, a.min_width),
        Property::MaxWidth => dimension_cloned(b.max_width, a.max_width),
        Property::MinHeight => dimension_cloned(b.min_height, a.min_height),
        Property::MaxHeight => dimension_cloned(b.max_height, a.max_height),
        Property::MarginTop => cloned(b.margin.top, a.margin.top),
        Property::MarginRight => cloned(b.margin.right, a.margin.right),
        Property::MarginBottom => cloned(b.margin.bottom, a.margin.bottom),
        Property::MarginLeft => cloned(b.margin.left, a.margin.left),
        Property::PaddingTop => cloned(b.padding.top, a.padding.top),
        Property::PaddingRight => cloned(b.padding.right, a.padding.right),
        Property::PaddingBottom => cloned(b.padding.bottom, a.padding.bottom),
        Property::PaddingLeft => cloned(b.padding.left, a.padding.left),
        Property::BorderTopStyle => a.border_style.top == b.border_style.top,
        Property::BorderRightStyle => a.border_style.right == b.border_style.right,
        Property::BorderBottomStyle => a.border_style.bottom == b.border_style.bottom,
        Property::BorderLeftStyle => a.border_style.left == b.border_style.left,
        Property::BorderTopColor => a.border_color.top == b.border_color.top,
        Property::BorderRightColor => a.border_color.right == b.border_color.right,
        Property::BorderBottomColor => a.border_color.bottom == b.border_color.bottom,
        Property::BorderLeftColor => a.border_color.left == b.border_color.left,
        Property::Color => a.color == b.color,
        Property::BackgroundColor => a.background_color == b.background_color,
        Property::FontWeight => a.font_weight == b.font_weight,
        Property::FontStyle => a.font_style == b.font_style,
        Property::TextDecoration => a.text_decoration == b.text_decoration,
        Property::TextAlign => a.text_align == b.text_align,
        Property::VerticalAlign => a.vertical_align == b.vertical_align,
        Property::WhiteSpace => a.white_space == b.white_space,
        Property::OverflowWrap => a.overflow_wrap == b.overflow_wrap,
        Property::OverflowX => a.overflow_x == b.overflow_x,
        Property::OverflowY => a.overflow_y == b.overflow_y,
        Property::Visibility => a.visibility == b.visibility,
        Property::ZIndex => a.z_index == b.z_index,
        _ => true,
    }
}

/// A style made for a child by `inherit_from` holds, for each property
/// that an element inherits (`Property::inherited`), the parent's value,
/// and for each other property the initial one.
pub proof fn lemma_inherit_from_properties<L: Clone, N: Copy>(
    r: ComputedStyle<L, N>,
    parent: ComputedStyle<L, N>,
    initial: ComputedStyle<L, N>,
)
    requires
        inherits_from(r, parent, initial),
    ensures
        forall|p: Property| #[trigger] p.spec_inherited() ==> same_property(p, r, parent),
        forall|p: Property| !(#[trigger] p.spec_inherited()) ==> same_property(p, r, initial),
{
    assert forall|p: Property| #[trigger] p.spec_inherited() implies same_property(p, r, parent) by {
        match p {
            _ => {},
        }
    }
    assert forall|p: Property| !(#[trigger] p.spec_inherited()) implies same_property(p, r, initial) by {
        match p {
            _ => {},
        }
    }
}

} // verus!
