use vstd::prelude::*;

use crate::strings::str_equals;

verus! {

/// How a box lays out its children.
#[derive(Debug, Clone, Copy, PartialEq, Eq, Hash, Structural)]
pub enum Display {
    Block,
    Flex,
    Grid,
    Inline,
    NoDisplay,
}

impl Default for Display {
    fn default() -> (r: Self)
        ensures
            r == Display::Block,
    {
        Display::Block
    }
}

impl Display {
    /// The CSS keyword for this value.
    pub open spec fn spec_name(self) -> Seq<char> {
        match self {
            Display::Block => "block"@,
            Display::Flex => "flex"@,
            Display::Grid => "grid"@,
            Display::Inline => "inline"@,
            Display::NoDisplay => "none"@,
        }
    }

    /// The value whose CSS keyword is `s`, if any.
    pub open spec fn named(s: Seq<char>) -> Option<Self> {
        if s == "block"@ {
            Some(Display::Block)
        } else if s == "flex"@ {
            Some(Display::Flex)
        } else if s == "grid"@ {
            Some(Display::Grid)
        } else if s == "inline"@ {
            Some(Display::Inline)
        } else if s == "none"@ {
            Some(Display::NoDisplay)
        } else {
            None
        }
    }

    pub fn to_name(self) -> (r: &'static str)
        ensures
            r@ == self.spec_name(),
    {
        match self {
            Display::Block => "block",
            Display::Flex => "flex",
            Display::Grid => "grid",
            Display::Inline => "inline",
            Display::NoDisplay => "none",
        }
    }

    pub fn from_name(name: &str) -> (r: Option<Self>)
        ensures
            r == Self::named(name@),
    {
        if str_equals(name, "block") {
            return Some(Display::Block);
        }
        if str_equals(name, "flex") {
            return Some(Display::Flex);
        }
        if str_equals(name, "grid") {
            return Some(Display::Grid);
        }
        if str_equals(name, "inline") {
            return Some(Display::Inline);
        }
        if str_equals(name, "none") {
            return Some(Display::NoDisplay);
        }
        None
    }
}

/// Reading the keyword of a value gives the value back.
pub proof fn lemma_display_name_roundtrip(v: Display)
    ensures
        Display::named(v.spec_name()) == Some(v),
{
    match v {
        Display::Block => {
            reveal_strlit("block");
        },
        Display::Flex => {
            reveal_strlit("flex");
            reveal_strlit("block");
            assert("flex"@.len() != "block"@.len());
        },
        Display::Grid => {
            reveal_strlit("grid");
            reveal_strlit("block");
            assert("grid"@.len() != "block"@.len());
            reveal_strlit("flex");
            assert("grid"@[0] != "flex"@[0]);
        },
        Display::Inline => {
            reveal_strlit("inline");
            reveal_strlit("block");
            assert("inline"@.len() != "block"@.len());
            reveal_strlit("flex");
            assert("inline"@.len() != "flex"@.len());
            reveal_strlit("grid");
            assert("inline"@.len() != "grid"@.len());
        },
        Display::NoDisplay => {
            reveal_strlit("none");
            reveal_strlit("block");
            assert("none"@.len() != "block"@.len());
            reveal_strlit("flex");
            assert("none"@[0] != "flex"@[0]);
            reveal_strlit("grid");
            assert("none"@[0] != "grid"@[0]);
            reveal_strlit("inline");
            assert("none"@.len() != "inline"@.len());
        },
    }
}

/// The main axis of a flex container.
#[derive(Debug, Clone, Copy, PartialEq, Eq, Hash, Structural)]
pub enum FlexDirection {
    Row,
    Column,
    RowReverse,
    ColumnReverse,
}

impl Default for FlexDirection {
    fn default() -> (r: Self)
        ensures
            r == FlexDirection::Row,
    {
        FlexDirection::Row
    }
}

impl FlexDirection {
    /// The CSS keyword for this value.
    pub open spec fn spec_name(self) -> Seq<char> {
        match self {
            FlexDirection::Row => "row"@,
            FlexDirection::Column => "column"@,
            FlexDirection::RowReverse => "row-reverse"@,
            FlexDirection::ColumnReverse => "column-reverse"@,
        }
    }

    /// The value whose CSS keyword is `s`, if any.
    pub open spec fn named(s: Seq<char>) -> Option<Self> {
        if s == "row"@ {
            Some(FlexDirection::Row)
        } else if s == "column"@ {
            Some(FlexDirection::Column)
        } else if s == "row-reverse"@ {
            Some(FlexDirection::RowReverse)
        } else if s == "column-reverse"@ {
            Some(FlexDirection::ColumnReverse)
        } else {
            None
        }
    }

    pub fn to_name(self) -> (r: &'static str)
        ensures
            r@ == self.spec_name(),
    {
        match self {
            FlexDirection::Row => "row",
            FlexDirection::Column => "column",
            FlexDirection::RowReverse => "row-reverse",
            FlexDirection::ColumnReverse => "column-reverse",
        }
    }

    pub fn from_name(name: &str) -> (r: Option<Self>)
        ensures
            r == Self::named(name@),
    {
        if str_equals(name, "row") {
            return Some(FlexDirection::Row);
        }
        if str_equals(name, "column") {
            return Some(FlexDirection::Column);
        }
        if str_equals(name, "row-reverse") {
            return Some(FlexDirection::RowReverse);
        }
        if str_equals(name, "column-reverse") {
            return Some(FlexDirection::ColumnReverse);
        }
        None
    }
}

/// Reading the keyword of a value gives the value back.
pub proof fn lemma_flex_direction_name_roundtrip(v: FlexDirection)
    ensures
        FlexDirection::named(v.spec_name()) == Some(v),
{
    match v {
        FlexDirection::Row => {
            reveal_strlit("row");
        },
        FlexDirection::Column => {
            reveal_strlit("column");
            reveal_strlit("row");
            assert("column"@.len() != "row"@.len());
        },
        FlexDirection::RowReverse => {
            reveal_strlit("row-reverse");
            reveal_strlit("row");
            assert("row-reverse"@.len() != "row"@.len());
            reveal_strlit("column");
            assert("row-reverse"@.len() != "column"@.len());
        },
        FlexDirection::ColumnReverse => {
            reveal_strlit("column-reverse");
            reveal_strlit("row");
            assert("column-reverse"@.len() != "row"@.len());
            reveal_strlit("column");
            assert("column-reverse"@.len() != "column"@.len());
            reveal_strlit("row-reverse");
            assert("column-reverse"@.len() != "row-reverse"@.len());
        },
    }
}

/// Whether flex items may break onto several lines.
#[derive(Debug, Clone, Copy, PartialEq, Eq, Hash, Structural)]
pub enum FlexWrap {
    NoWrap,
    Wrap,
    WrapReverse,
}

impl Default for FlexWrap {
    fn default() -> (r: Self)
        ensures
            r == FlexWrap::NoWrap,
    {
        FlexWrap::NoWrap
    }
}

impl FlexWrap {
    /// The CSS keyword for this value.
    pub open spec fn spec_name(self) -> Seq<char> {
        match self {
            FlexWrap::NoWrap => "nowrap"@,
            FlexWrap::Wrap => "wrap"@,
            FlexWrap::WrapReverse => "wrap-reverse"@,
        }
    }

    /// The value whose CSS keyword is `s`, if any.
    pub open spec fn named(s: Seq<char>) -> Option<Self> {
        if s == "nowrap"@ {
            Some(FlexWrap::NoWrap)
        } else if s == "wrap"@ {
            Some(FlexWrap::Wrap)
        } else if s == "wrap-reverse"@ {
            Some(FlexWrap::WrapReverse)
        } else {
            None
        }
    }

    pub fn to_name(self) -> (r: &'static str)
        ensures
            r@ == self.spec_name(),
    {
        match self {
            FlexWrap::NoWrap => "nowrap",
            FlexWrap::Wrap => "wrap",
            FlexWrap::WrapReverse => "wrap-reverse",
        }
    }

    pub fn from_name(name: &str) -> (r: Option<Self>)
        ensures
            r == Self::named(name@),
    {
        if str_equals(name, "nowrap") {
            return Some(FlexWrap::NoWrap);
        }
        if str_equals(name, "wrap") {
            return Some(FlexWrap::Wrap);
        }
        if str_equals(name, "wrap-reverse") {
            return Some(FlexWrap::WrapReverse);
        }
        None
    }
}

/// Reading the keyword of a value gives the value back.
pub proof fn lemma_flex_wrap_name_roundtrip(v: FlexWrap)
    ensures
        FlexWrap::named(v.spec_name()) == Some(v),
{
    match v {
        FlexWrap::NoWrap => {
            reveal_strlit("nowrap");
        },
        FlexWrap::Wrap => {
            reveal_strlit("wrap");
            reveal_strlit("nowrap");
            assert("wrap"@.len() != "nowrap"@.len());
        },
        FlexWrap::WrapReverse => {
            reveal_strlit("wrap-reverse");
            reveal_strlit("nowrap");
            assert("wrap-reverse"@.len() != "nowrap"@.len());
            reveal_strlit("wrap");
            assert("wrap-reverse"@.len() != "wrap"@.len());
        },
    }
}

/// How free space is shared along the main axis of a flex line.
#[derive(Debug, Clone, Copy, PartialEq, Eq, Hash, Structural)]
pub enum JustifyContent {
    FlexStart,
    FlexEnd,
    Start,
    End,
    Center,
    SpaceBetween,
    SpaceAround,
    SpaceEvenly,
    Stretch,
}

impl Default for JustifyContent {
    fn default() -> (r: Self)
        ensures
            r == JustifyContent::FlexStart,
    {
        JustifyContent::FlexStart
    }
}

impl JustifyContent {
    /// The CSS keyword for this value.
    pub open spec fn spec_name(self) -> Seq<char> {
        match self {
            JustifyContent::FlexStart => "flex-start"@,
            JustifyContent::FlexEnd => "flex-end"@,
            JustifyContent::Start => "start"@,
            JustifyContent::End => "end"@,
            JustifyContent::Center => "center"@,
            JustifyContent::SpaceBetween => "space-between"@,
            JustifyContent::SpaceAround => "space-around"@,
            JustifyContent::SpaceEvenly => "space-evenly"@,
            JustifyContent::Stretch => "stretch"@,
        }
    }

    /// The value whose CSS keyword is `s`, if any.
    pub open spec fn named(s: Seq<char>) -> Option<Self> {
        if s == "flex-start"@ {
            Some(JustifyContent::FlexStart)
        } else if s == "flex-end"@ {
            Some(JustifyContent::FlexEnd)
        } else if s == "start"@ {
            Some(JustifyContent::Start)
        } else if s == "end"@ {
            Some(JustifyContent::End)
        } else if s == "center"@ {
            Some(JustifyContent::Center)
        } else if s == "space-between"@ {
            Some(JustifyContent::SpaceBetween)
        } else if s == "space-around"@ {
            Some(JustifyContent::SpaceAround)
        } else if s == "space-evenly"@ {
            Some(JustifyContent::SpaceEvenly)
        } else if s == "stretch"@ {
            Some(JustifyContent::Stretch)
        } else {
            None
        }
    }

    pub fn to_name(self) -> (r: &'static str)
        ensures
            r@ == self.spec_name(),
    {
        match self {
            JustifyContent::FlexStart => "flex-start",
            JustifyContent::FlexEnd => "flex-end",
            JustifyContent::Start => "start",
            JustifyContent::End => "end",
            JustifyContent::Center => "center",
            JustifyContent::SpaceBetween => "space-between",
            JustifyContent::SpaceAround => "space-around",
            JustifyContent::SpaceEvenly => "space-evenly",
            JustifyContent::Stretch => "stretch",
        }
    }

    pub fn from_name(name: &str) -> (r: Option<Self>)
        ensures
            r == Self::named(name@),
    {
        if str_equals(name, "flex-start") {
            return Some(JustifyContent::FlexStart);
        }
        if str_equals(name, "flex-end") {
            return Some(JustifyContent::FlexEnd);
        }
        if str_equals(name, "start") {
            return Some(JustifyContent::Start);
        }
        if str_equals(name, "end") {
            return Some(JustifyContent::End);
        }
        if str_equals(name, "center") {
            return Some(JustifyContent::Center);
        }
        if str_equals(name, "space-between") {
            return Some(JustifyContent::SpaceBetween);
        }
        if str_equals(name, "space-around") {
            return Some(JustifyContent::SpaceAround);
        }
        if str_equals(name, "space-evenly") {
            return Some(JustifyContent::SpaceEvenly);
        }
        if str_equals(name, "stretch") {
            return Some(JustifyContent::Stretch);
        }
        None
    }
}

/// Reading the keyword of a value gives the value back.
pub proof fn lemma_justify_content_name_roundtrip(v: JustifyContent)
    ensures
        JustifyContent::named(v.spec_name()) == Some(v),
{
    match v {
        JustifyContent::FlexStart => {
            reveal_strlit("flex-start");
        },
        JustifyContent::FlexEnd => {
            reveal_strlit("flex-end");
            reveal_strlit("flex-start");
            assert("flex-end"@.len() != "flex-start"@.len());
        },
        JustifyContent::Start => {
            reveal_strlit("start");
            reveal_strlit("flex-start");
            assert("start"@.len() != "flex-start"@.len());
            reveal_strlit("flex-end");
            assert("start"@.len() != "flex-end"@.len());
        },
        JustifyContent::End => {
            reveal_strlit("end");
            reveal_strlit("flex-start");
            assert("end"@.len() != "flex-start"@.len());
            reveal_strlit("flex-end");
            assert("end"@.len() != "flex-end"@.len());
            reveal_strlit("start");
            assert("end"@.len() != "start"@.len());
        },
        JustifyContent::Center => {
            reveal_strlit("center");
            reveal_strlit("flex-start");
            assert("center"@.len() != "flex-start"@.len());
            reveal_strlit("flex-end");
            assert("center"@.len() != "flex-end"@.len());
            reveal_strlit("start");
            assert("center"@.len() != "start"@.len());
            reveal_strlit("end");
            assert("center"@.len() != "end"@.len());
        },
        JustifyContent::SpaceBetween => {
            reveal_strlit("space-between");
            reveal_strlit("flex-start");
            assert("space-between"@.len() != "flex-start"@.len());
            reveal_strlit("flex-end");
            assert("space-between"@.len() != "flex-end"@.len());
            reveal_strlit("start");
            assert("space-between"@.len() != "start"@.len());
            reveal_strlit("end");
            assert("space-between"@.len() != "end"@.len());
            reveal_strlit("center");
            assert("space-between"@.len() != "center"@.len());
        },
        JustifyContent::SpaceAround => {
            reveal_strlit("space-around");
            reveal_strlit("flex-start");
            assert("space-around"@.len() != "flex-start"@.len());
            reveal_strlit("flex-end");
            assert("space-around"@.len() != "flex-end"@.len());
            reveal_strlit("start");
            assert("space-around"@.len() != "start"@.len());
            reveal_strlit("end");
            assert("space-around"@.len() != "end"@.len());
            reveal_strlit("center");
            assert("space-around"@.len() != "center"@.len());
            reveal_strlit("space-between");
            assert("space-around"@.len() != "space-between"@.len());
        },
        JustifyContent::SpaceEvenly => {
            reveal_strlit("space-evenly");
            reveal_strlit("flex-start");
            assert("space-evenly"@.len() != "flex-start"@.len());
            reveal_strlit("flex-end");
            assert("space-evenly"@.len() != "flex-end"@.len());
            reveal_strlit("start");
            assert("space-evenly"@.len() != "start"@.len());
            reveal_strlit("end");
            assert("space-evenly"@.len() != "end"@.len());
            reveal_strlit("center");
            assert("space-evenly"@.len() != "center"@.len());
            reveal_strlit("space-between");
            assert("space-evenly"@.len() != "space-between"@.len());
            reveal_strlit("space-around");
            assert("space-evenly"@[6] != "space-around"@[6]);
        },
        JustifyContent::Stretch => {
            reveal_strlit("stretch");
            reveal_strlit("flex-start");
            assert("stretch"@.len() != "flex-start"@.len());
            reveal_strlit("flex-end");
            assert("stretch"@.len() != "flex-end"@.len());
            reveal_strlit("start");
            assert("stretch"@.len() != "start"@.len());
            reveal_strlit("end");
            assert("stretch"@.len() != "end"@.len());
            reveal_strlit("center");
            assert("stretch"@.len() != "center"@.len());
            reveal_strlit("space-between");
            assert("stretch"@.len() != "space-between"@.len());
            reveal_strlit("space-around");
            assert("stretch"@.len() != "space-around"@.len());
            reveal_strlit("space-evenly");
            assert("stretch"@.len() != "space-evenly"@.len());
        },
    }
}

/// How items sit along the cross axis of their flex line.
#[derive(Debug, Clone, Copy, PartialEq, Eq, Hash, Structural)]
pub enum AlignItems {
    FlexStart,
    FlexEnd,
    Start,
    End,
    Center,
    Stretch,
    Baseline,
}

impl Default for AlignItems {
    fn default() -> (r: Self)
        ensures
            r == AlignItems::Stretch,
    {
        AlignItems::Stretch
    }
}

impl AlignItems {
    /// The CSS keyword for this value.
    pub open spec fn spec_name(self) -> Seq<char> {
        match self {
            AlignItems::FlexStart => "flex-start"@,
            AlignItems::FlexEnd => "flex-end"@,
            AlignItems::Start => "start"@,
            AlignItems::End => "end"@,
            AlignItems::Center => "center"@,
            AlignItems::Stretch => "stretch"@,
            AlignItems::Baseline => "baseline"@,
        }
    }

    /// The value whose CSS keyword is `s`, if any.
    pub open spec fn named(s: Seq<char>) -> Option<Self> {
        if s == "flex-start"@ {
            Some(AlignItems::FlexStart)
        } else if s == "flex-end"@ {
            Some(AlignItems::FlexEnd)
        } else if s == "start"@ {
            Some(AlignItems::Start)
        } else if s == "end"@ {
            Some(AlignItems::End)
        } else if s == "center"@ {
            Some(AlignItems::Center)
        } else if s == "stretch"@ {
            Some(AlignItems::Stretch)
        } else if s == "baseline"@ {
            Some(AlignItems::Baseline)
        } else {
            None
        }
    }

    pub fn to_name(self) -> (r: &'static str)
        ensures
            r@ == self.spec_name(),
    {
        match self {
            AlignItems::FlexStart => "flex-start",
            AlignItems::FlexEnd => "flex-end",
            AlignItems::Start => "start",
            AlignItems::End => "end",
            AlignItems::Center => "center",
            AlignItems::Stretch => "stretch",
            AlignItems::Baseline => "baseline",
        }
    }

    pub fn from_name(name: &str) -> (r: Option<Self>)
        ensures
            r == Self::named(name@),
    {
        if str_equals(name, "flex-start") {
            return Some(AlignItems::FlexStart);
        }
        if str_equals(name, "flex-end") {
            return Some(AlignItems::FlexEnd);
        }
        if str_equals(name, "start") {
            return Some(AlignItems::Start);
        }
        if str_equals(name, "end") {
            return Some(AlignItems::End);
        }
        if str_equals(name, "center") {
            return Some(AlignItems::Center);
        }
        if str_equals(name, "stretch") {
            return Some(AlignItems::Stretch);
        }
        if str_equals(name, "baseline") {
            return Some(AlignItems::Baseline);
        }
        None
    }
}

/// Reading the keyword of a value gives the value back.
pub proof fn lemma_align_items_name_roundtrip(v: AlignItems)
    ensures
        AlignItems::named(v.spec_name()) == Some(v),
{
    match v {
        AlignItems::FlexStart => {
            reveal_strlit("flex-start");
        },
        AlignItems::FlexEnd => {
            reveal_strlit("flex-end");
            reveal_strlit("flex-start");
            assert("flex-end"@.len() != "flex-start"@.len());
        },
        AlignItems::Start => {
            reveal_strlit("start");
            reveal_strlit("flex-start");
            assert("start"@.len() != "flex-start"@.len());
            reveal_strlit("flex-end");
            assert("start"@.len() != "flex-end"@.len());
        },
        AlignItems::End => {
            reveal_strlit("end");
            reveal_strlit("flex-start");
            assert("end"@.len() != "flex-start"@.len());
            reveal_strlit("flex-end");
            assert("end"@.len() != "flex-end"@.len());
            reveal_strlit("start");
            assert("end"@.len() != "start"@.len());
        },
        AlignItems::Center => {
            reveal_strlit("center");
            reveal_strlit("flex-start");
            assert("center"@.len() != "flex-start"@.len());
            reveal_strlit("flex-end");
            assert("center"@.len() != "flex-end"@.len());
            reveal_strlit("start");
            assert("center"@.len() != "start"@.len());
            reveal_strlit("end");
            assert("center"@.len() != "end"@.len());
        },
        AlignItems::Stretch => {
            reveal_strlit("stretch");
            reveal_strlit("flex-start");
            assert("stretch"@.len() != "flex-start"@.len());
            reveal_strlit("flex-end");
            assert("stretch"@.len() != "flex-end"@.len());
            reveal_strlit("start");
            assert("stretch"@.len() != "start"@.len());
            reveal_strlit("end");
            assert("stretch"@.len() != "end"@.len());
            reveal_strlit("center");
            assert("stretch"@.len() != "center"@.len());
        },
        AlignItems::Baseline => {
            reveal_strlit("baseline");
            reveal_strlit("flex-start");
            assert("baseline"@.len() != "flex-start"@.len());
            reveal_strlit("flex-end");
            assert("baseline"@[0] != "flex-end"@[0]);
            reveal_strlit("start");
            assert("baseline"@.len() != "start"@.len());
            reveal_strlit("end");
            assert("baseline"@.len() != "end"@.len());
            reveal_strlit("center");
            assert("baseline"@.len() != "center"@.len());
            reveal_strlit("stretch");
            assert("baseline"@.len() != "stretch"@.len());
        },
    }
}

/// A flex item's own cross-axis alignment, or `auto` for the container's.
#[derive(Debug, Clone, Copy, PartialEq, Eq, Hash, Structural)]
pub enum AlignSelf {
    Auto,
    FlexStart,
    FlexEnd,
    Center,
    Stretch,
    Baseline,
}

impl Default for AlignSelf {
    fn default() -> (r: Self)
        ensures
            r == AlignSelf::Auto,
    {
        AlignSelf::Auto
    }
}

impl AlignSelf {
    /// The CSS keyword for this value.
    pub open spec fn spec_name(self) -> Seq<char> {
        match self {
            AlignSelf::Auto => "auto"@,
            AlignSelf::FlexStart => "flex-start"@,
            AlignSelf::FlexEnd => "flex-end"@,
            AlignSelf::Center => "center"@,
            AlignSelf::Stretch => "stretch"@,
            AlignSelf::Baseline => "baseline"@,
        }
    }

    /// The value whose CSS keyword is `s`, if any.
    pub open spec fn named(s: Seq<char>) -> Option<Self> {
        if s == "auto"@ {
            Some(AlignSelf::Auto)
        } else if s == "flex-start"@ {
            Some(AlignSelf::FlexStart)
        } else if s == "flex-end"@ {
            Some(AlignSelf::FlexEnd)
        } else if s == "center"@ {
            Some(AlignSelf::Center)
        } else if s == "stretch"@ {
            Some(AlignSelf::Stretch)
        } else if s == "baseline"@ {
            Some(AlignSelf::Baseline)
        } else {
            None
        }
    }

    pub fn to_name(self) -> (r: &'static str)
        ensures
            r@ == self.spec_name(),
    {
        match self {
            AlignSelf::Auto => "auto",
            AlignSelf::FlexStart => "flex-start",
            AlignSelf::FlexEnd => "flex-end",
            AlignSelf::Center => "center",
            AlignSelf::Stretch => "stretch",
            AlignSelf::Baseline => "baseline",
        }
    }

    pub fn from_name(name: &str) -> (r: Option<Self>)
        ensures
            r == Self::named(name@),
    {
        if str_equals(name, "auto") {
            return Some(AlignSelf::Auto);
        }
        if str_equals(name, "flex-start") {
            return Some(AlignSelf::FlexStart);
        }
        if str_equals(name, "flex-end") {
            return Some(AlignSelf::FlexEnd);
        }
        if str_equals(name, "center") {
            return Some(AlignSelf::Center);
        }
        if str_equals(name, "stretch") {
            return Some(AlignSelf::Stretch);
        }
        if str_equals(name, "baseline") {
            return Some(AlignSelf::Baseline);
        }
        None
    }
}

/// Reading the keyword of a value gives the value back.
pub proof fn lemma_align_self_name_roundtrip(v: AlignSelf)
    ensures
        AlignSelf::named(v.spec_name()) == Some(v),
{
    match v {
        AlignSelf::Auto => {
            reveal_strlit("auto");
        },
        AlignSelf::FlexStart => {
            reveal_strlit("flex-start");
            reveal_strlit("auto");
            assert("flex-start"@.len() != "auto"@.len());
        },
        AlignSelf::FlexEnd => {
            reveal_strlit("flex-end");
            reveal_strlit("auto");
            assert("flex-end"@.len() != "auto"@.len());
            reveal_strlit("flex-start");
            assert("flex-end"@.len() != "flex-start"@.len());
        },
        AlignSelf::Center => {
            reveal_strlit("center");
            reveal_strlit("auto");
            assert("center"@.len() != "auto"@.len());
            reveal_strlit("flex-start");
            assert("center"@.len() != "flex-start"@.len());
            reveal_strlit("flex-end");
            assert("center"@.len() != "flex-end"@.len());
        },
        AlignSelf::Stretch => {
            reveal_strlit("stretch");
            reveal_strlit("auto");
            assert("stretch"@.len() != "auto"@.len());
            reveal_strlit("flex-start");
            assert("stretch"@.len() != "flex-start"@.len());
            reveal_strlit("flex-end");
            assert("stretch"@.len() != "flex-end"@.len());
            reveal_strlit("center");
            assert("stretch"@.len() != "center"@.len());
        },
        AlignSelf::Baseline => {
            reveal_strlit("baseline");
            reveal_strlit("auto");
            assert("baseline"@.len() != "auto"@.len());
            reveal_strlit("flex-start");
            assert("baseline"@.len() != "flex-start"@.len());
            reveal_strlit("flex-end");
            assert("baseline"@[0] != "flex-end"@[0]);
            reveal_strlit("center");
            assert("baseline"@.len() != "center"@.len());
            reveal_strlit("stretch");
            assert("baseline"@.len() != "stretch"@.len());
        },
    }
}

/// How flex lines share the cross axis of their container.
#[derive(Debug, Clone, Copy, PartialEq, Eq, Hash, Structural)]
pub enum AlignContent {
    FlexStart,
    FlexEnd,
    Start,
    End,
    Center,
    SpaceBetween,
    SpaceAround,
    SpaceEvenly,
    Stretch,
}

impl Default for AlignContent {
    fn default() -> (r: Self)
        ensures
            r == AlignContent::Stretch,
    {
        AlignContent::Stretch
    }
}

impl AlignContent {
    /// The CSS keyword for this value.
    pub open spec fn spec_name(self) -> Seq<char> {
        match self {
            AlignContent::FlexStart => "flex-start"@,
            AlignContent::FlexEnd => "flex-end"@,
            AlignContent::Start => "start"@,
            AlignContent::End => "end"@,
            AlignContent::Center => "center"@,
            AlignContent::SpaceBetween => "space-between"@,
            AlignContent::SpaceAround => "space-around"@,
            AlignContent::SpaceEvenly => "space-evenly"@,
            AlignContent::Stretch => "stretch"@,
        }
    }

    /// The value whose CSS keyword is `s`, if any.
    pub open spec fn named(s: Seq<char>) -> Option<Self> {
        if s == "flex-start"@ {
            Some(AlignContent::FlexStart)
        } else if s == "flex-end"@ {
            Some(AlignContent::FlexEnd)
        } else if s == "start"@ {
            Some(AlignContent::Start)
        } else if s == "end"@ {
            Some(AlignContent::End)
        } else if s == "center"@ {
            Some(AlignContent::Center)
        } else if s == "space-between"@ {
            Some(AlignContent::SpaceBetween)
        } else if s == "space-around"@ {
            Some(AlignContent::SpaceAround)
        } else if s == "space-evenly"@ {
            Some(AlignContent::SpaceEvenly)
        } else if s == "stretch"@ {
            Some(AlignContent::Stretch)
        } else {
            None
        }
    }

    pub fn to_name(self) -> (r: &'static str)
        ensures
            r@ == self.spec_name(),
    {
        match self {
            AlignContent::FlexStart => "flex-start",
            AlignContent::FlexEnd => "flex-end",
            AlignContent::Start => "start",
            AlignContent::End => "end",
            AlignContent::Center => "center",
            AlignContent::SpaceBetween => "space-between",
            AlignContent::SpaceAround => "space-around",
            AlignContent::SpaceEvenly => "space-evenly",
            AlignContent::Stretch => "stretch",
        }
    }

    pub fn from_name(name: &str) -> (r: Option<Self>)
        ensures
            r == Self::named(name@),
    {
        if str_equals(name, "flex-start") {
            return Some(AlignContent::FlexStart);
        }
        if str_equals(name, "flex-end") {
            return Some(AlignContent::FlexEnd);
        }
        if str_equals(name, "start") {
            return Some(AlignContent::Start);
        }
        if str_equals(name, "end") {
            return Some(AlignContent::End);
        }
        if str_equals(name, "center") {
            return Some(AlignContent::Center);
        }
        if str_equals(name, "space-between") {
            return Some(AlignContent::SpaceBetween);
        }
        if str_equals(name, "space-around") {
            return Some(AlignContent::SpaceAround);
        }
        if str_equals(name, "space-evenly") {
            return Some(AlignContent::SpaceEvenly);
        }
        if str_equals(name, "stretch") {
            return Some(AlignContent::Stretch);
        }
        None
    }
}

/// Reading the keyword of a value gives the value back.
pub proof fn lemma_align_content_name_roundtrip(v: AlignContent)
    ensures
        AlignContent::named(v.spec_name()) == Some(v),
{
    match v {
        AlignContent::FlexStart => {
            reveal_strlit("flex-start");
        },
        AlignContent::FlexEnd => {
            reveal_strlit("flex-end");
            reveal_strlit("flex-start");
            assert("flex-end"@.len() != "flex-start"@.len());
        },
        AlignContent::Start => {
            reveal_strlit("start");
            reveal_strlit("flex-start");
            assert("start"@.len() != "flex-start"@.len());
            reveal_strlit("flex-end");
            assert("start"@.len() != "flex-end"@.len());
        },
        AlignContent::End => {
            reveal_strlit("end");
            reveal_strlit("flex-start");
            assert("end"@.len() != "flex-start"@.len());
            reveal_strlit("flex-end");
            assert("end"@.len() != "flex-end"@.len());
            reveal_strlit("start");
            assert("end"@.len() != "start"@.len());
        },
        AlignContent::Center => {
            reveal_strlit("center");
            reveal_strlit("flex-start");
            assert("center"@.len() != "flex-start"@.len());
            reveal_strlit("flex-end");
            assert("center"@.len() != "flex-end"@.len());
            reveal_strlit("start");
            assert("center"@.len() != "start"@.len());
            reveal_strlit("end");
            assert("center"@.len() != "end"@.len());
        },
        AlignContent::SpaceBetween => {
            reveal_strlit("space-between");
            reveal_strlit("flex-start");
            assert("space-between"@.len() != "flex-start"@.len());
            reveal_strlit("flex-end");
            assert("space-between"@.len() != "flex-end"@.len());
            reveal_strlit("start");
            assert("space-between"@.len() != "start"@.len());
            reveal_strlit("end");
            assert("space-between"@.len() != "end"@.len());
            reveal_strlit("center");
            assert("space-between"@.len() != "center"@.len());
        },
        AlignContent::SpaceAround => {
            reveal_strlit("space-around");
            reveal_strlit("flex-start");
            assert("space-around"@.len() != "flex-start"@.len());
            reveal_strlit("flex-end");
            assert("space-around"@.len() != "flex-end"@.len());
            reveal_strlit("start");
            assert("space-around"@.len() != "start"@.len());
            reveal_strlit("end");
            assert("space-around"@.len() != "end"@.len());
            reveal_strlit("center");
            assert("space-around"@.len() != "center"@.len());
            reveal_strlit("space-between");
            assert("space-around"@.len() != "space-between"@.len());
        },
        AlignContent::SpaceEvenly => {
            reveal_strlit("space-evenly");
            reveal_strlit("flex-start");
            assert("space-evenly"@.len() != "flex-start"@.len());
            reveal_strlit("flex-end");
            assert("space-evenly"@.len() != "flex-end"@.len());
            reveal_strlit("start");
            assert("space-evenly"@.len() != "start"@.len());
            reveal_strlit("end");
            assert("space-evenly"@.len() != "end"@.len());
            reveal_strlit("center");
            assert("space-evenly"@.len() != "center"@.len());
            reveal_strlit("space-between");
            assert("space-evenly"@.len() != "space-between"@.len());
            reveal_strlit("space-around");
            assert("space-evenly"@[6] != "space-around"@[6]);
        },
        AlignContent::Stretch => {
            reveal_strlit("stretch");
            reveal_strlit("flex-start");
            assert("stretch"@.len() != "flex-start"@.len());
            reveal_strlit("flex-end");
            assert("stretch"@.len() != "flex-end"@.len());
            reveal_strlit("start");
            assert("stretch"@.len() != "start"@.len());
            reveal_strlit("end");
            assert("stretch"@.len() != "end"@.len());
            reveal_strlit("center");
            assert("stretch"@.len() != "center"@.len());
            reveal_strlit("space-between");
            assert("stretch"@.len() != "space-between"@.len());
            reveal_strlit("space-around");
            assert("stretch"@.len() != "space-around"@.len());
            reveal_strlit("space-evenly");
            assert("stretch"@.len() != "space-evenly"@.len());
        },
    }
}

/// What happens to content that does not fit.
#[derive(Debug, Clone, Copy, PartialEq, Eq, Hash, Structural)]
pub enum Overflow {
    Visible,
    Hidden,
    Scroll,
    Auto,
}

impl Default for Overflow {
    fn default() -> (r: Self)
        ensures
            r == Overflow::Visible,
    {
        Overflow::Visible
    }
}

impl Overflow {
    /// The CSS keyword for this value.
    pub open spec fn spec_name(self) -> Seq<char> {
        match self {
            Overflow::Visible => "visible"@,
            Overflow::Hidden => "hidden"@,
            Overflow::Scroll => "scroll"@,
            Overflow::Auto => "auto"@,
        }
    }

    /// The value whose CSS keyword is `s`, if any.
    pub open spec fn named(s: Seq<char>) -> Option<Self> {
        if s == "visible"@ {
            Some(Overflow::Visible)
        } else if s == "hidden"@ {
            Some(Overflow::Hidden)
        } else if s == "scroll"@ {
            Some(Overflow::Scroll)
        } else if s == "auto"@ {
            Some(Overflow::Auto)
        } else {
            None
        }
    }

    pub fn to_name(self) -> (r: &'static str)
        ensures
            r@ == self.spec_name(),
    {
        match self {
            Overflow::Visible => "visible",
            Overflow::Hidden => "hidden",
            Overflow::Scroll => "scroll",
            Overflow::Auto => "auto",
        }
    }

    pub fn from_name(name: &str) -> (r: Option<Self>)
        ensures
            r == Self::named(name@),
    {
        if str_equals(name, "visible") {
            return Some(Overflow::Visible);
        }
        if str_equals(name, "hidden") {
            return Some(Overflow::Hidden);
        }
        if str_equals(name, "scroll") {
            return Some(Overflow::Scroll);
        }
        if str_equals(name, "auto") {
            return Some(Overflow::Auto);
        }
        None
    }
}

/// Reading the keyword of a value gives the value back.
pub proof fn lemma_overflow_name_roundtrip(v: Overflow)
    ensures
        Overflow::named(v.spec_name()) == Some(v),
{
    match v {
        Overflow::Visible => {
            reveal_strlit("visible");
        },
        Overflow::Hidden => {
            reveal_strlit("hidden");
            reveal_strlit("visible");
            assert("hidden"@.len() != "visible"@.len());
        },
        Overflow::Scroll => {
            reveal_strlit("scroll");
            reveal_strlit("visible");
            assert("scroll"@.len() != "visible"@.len());
            reveal_strlit("hidden");
            assert("scroll"@[0] != "hidden"@[0]);
        },
        Overflow::Auto => {
            reveal_strlit("auto");
            reveal_strlit("visible");
            assert("auto"@.len() != "visible"@.len());
            reveal_strlit("hidden");
            assert("auto"@.len() != "hidden"@.len());
            reveal_strlit("scroll");
            assert("auto"@.len() != "scroll"@.len());
        },
    }
}

/// Whether a box is drawn.
#[derive(Debug, Clone, Copy, PartialEq, Eq, Hash, Structural)]
pub enum Visibility {
    Visible,
    Hidden,
}

impl Default for Visibility {
    fn default() -> (r: Self)
        ensures
            r == Visibility::Visible,
    {
        Visibility::Visible
    }
}

impl Visibility {
    /// The CSS keyword for this value.
    pub open spec fn spec_name(self) -> Seq<char> {
        match self {
            Visibility::Visible => "visible"@,
            Visibility::Hidden => "hidden"@,
        }
    }

    /// The value whose CSS keyword is `s`, if any.
    pub open spec fn named(s: Seq<char>) -> Option<Self> {
        if s == "visible"@ {
            Some(Visibility::Visible)
        } else if s == "hidden"@ {
            Some(Visibility::Hidden)
        } else {
            None
        }
    }

    pub fn to_name(self) -> (r: &'static str)
        ensures
            r@ == self.spec_name(),
    {
        match self {
            Visibility::Visible => "visible",
            Visibility::Hidden => "hidden",
        }
    }

    pub fn from_name(name: &str) -> (r: Option<Self>)
        ensures
            r == Self::named(name@),
    {
        if str_equals(name, "visible") {
            return Some(Visibility::Visible);
        }
        if str_equals(name, "hidden") {
            return Some(Visibility::Hidden);
        }
        None
    }
}

/// Reading the keyword of a value gives the value back.
pub proof fn lemma_visibility_name_roundtrip(v: Visibility)
    ensures
        Visibility::named(v.spec_name()) == Some(v),
{
    match v {
        Visibility::Visible => {
            reveal_strlit("visible");
        },
        Visibility::Hidden => {
            reveal_strlit("hidden");
            reveal_strlit("visible");
            assert("hidden"@.len() != "visible"@.len());
        },
    }
}

/// How white space and line breaks in text are handled.
#[derive(Debug, Clone, Copy, PartialEq, Eq, Hash, Structural)]
pub enum WhiteSpace {
    Normal,
    NoWrap,
    Pre,
    PreWrap,
}

impl Default for WhiteSpace {
    fn default() -> (r: Self)
        ensures
            r == WhiteSpace::Normal,
    {
        WhiteSpace::Normal
    }
}

impl WhiteSpace {
    /// The CSS keyword for this value.
    pub open spec fn spec_name(self) -> Seq<char> {
        match self {
            WhiteSpace::Normal => "normal"@,
            WhiteSpace::NoWrap => "nowrap"@,
            WhiteSpace::Pre => "pre"@,
            WhiteSpace::PreWrap => "pre-wrap"@,
        }
    }

    /// The value whose CSS keyword is `s`, if any.
    pub open spec fn named(s: Seq<char>) -> Option<Self> {
        if s == "normal"@ {
            Some(WhiteSpace::Normal)
        } else if s == "nowrap"@ {
            Some(WhiteSpace::NoWrap)
        } else if s == "pre"@ {
            Some(WhiteSpace::Pre)
        } else if s == "pre-wrap"@ {
            Some(WhiteSpace::PreWrap)
        } else {
            None
        }
    }

    pub fn to_name(self) -> (r: &'static str)
        ensures
            r@ == self.spec_name(),
    {
        match self {
            WhiteSpace::Normal => "normal",
            WhiteSpace::NoWrap => "nowrap",
            WhiteSpace::Pre => "pre",
            WhiteSpace::PreWrap => "pre-wrap",
        }
    }

    pub fn from_name(name: &str) -> (r: Option<Self>)
        ensures
            r == Self::named(name@),
    {
        if str_equals(name, "normal") {
            return Some(WhiteSpace::Normal);
        }
        if str_equals(name, "nowrap") {
            return Some(WhiteSpace::NoWrap);
        }
        if str_equals(name, "pre") {
            return Some(WhiteSpace::Pre);
        }
        if str_equals(name, "pre-wrap") {
            return Some(WhiteSpace::PreWrap);
        }
        None
    }
}

/// Reading the keyword of a value gives the value back.
pub proof fn lemma_white_space_name_roundtrip(v: WhiteSpace)
    ensures
        WhiteSpace::named(v.spec_name()) == Some(v),
{
    match v {
        WhiteSpace::Normal => {
            reveal_strlit("normal");
        },
        WhiteSpace::NoWrap => {
            reveal_strlit("nowrap");
            reveal_strlit("normal");
            assert("nowrap"@[2] != "normal"@[2]);
        },
        WhiteSpace::Pre => {
            reveal_strlit("pre");
            reveal_strlit("normal");
            assert("pre"@.len() != "normal"@.len());
            reveal_strlit("nowrap");
            assert("pre"@.len() != "nowrap"@.len());
        },
        WhiteSpace::PreWrap => {
            reveal_strlit("pre-wrap");
            reveal_strlit("normal");
            assert("pre-wrap"@.len() != "normal"@.len());
            reveal_strlit("nowrap");
            assert("pre-wrap"@.len() != "nowrap"@.len());
            reveal_strlit("pre");
            assert("pre-wrap"@.len() != "pre"@.len());
        },
    }
}

/// How a border side is drawn; `none` draws nothing.
#[derive(Debug, Clone, Copy, PartialEq, Eq, Hash, Structural)]
pub enum BorderStyle {
    NoBorder,
    Solid,
}

impl Default for BorderStyle {
    fn default() -> (r: Self)
        ensures
            r == BorderStyle::NoBorder,
    {
        BorderStyle::NoBorder
    }
}

impl BorderStyle {
    /// The CSS keyword for this value.
    pub open spec fn spec_name(self) -> Seq<char> {
        match self {
            BorderStyle::NoBorder => "none"@,
            BorderStyle::Solid => "solid"@,
        }
    }

    /// The value whose CSS keyword is `s`, if any.
    pub open spec fn named(s: Seq<char>) -> Option<Self> {
        if s == "none"@ {
            Some(BorderStyle::NoBorder)
        } else if s == "solid"@ {
            Some(BorderStyle::Solid)
        } else {
            None
        }
    }

    pub fn to_name(self) -> (r: &'static str)
        ensures
            r@ == self.spec_name(),
    {
        match self {
            BorderStyle::NoBorder => "none",
            BorderStyle::Solid => "solid",
        }
    }

    pub fn from_name(name: &str) -> (r: Option<Self>)
        ensures
            r == Self::named(name@),
    {
        if str_equals(name, "none") {
            return Some(BorderStyle::NoBorder);
        }
        if str_equals(name, "solid") {
            return Some(BorderStyle::Solid);
        }
        None
    }
}

/// Reading the keyword of a value gives the value back.
pub proof fn lemma_border_style_name_roundtrip(v: BorderStyle)
    ensures
        BorderStyle::named(v.spec_name()) == Some(v),
{
    match v {
        BorderStyle::NoBorder => {
            reveal_strlit("none");
        },
        BorderStyle::Solid => {
            reveal_strlit("solid");
            reveal_strlit("none");
            assert("solid"@.len() != "none"@.len());
        },
    }
}

impl FlexDirection {
    pub open spec fn spec_is_row(self) -> bool {
        self == FlexDirection::Row || self == FlexDirection::RowReverse
    }

    pub open spec fn spec_is_reversed(self) -> bool {
        self == FlexDirection::RowReverse || self == FlexDirection::ColumnReverse
    }

    /// Whether the main axis runs horizontally.
    pub fn is_row(self) -> (r: bool)
        ensures
            r == self.spec_is_row(),
    {
        match self {
            FlexDirection::Row | FlexDirection::RowReverse => true,
            _ => false,
        }
    }

    /// Whether items run against the main axis.
    pub fn is_reversed(self) -> (r: bool)
        ensures
            r == self.spec_is_reversed(),
    {
        match self {
            FlexDirection::RowReverse | FlexDirection::ColumnReverse => true,
            _ => false,
        }
    }
}

impl AlignSelf {
    pub open spec fn spec_resolve(self, parent: AlignItems) -> AlignItems {
        match self {
            AlignSelf::Auto => parent,
            AlignSelf::FlexStart => AlignItems::FlexStart,
            AlignSelf::FlexEnd => AlignItems::FlexEnd,
            AlignSelf::Center => AlignItems::Center,
            AlignSelf::Stretch => AlignItems::Stretch,
            AlignSelf::Baseline => AlignItems::Baseline,
        }
    }

    /// The alignment that applies: the item's own, or the container's for `auto`.
    pub fn resolve(self, parent: AlignItems) -> (r: AlignItems)
        ensures
            r == self.spec_resolve(parent),
    {
        match self {
            AlignSelf::Auto => parent,
            AlignSelf::FlexStart => AlignItems::FlexStart,
            AlignSelf::FlexEnd => AlignItems::FlexEnd,
            AlignSelf::Center => AlignItems::Center,
            AlignSelf::Stretch => AlignItems::Stretch,
            AlignSelf::Baseline => AlignItems::Baseline,
        }
    }
}


/// The weight of a font.
#[derive(Debug, Clone, Copy, PartialEq, Eq, Hash, Structural)]
pub enum FontWeight {
    Normal,
    Bold,
}

impl Default for FontWeight {
    fn default() -> (r: Self)
        ensures
            r == FontWeight::Normal,
    {
        FontWeight::Normal
    }
}

impl FontWeight {
    /// The CSS keyword for this value.
    pub open spec fn spec_name(self) -> Seq<char> {
        match self {
            FontWeight::Normal => "normal"@,
            FontWeight::Bold => "bold"@,
        }
    }

    /// The value whose CSS keyword is `s`, if any.
    pub open spec fn named(s: Seq<char>) -> Option<Self> {
        if s == "normal"@ {
            Some(FontWeight::Normal)
        } else if s == "bold"@ {
            Some(FontWeight::Bold)
        } else {
            None
        }
    }

    pub fn to_name(self) -> (r: &'static str)
        ensures
            r@ == self.spec_name(),
    {
        match self {
            FontWeight::Normal => "normal",
            FontWeight::Bold => "bold",
        }
    }

    pub fn from_name(name: &str) -> (r: Option<Self>)
        ensures
            r == Self::named(name@),
    {
        if str_equals(name, "normal") {
            return Some(FontWeight::Normal);
        }
        if str_equals(name, "bold") {
            return Some(FontWeight::Bold);
        }
        None
    }
}

/// Reading the keyword of a value gives the value back.
pub proof fn lemma_font_weight_name_roundtrip(v: FontWeight)
    ensures
        FontWeight::named(v.spec_name()) == Some(v),
{
    match v {
        FontWeight::Normal => {
            reveal_strlit("normal");
        },
        FontWeight::Bold => {
            reveal_strlit("bold");
            reveal_strlit("normal");
            assert("bold"@.len() != "normal"@.len());
        },
    }
}

/// The slant of a font.
#[derive(Debug, Clone, Copy, PartialEq, Eq, Hash, Structural)]
pub enum FontStyle {
    Normal,
    Italic,
}

impl Default for FontStyle {
    fn default() -> (r: Self)
        ensures
            r == FontStyle::Normal,
    {
        FontStyle::Normal
    }
}

impl FontStyle {
    /// The CSS keyword for this value.
    pub open spec fn spec_name(self) -> Seq<char> {
        match self {
            FontStyle::Normal => "normal"@,
            FontStyle::Italic => "italic"@,
        }
    }

    /// The value whose CSS keyword is `s`, if any.
    pub open spec fn named(s: Seq<char>) -> Option<Self> {
        if s == "normal"@ {
            Some(FontStyle::Normal)
        } else if s == "italic"@ {
            Some(FontStyle::Italic)
        } else {
            None
        }
    }

    pub fn to_name(self) -> (r: &'static str)
        ensures
            r@ == self.spec_name(),
    {
        match self {
            FontStyle::Normal => "normal",
            FontStyle::Italic => "italic",
        }
    }

    pub fn from_name(name: &str) -> (r: Option<Self>)
        ensures
            r == Self::named(name@),
    {
        if str_equals(name, "normal") {
            return Some(FontStyle::Normal);
        }
        if str_equals(name, "italic") {
            return Some(FontStyle::Italic);
        }
        None
    }
}

/// Reading the keyword of a value gives the value back.
pub proof fn lemma_font_style_name_roundtrip(v: FontStyle)
    ensures
        FontStyle::named(v.spec_name()) == Some(v),
{
    match v {
        FontStyle::Normal => {
            reveal_strlit("normal");
        },
        FontStyle::Italic => {
            reveal_strlit("italic");
            reveal_strlit("normal");
            assert("italic"@[0] != "normal"@[0]);
        },
    }
}

/// The line drawn with text; `none` draws none.
#[derive(Debug, Clone, Copy, PartialEq, Eq, Hash, Structural)]
pub enum TextDecoration {
    NoDecoration,
    Underline,
    LineThrough,
}

impl Default for TextDecoration {
    fn default() -> (r: Self)
        ensures
            r == TextDecoration::NoDecoration,
    {
        TextDecoration::NoDecoration
    }
}

impl TextDecoration {
    /// The CSS keyword for this value.
    pub open spec fn spec_name(self) -> Seq<char> {
        match self {
            TextDecoration::NoDecoration => "none"@,
            TextDecoration::Underline => "underline"@,
            TextDecoration::LineThrough => "line-through"@,
        }
    }

    /// The value whose CSS keyword is `s`, if any.
    pub open spec fn named(s: Seq<char>) -> Option<Self> {
        if s == "none"@ {
            Some(TextDecoration::NoDecoration)
        } else if s == "underline"@ {
            Some(TextDecoration::Underline)
        } else if s == "line-through"@ {
            Some(TextDecoration::LineThrough)
        } else {
            None
        }
    }

    pub fn to_name(self) -> (r: &'static str)
        ensures
            r@ == self.spec_name(),
    {
        match self {
            TextDecoration::NoDecoration => "none",
            TextDecoration::Underline => "underline",
            TextDecoration::LineThrough => "line-through",
        }
    }

    pub fn from_name(name: &str) -> (r: Option<Self>)
        ensures
            r == Self::named(name@),
    {
        if str_equals(name, "none") {
            return Some(TextDecoration::NoDecoration);
        }
        if str_equals(name, "underline") {
            return Some(TextDecoration::Underline);
        }
        if str_equals(name, "line-through") {
            return Some(TextDecoration::LineThrough);
        }
        None
    }
}

/// Reading the keyword of a value gives the value back.
pub proof fn lemma_text_decoration_name_roundtrip(v: TextDecoration)
    ensures
        TextDecoration::named(v.spec_name()) == Some(v),
{
    match v {
        TextDecoration::NoDecoration => {
            reveal_strlit("none");
        },
        TextDecoration::Underline => {
            reveal_strlit("underline");
            reveal_strlit("none");
            assert("underline"@.len() != "none"@.len());
        },
        TextDecoration::LineThrough => {
            reveal_strlit("line-through");
            reveal_strlit("none");
            assert("line-through"@.len() != "none"@.len());
            reveal_strlit("underline");
            assert("line-through"@.len() != "underline"@.len());
        },
    }
}

/// How the lines of a block of text are aligned.
#[derive(Debug, Clone, Copy, PartialEq, Eq, Hash, Structural)]
pub enum TextAlign {
    Left,
    Right,
    Center,
}

impl Default for TextAlign {
    fn default() -> (r: Self)
        ensures
            r == TextAlign::Left,
    {
        TextAlign::Left
    }
}

impl TextAlign {
    /// The CSS keyword for this value.
    pub open spec fn spec_name(self) -> Seq<char> {
        match self {
            TextAlign::Left => "left"@,
            TextAlign::Right => "right"@,
            TextAlign::Center => "center"@,
        }
    }

    /// The value whose CSS keyword is `s`, if any.
    pub open spec fn named(s: Seq<char>) -> Option<Self> {
        if s == "left"@ {
            Some(TextAlign::Left)
        } else if s == "right"@ {
            Some(TextAlign::Right)
        } else if s == "center"@ {
            Some(TextAlign::Center)
        } else {
            None
        }
    }

    pub fn to_name(self) -> (r: &'static str)
        ensures
            r@ == self.spec_name(),
    {
        match self {
            TextAlign::Left => "left",
            TextAlign::Right => "right",
            TextAlign::Center => "center",
        }
    }

    pub fn from_name(name: &str) -> (r: Option<Self>)
        ensures
            r == Self::named(name@),
    {
        if str_equals(name, "left") {
            return Some(TextAlign::Left);
        }
        if str_equals(name, "right") {
            return Some(TextAlign::Right);
        }
        if str_equals(name, "center") {
            return Some(TextAlign::Center);
        }
        None
    }
}

/// Reading the keyword of a value gives the value back.
pub proof fn lemma_text_align_name_roundtrip(v: TextAlign)
    ensures
        TextAlign::named(v.spec_name()) == Some(v),
{
    match v {
        TextAlign::Left => {
            reveal_strlit("left");
        },
        TextAlign::Right => {
            reveal_strlit("right");
            reveal_strlit("left");
            assert("right"@.len() != "left"@.len());
        },
        TextAlign::Center => {
            reveal_strlit("center");
            reveal_strlit("left");
            assert("center"@.len() != "left"@.len());
            reveal_strlit("right");
            assert("center"@.len() != "right"@.len());
        },
    }
}

/// How an inline box is aligned in its line.
#[derive(Debug, Clone, Copy, PartialEq, Eq, Hash, Structural)]
pub enum VerticalAlign {
    Top,
    Middle,
    Bottom,
}

impl Default for VerticalAlign {
    fn default() -> (r: Self)
        ensures
            r == VerticalAlign::Top,
    {
        VerticalAlign::Top
    }
}

impl VerticalAlign {
    /// The CSS keyword for this value.
    pub open spec fn spec_name(self) -> Seq<char> {
        match self {
            VerticalAlign::Top => "top"@,
            VerticalAlign::Middle => "middle"@,
            VerticalAlign::Bottom => "bottom"@,
        }
    }

    /// The value whose CSS keyword is `s`, if any.
    pub open spec fn named(s: Seq<char>) -> Option<Self> {
        if s == "top"@ {
            Some(VerticalAlign::Top)
        } else if s == "middle"@ {
            Some(VerticalAlign::Middle)
        } else if s == "bottom"@ {
            Some(VerticalAlign::Bottom)
        } else {
            None
        }
    }

    pub fn to_name(self) -> (r: &'static str)
        ensures
            r@ == self.spec_name(),
    {
        match self {
            VerticalAlign::Top => "top",
            VerticalAlign::Middle => "middle",
            VerticalAlign::Bottom => "bottom",
        }
    }

    pub fn from_name(name: &str) -> (r: Option<Self>)
        ensures
            r == Self::named(name@),
    {
        if str_equals(name, "top") {
            return Some(VerticalAlign::Top);
        }
        if str_equals(name, "middle") {
            return Some(VerticalAlign::Middle);
        }
        if str_equals(name, "bottom") {
            return Some(VerticalAlign::Bottom);
        }
        None
    }
}

/// Reading the keyword of a value gives the value back.
pub proof fn lemma_vertical_align_name_roundtrip(v: VerticalAlign)
    ensures
        VerticalAlign::named(v.spec_name()) == Some(v),
{
    match v {
        VerticalAlign::Top => {
            reveal_strlit("top");
        },
        VerticalAlign::Middle => {
            reveal_strlit("middle");
            reveal_strlit("top");
            assert("middle"@.len() != "top"@.len());
        },
        VerticalAlign::Bottom => {
            reveal_strlit("bottom");
            reveal_strlit("top");
            assert("bottom"@.len() != "top"@.len());
            reveal_strlit("middle");
            assert("bottom"@[0] != "middle"@[0]);
        },
    }
}

/// Whether a word too long for its line may be broken.
#[derive(Debug, Clone, Copy, PartialEq, Eq, Hash, Structural)]
pub enum OverflowWrap {
    Normal,
    BreakWord,
    Anywhere,
}

impl Default for OverflowWrap {
    fn default() -> (r: Self)
        ensures
            r == OverflowWrap::Normal,
    {
        OverflowWrap::Normal
    }
}

impl OverflowWrap {
    /// The CSS keyword for this value.
    pub open spec fn spec_name(self) -> Seq<char> {
        match self {
            OverflowWrap::Normal => "normal"@,
            OverflowWrap::BreakWord => "break-word"@,
            OverflowWrap::Anywhere => "anywhere"@,
        }
    }

    /// The value whose CSS keyword is `s`, if any.
    pub open spec fn named(s: Seq<char>) -> Option<Self> {
        if s == "normal"@ {
            Some(OverflowWrap::Normal)
        } else if s == "break-word"@ {
            Some(OverflowWrap::BreakWord)
        } else if s == "anywhere"@ {
            Some(OverflowWrap::Anywhere)
        } else {
            None
        }
    }

    pub fn to_name(self) -> (r: &'static str)
        ensures
            r@ == self.spec_name(),
    {
        match self {
            OverflowWrap::Normal => "normal",
            OverflowWrap::BreakWord => "break-word",
            OverflowWrap::Anywhere => "anywhere",
        }
    }

    pub fn from_name(name: &str) -> (r: Option<Self>)
        ensures
            r == Self::named(name@),
    {
        if str_equals(name, "normal") {
            return Some(OverflowWrap::Normal);
        }
        if str_equals(name, "break-word") {
            return Some(OverflowWrap::BreakWord);
        }
        if str_equals(name, "anywhere") {
            return Some(OverflowWrap::Anywhere);
        }
        None
    }
}

/// Reading the keyword of a value gives the value back.
pub proof fn lemma_overflow_wrap_name_roundtrip(v: OverflowWrap)
    ensures
        OverflowWrap::named(v.spec_name()) == Some(v),
{
    match v {
        OverflowWrap::Normal => {
            reveal_strlit("normal");
        },
        OverflowWrap::BreakWord => {
            reveal_strlit("break-word");
            reveal_strlit("normal");
            assert("break-word"@.len() != "normal"@.len());
        },
        OverflowWrap::Anywhere => {
            reveal_strlit("anywhere");
            reveal_strlit("normal");
            assert("anywhere"@.len() != "normal"@.len());
            reveal_strlit("break-word");
            assert("anywhere"@.len() != "break-word"@.len());
        },
    }
}

} // verus!
