use capsule_corp::property::Property;
use capsule_corp::color::{hex_digit, parse_hex_color};
use capsule_corp::keywords::{FontStyle, FontWeight, OverflowWrap, TextAlign, TextDecoration, VerticalAlign};
use capsule_corp::color::{BasicColor, Color};
use capsule_corp::edges::Edges;
use capsule_corp::keywords::{
    AlignItems, AlignSelf, BorderStyle, Display, FlexDirection, Overflow, Visibility,
};
use capsule_corp::state::ElementState;

#[test]
fn basic_color_from_name() {
    assert_eq!(BasicColor::from_name("red"), Some(BasicColor::Red));
    assert_eq!(BasicColor::from_name("cyan"), Some(BasicColor::Cyan));
    assert_eq!(BasicColor::from_name("purple"), None);
}

#[test]
fn basic_color_ansi_codes() {
    assert_eq!(BasicColor::Black.ansi_code(), 0);
    assert_eq!(BasicColor::White.ansi_code(), 7);
    assert_eq!(BasicColor::Red.bright_ansi_code(), 9);
}

#[test]
fn color_default() {
    assert_eq!(Color::default(), Color::Reset);
}

#[test]
fn color_constants() {
    assert_eq!(Color::red(), Color::Basic(BasicColor::Red));
    assert_eq!(Color::cyan(), Color::Basic(BasicColor::Cyan));
}

#[test]
fn basic_color_names_round_trip() {
    let all = [
        BasicColor::Black,
        BasicColor::Red,
        BasicColor::Green,
        BasicColor::Yellow,
        BasicColor::Blue,
        BasicColor::Magenta,
        BasicColor::Cyan,
        BasicColor::White,
    ];
    let names = ["black", "red", "green", "yellow", "blue", "magenta", "cyan", "white"];
    for (i, c) in all.iter().enumerate() {
        assert_eq!(BasicColor::from_name(names[i]), Some(*c));
        assert_eq!(c.ansi_code(), i as u8);
        assert_eq!(c.bright_ansi_code(), i as u8 + 8);
    }
}

#[test]
fn edges_all() {
    let e = Edges::all(5);
    assert_eq!(e.top, 5);
    assert_eq!(e.right, 5);
    assert_eq!(e.bottom, 5);
    assert_eq!(e.left, 5);
}

#[test]
fn edges_symmetric() {
    let e = Edges::symmetric(1, 2);
    assert_eq!(e.top, 1);
    assert_eq!(e.bottom, 1);
    assert_eq!(e.left, 2);
    assert_eq!(e.right, 2);
}

#[test]
fn edges_three() {
    let e = Edges::three(1, 2, 3);
    assert_eq!(e.top, 1);
    assert_eq!(e.left, 2);
    assert_eq!(e.right, 2);
    assert_eq!(e.bottom, 3);
}

#[test]
fn edges_new() {
    let e = Edges::new(1, 2, 3, 4);
    assert_eq!(e.top, 1);
    assert_eq!(e.right, 2);
    assert_eq!(e.bottom, 3);
    assert_eq!(e.left, 4);
}

#[test]
fn edges_map() {
    let e = Edges::all(5);
    let doubled = e.map(|x: &i32| *x * 2);
    assert_eq!(doubled.top, 10);
    assert_eq!(doubled.right, 10);
}

#[test]
fn edges_default() {
    let e: Edges<i32> = Edges::default();
    assert_eq!(e.top, 0);
}

#[test]
fn edges_sums() {
    let e: Edges<u16> = Edges::new(1, 2, 3, 4);
    assert_eq!(e.horizontal(), 6);
    assert_eq!(e.vertical(), 4);
    let big: Edges<u16> = Edges::new(u16::MAX, u16::MAX, 1, u16::MAX);
    assert_eq!(big.horizontal(), u16::MAX);
    assert_eq!(big.vertical(), u16::MAX);
}

#[test]
fn border_widths() {
    let styles = Edges::new(BorderStyle::Solid, BorderStyle::NoBorder, BorderStyle::Solid, BorderStyle::NoBorder);
    let widths = styles.to_widths();
    assert_eq!(widths, Edges::new(1, 0, 1, 0));
}

#[test]
fn display_from_name() {
    assert_eq!(Display::from_name("flex"), Some(Display::Flex));
    assert_eq!(Display::from_name("grid"), Some(Display::Grid));
    assert_eq!(Display::from_name("banana"), None);
}

#[test]
fn display_to_name() {
    assert_eq!(Display::Flex.to_name(), "flex");
    assert_eq!(Display::NoDisplay.to_name(), "none");
}

#[test]
fn display_names_round_trip() {
    for d in [Display::Block, Display::Flex, Display::Grid, Display::Inline, Display::NoDisplay] {
        assert_eq!(Display::from_name(d.to_name()), Some(d));
    }
}

#[test]
fn flex_direction_helpers() {
    assert!(FlexDirection::Row.is_row());
    assert!(FlexDirection::RowReverse.is_row());
    assert!(!FlexDirection::Column.is_row());

    assert!(FlexDirection::RowReverse.is_reversed());
    assert!(FlexDirection::ColumnReverse.is_reversed());
    assert!(!FlexDirection::Row.is_reversed());
}

#[test]
fn align_self_resolve() {
    assert_eq!(AlignSelf::Auto.resolve(AlignItems::Center), AlignItems::Center);
    assert_eq!(AlignSelf::FlexStart.resolve(AlignItems::Center), AlignItems::FlexStart);
}

#[test]
fn overflow() {
    assert_eq!(Overflow::from_name("scroll"), Some(Overflow::Scroll));
    assert_eq!(Overflow::Auto.to_name(), "auto");
}

#[test]
fn visibility() {
    assert_eq!(Visibility::from_name("hidden"), Some(Visibility::Hidden));
    assert_eq!(Visibility::Visible.to_name(), "visible");
}

#[test]
fn keyword_defaults() {
    assert_eq!(Display::default(), Display::Block);
    assert_eq!(FlexDirection::default(), FlexDirection::Row);
    assert_eq!(AlignItems::default(), AlignItems::Stretch);
    assert_eq!(Overflow::default(), Overflow::Visible);
}

#[test]
fn default_is_empty() {
    let state = ElementState::default();
    assert!(state.is_empty());
}

#[test]
fn combine_states() {
    let state = ElementState::hover() | ElementState::focus();
    assert!(state.contains(ElementState::hover()));
    assert!(state.contains(ElementState::focus()));
    assert!(!state.contains(ElementState::active()));
}

#[test]
fn toggle_state() {
    let mut state = ElementState::empty();
    state.insert(ElementState::hover());
    assert!(state.contains(ElementState::hover()));

    state.remove(ElementState::hover());
    assert!(!state.contains(ElementState::hover()));
}

#[test]
fn state_symmetric_difference() {
    let a = ElementState::hover() | ElementState::focus();
    let b = ElementState::focus() | ElementState::checked();
    assert_eq!(a.symmetric_difference(b), ElementState::hover() | ElementState::checked());
}

#[test]
fn text_keywords_round_trip() {
    assert_eq!(FontWeight::from_name("bold"), Some(FontWeight::Bold));
    assert_eq!(FontWeight::Bold.to_name(), "bold");
    assert_eq!(FontWeight::default(), FontWeight::Normal);
    assert_eq!(FontStyle::from_name("italic"), Some(FontStyle::Italic));
    assert_eq!(TextDecoration::from_name("none"), Some(TextDecoration::NoDecoration));
    assert_eq!(TextDecoration::LineThrough.to_name(), "line-through");
    assert_eq!(TextAlign::from_name("center"), Some(TextAlign::Center));
    assert_eq!(TextAlign::default(), TextAlign::Left);
    assert_eq!(VerticalAlign::from_name("middle"), Some(VerticalAlign::Middle));
    assert_eq!(OverflowWrap::from_name("break-word"), Some(OverflowWrap::BreakWord));
    assert_eq!(OverflowWrap::from_name("wrap"), None);
}

#[test]
fn hex_colors() {
    assert_eq!(parse_hex_color("1a1a2e"), Some((0x1a, 0x1a, 0x2e)));
    assert_eq!(parse_hex_color("FFF"), Some((255, 255, 255)));
    assert_eq!(parse_hex_color("0f8"), Some((0, 0xff, 0x88)));
    assert_eq!(parse_hex_color("12345"), None);
    assert_eq!(parse_hex_color("12345g"), None);
    assert_eq!(parse_hex_color(""), None);
    assert_eq!(hex_digit('b'), Some(11));
    assert_eq!(hex_digit('x'), None);
}

#[test]
fn property_names_and_inheritance() {
    assert_eq!(Property::from_name("color"), Some(Property::Color));
    assert_eq!(Property::from_name("border-left-color"), Some(Property::BorderLeftColor));
    assert_eq!(Property::from_name("grid-row"), Some(Property::GridRow));
    assert_eq!(Property::from_name("margin"), None);
    assert!(Property::Color.inherited());
    assert!(Property::TextAlign.inherited());
    assert!(Property::Custom("x".to_string()).inherited());
    assert!(!Property::Display.inherited());
    assert!(!Property::Width.inherited());
    assert!(Property::Custom("x".to_string()).is_custom());
    assert!(!Property::ZIndex.is_custom());
}

#[test]
fn color_keywords() {
    assert_eq!(Color::from_keyword("reset"), Some(Color::Reset));
    assert_eq!(Color::from_keyword("default"), Some(Color::Reset));
    assert_eq!(Color::from_keyword("bright-red"), Some(Color::Bright(BasicColor::Red)));
    assert_eq!(Color::from_keyword("cyan"), Some(Color::Basic(BasicColor::Cyan)));
    assert_eq!(Color::from_keyword("bright-"), None);
    assert_eq!(Color::from_keyword("bright-pink"), None);
    assert_eq!(Color::from_keyword("pink"), None);
}
