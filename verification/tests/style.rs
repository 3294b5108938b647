use capsule_corp::color::Color;
use capsule_corp::edges::{side_values, Edges};
use capsule_corp::keywords::{
    AlignContent, AlignItems, AlignSelf, BorderStyle, Display, FlexDirection, FlexWrap, FontStyle,
    FontWeight, JustifyContent, Overflow, OverflowWrap, TextAlign, TextDecoration, VerticalAlign,
    Visibility, WhiteSpace,
};
use capsule_corp::property::Property;
use capsule_corp::style::{
    apply_inherited, apply_initial, apply_value, value_fits, z_index_from, ComputedStyle, Dimension,
    Value,
};

fn initial() -> ComputedStyle<u16, u8> {
    ComputedStyle {
        display: Display::default(),
        flex_direction: FlexDirection::default(),
        flex_wrap: FlexWrap::default(),
        justify_content: JustifyContent::default(),
        align_items: AlignItems::default(),
        align_content: AlignContent::default(),
        flex_grow: 0,
        flex_shrink: 1,
        flex_basis: Dimension::Auto,
        align_self: AlignSelf::default(),
        row_gap: 0,
        column_gap: 0,
        width: Dimension::Auto,
        height: Dimension::Auto,
        min_width: Dimension::Auto,
        max_width: Dimension::NoDimension,
        min_height: Dimension::Auto,
        max_height: Dimension::NoDimension,
        margin: Edges::all(0),
        padding: Edges::all(0),
        border_style: Edges::all(BorderStyle::default()),
        border_color: Edges::all(Color::Reset),
        color: Color::Reset,
        background_color: Color::Reset,
        font_weight: FontWeight::default(),
        font_style: FontStyle::default(),
        text_decoration: TextDecoration::default(),
        text_align: TextAlign::default(),
        vertical_align: VerticalAlign::default(),
        white_space: WhiteSpace::default(),
        overflow_wrap: OverflowWrap::default(),
        overflow_x: Overflow::default(),
        overflow_y: Overflow::default(),
        visibility: Visibility::default(),
        z_index: 0,
    }
}

#[test]
fn apply_value_writes_one_field() {
    let mut style = initial();
    apply_value(&mut style, &Property::Width, &Value::Dimension(Dimension::Length(40)));
    assert_eq!(style.width, Dimension::Length(40));
    apply_value(&mut style, &Property::MarginLeft, &Value::Length(3));
    assert_eq!(style.margin, Edges { top: 0, right: 0, bottom: 0, left: 3 });
    apply_value(&mut style, &Property::FlexGrow, &Value::Number(2));
    assert_eq!(style.flex_grow, 2);
    apply_value(&mut style, &Property::ZIndex, &Value::Integer(-4));
    assert_eq!(style.z_index, -4);
    let mut expected = initial();
    expected.width = Dimension::Length(40);
    expected.margin.left = 3;
    expected.flex_grow = 2;
    expected.z_index = -4;
    assert_eq!(style, expected);
}

#[test]
fn grid_properties_change_nothing() {
    let mut style = initial();
    apply_value(&mut style, &Property::GridRow, &Value::Integer(2));
    assert_eq!(style, initial());
}

#[test]
fn value_kinds_fit_their_properties() {
    assert!(value_fits::<u16, u8>(&Property::Color, &Value::Color(Color::Reset)));
    assert!(!value_fits::<u16, u8>(&Property::Color, &Value::Length(1)));
    assert!(value_fits::<u16, u8>(&Property::GridColumn, &Value::Length(1)));
    assert!(!value_fits::<u16, u8>(&Property::Custom("x".to_string()), &Value::Length(1)));
}

#[test]
fn inherit_and_initial_take_one_property() {
    let mut parent = initial();
    parent.color = Color::Ansi(9);
    parent.padding.top = 7;
    parent.display = Display::Flex;
    let mut style = initial();
    apply_inherited(&mut style, &Property::PaddingTop, &parent);
    assert_eq!(style.padding.top, 7);
    assert_eq!(style.color, Color::Reset);
    apply_inherited(&mut style, &Property::Custom("x".to_string()), &parent);
    assert_eq!(style.display, Display::Block);
    apply_initial(&mut style, &Property::PaddingTop, &initial());
    assert_eq!(style, initial());
}

#[test]
fn inherit_from_takes_inherited_properties() {
    let mut parent = initial();
    parent.color = Color::Ansi(9);
    parent.visibility = Visibility::Hidden;
    parent.width = Dimension::Length(10);
    let style = ComputedStyle::inherit_from(&parent, &initial());
    assert_eq!(style.color, Color::Ansi(9));
    assert_eq!(style.visibility, Visibility::Hidden);
    assert_eq!(style.width, Dimension::Auto);
    assert!(style.is_hidden());
    assert!(!style.is_flex_container());
    assert!(parent.is_hidden());
}

#[test]
fn box_shorthand_values_fill_sides() {
    assert_eq!(side_values(&vec![1u16]), Edges { top: 1, right: 1, bottom: 1, left: 1 });
    assert_eq!(side_values(&vec![1u16, 2]), Edges { top: 1, right: 2, bottom: 1, left: 2 });
    assert_eq!(side_values(&vec![1u16, 2, 3]), Edges { top: 1, right: 2, bottom: 3, left: 2 });
    assert_eq!(side_values(&vec![1u16, 2, 3, 4]), Edges { top: 1, right: 2, bottom: 3, left: 4 });
}

#[test]
fn z_index_range() {
    assert_eq!(z_index_from(5), Some(5));
    assert_eq!(z_index_from(-32768), Some(i16::MIN));
    assert_eq!(z_index_from(32767), Some(i16::MAX));
    assert_eq!(z_index_from(32768), None);
    assert_eq!(z_index_from(-40000), None);
}
