use capsule_corp::box_model::{clamp, ResolvedBox, SizeConstraints};
use capsule_corp::edges::Edges;
use capsule_corp::element::ConcreteCapsuleElement;
use capsule_corp::geometry::{AvailableSpace, Constraints, Layout, Point, Size};
use capsule_corp::strings::{hash_to_u32, identifier_hash};

#[test]
fn concrete_element_wraps() {
    let e = ConcreteCapsuleElement::new(5u32);
    assert_eq!(e.0, 5);
    assert_eq!(e.into_inner(), 5);
}

#[test]
fn hash_cut_to_32_bits() {
    assert_eq!(hash_to_u32(7), 7);
    assert_eq!(hash_to_u32(u32::MAX as u64), u32::MAX);
    assert_eq!(hash_to_u32(u32::MAX as u64 + 1), 0);
    assert_eq!(hash_to_u32(0x1_2345_6789), 0x2345_6789);
    assert_eq!(identifier_hash("main"), identifier_hash("main"));
}

#[test]
fn clamp_prefers_max() {
    assert_eq!(clamp(5, 10, Some(20)), 10);
    assert_eq!(clamp(25, 10, Some(20)), 20);
    assert_eq!(clamp(15, 30, Some(20)), 20);
    assert_eq!(clamp(15, 0, None), 15);
    let limits = SizeConstraints::default();
    assert_eq!(limits.clamp_width(9), 9);
}

#[test]
fn box_sizes_nest() {
    let b = ResolvedBox {
        content_size: Size::new(10, 5),
        margin: Edges::all(1),
        border: Edges::all(1),
        padding: Edges::new(1, 2, 3, 4),
    };
    assert_eq!(b.border_box_size(), Size::new(18, 11));
    assert_eq!(b.margin_box_size(), Size::new(20, 13));
    assert_eq!(b.border_padding_horizontal(), 8);
    assert_eq!(b.border_padding_vertical(), 6);
}

#[test]
fn available_space_shrinks() {
    assert_eq!(AvailableSpace::Definite(5).shrink(7), AvailableSpace::Definite(0));
    assert_eq!(AvailableSpace::MinContent.shrink(7), AvailableSpace::MinContent);
    assert_eq!(AvailableSpace::Definite(5).as_definite(), Some(5));
    assert!(!AvailableSpace::MaxContent.is_definite());
    let c = Constraints::from_size(Size::new(10, 4)).shrink(3, 5);
    assert_eq!(c, Constraints::definite(7, 0));
}

#[test]
fn zero_layout() {
    let l = Layout::zero();
    assert_eq!(l.location, Point::zero());
    assert_eq!(l.resolved_box, ResolvedBox::zero());
    assert_eq!(l.order, 0);
}
