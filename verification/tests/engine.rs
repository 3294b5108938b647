use capsule_corp::box_model::{ResolvedBox, SizeConstraints};
use capsule_corp::edges::Edges;
use capsule_corp::engine::{content_constraints, finish_node_box, with_margin, BlockCursor, InlineCursor};
use capsule_corp::geometry::{AvailableSpace, Constraints, Point, Size};

fn boxed(width: u16, height: u16) -> ResolvedBox {
    ResolvedBox::from_size(Size::new(width, height))
}

#[test]
fn content_constraints_take_off_border_and_padding() {
    let (c, h, v) = content_constraints(
        Constraints::definite(20, 10),
        &Edges::all(1),
        &Edges::new(1, 2, 3, 4),
    );
    assert_eq!(h, 8);
    assert_eq!(v, 6);
    assert_eq!(c, Constraints::definite(12, 4));
}

#[test]
fn node_box_uses_set_width_clamped() {
    let limits = SizeConstraints {
        width: Some(30),
        height: None,
        min_width: 0,
        max_width: Some(25),
        min_height: 0,
        max_height: None,
    };
    let b = finish_node_box(&limits, Edges::zero(), Edges::all(1), Edges::zero(), Size::new(5, 3));
    assert_eq!(b.content_size, Size::new(25, 3));
    assert_eq!(b.border, Edges::all(1));
}

#[test]
fn node_box_auto_size_clamps_border_box() {
    let limits = SizeConstraints {
        width: None,
        height: None,
        min_width: 10,
        max_width: None,
        min_height: 0,
        max_height: Some(4),
    };
    // content 5 + border 2 = 7 raised to 10, less 2 again
    let b = finish_node_box(&limits, Edges::zero(), Edges::all(1), Edges::zero(), Size::new(5, 9));
    assert_eq!(b.content_size, Size::new(8, 2));
}

#[test]
fn block_stacks_children() {
    let mut cursor = BlockCursor::new(Constraints::definite(40, 100));
    let margin = Edges::new(1, 2, 3, 4);
    let c = cursor.enter_child(&margin, AvailableSpace::Definite(100));
    assert_eq!(c, Constraints::new(AvailableSpace::Definite(34), AvailableSpace::Definite(99)));
    let p = cursor.leave_child(&margin, &boxed(34, 5));
    assert_eq!(p, Point::new(4, 1));
    assert_eq!(cursor.y, 9);
    let second = Edges::zero();
    cursor.enter_child(&second, AvailableSpace::Definite(100));
    let p2 = cursor.leave_child(&second, &boxed(40, 2));
    assert_eq!(p2, Point::new(0, 9));
    assert_eq!(cursor.finish(), Size::new(40, 11));
}

#[test]
fn block_without_definite_width_is_zero_wide() {
    let cursor = BlockCursor::new(Constraints::new(AvailableSpace::MaxContent, AvailableSpace::MaxContent));
    assert_eq!(cursor.finish(), Size::new(0, 0));
}

#[test]
fn inline_flows_and_wraps() {
    let mut cursor = InlineCursor::new(Constraints::definite(10, 5));
    let m = Edges::zero();
    assert_eq!(cursor.place(&m, &boxed(4, 1)), Point::new(0, 0));
    assert_eq!(cursor.place(&m, &boxed(4, 2)), Point::new(4, 0));
    // 8 + 4 > 10: next line, below the tallest so far
    assert_eq!(cursor.place(&m, &boxed(4, 1)), Point::new(0, 2));
    assert_eq!(cursor.finish(), Size::new(8, 3));
}

#[test]
fn inline_first_child_never_wraps() {
    let mut cursor = InlineCursor::new(Constraints::definite(3, 5));
    let m = Edges::new(0, 1, 0, 1);
    assert_eq!(cursor.place(&m, &boxed(5, 1)), Point::new(1, 0));
    assert_eq!(cursor.finish(), Size::new(7, 1));
    let c = cursor.child_constraints(&m, AvailableSpace::MinContent);
    assert_eq!(c, Constraints::new(AvailableSpace::Definite(1), AvailableSpace::MinContent));
}

#[test]
fn placed_child_keeps_its_margins() {
    let b = boxed(3, 4);
    let m = Edges::all(2);
    let placed = with_margin(&b, m);
    assert_eq!(placed.margin, m);
    assert_eq!(placed.content_size, Size::new(3, 4));
    assert_eq!(placed.margin_box_size(), Size::new(7, 8));
}
