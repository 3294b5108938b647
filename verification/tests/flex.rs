use capsule_corp::box_model::ResolvedBox;
use capsule_corp::edges::Edges;
use capsule_corp::flex::align::{align_items, can_justify, justify_items, line_main_size};
use capsule_corp::flex::collect::{element_item, item_constraints, text_item};
use capsule_corp::flex::cross::{can_align_content, resolve_cross_axis, total_cross_size};
use capsule_corp::flex::flexible::{free_space, freeze_unfrozen, grow_item, shrink_item};
use capsule_corp::flex::item::{FlexItem, FlexLine};
use capsule_corp::flex::lines::collect_into_lines;
use capsule_corp::flex::place::{item_layout, main_and_cross, reverse_items, to_size, total_main_size};
use capsule_corp::geometry::{AvailableSpace, Constraints, Point, Size};
use capsule_corp::keywords::{AlignContent, AlignItems, AlignSelf, FlexWrap, JustifyContent};

fn make_item(node_id: usize, main_size: u16, cross_size: u16) -> FlexItem<usize> {
    FlexItem {
        node_id,
        flex_basis: main_size,
        min_main_size: 0,
        max_main_size: None,
        hypothetical_main_size: main_size,
        margin: Edges::zero(),
        resolved_box: ResolvedBox::zero(),
        align_self: AlignSelf::Auto,
        frozen: true,
        main_size,
        cross_size,
        main_position: 0,
        cross_position: 0,
    }
}

fn make_line(items: Vec<FlexItem<usize>>, cross_size: u16) -> FlexLine<usize> {
    FlexLine { items, cross_size, cross_position: 0 }
}

fn empty_line(cross_size: u16) -> FlexLine<usize> {
    FlexLine { items: vec![], cross_size, cross_position: 0 }
}

#[test]
fn justify_flex_start() {
    let mut lines = vec![make_line(vec![make_item(0, 20, 10), make_item(1, 30, 10)], 10)];
    justify_items(&mut lines, 100, JustifyContent::FlexStart, 0);
    assert_eq!(lines[0].items[0].main_position, 0);
    assert_eq!(lines[0].items[1].main_position, 20);
}

#[test]
fn justify_flex_end() {
    let mut lines = vec![make_line(vec![make_item(0, 20, 10), make_item(1, 30, 10)], 10)];
    justify_items(&mut lines, 100, JustifyContent::FlexEnd, 0);
    assert_eq!(lines[0].items[0].main_position, 50);
    assert_eq!(lines[0].items[1].main_position, 70);
}

#[test]
fn justify_center() {
    let mut lines = vec![make_line(vec![make_item(0, 20, 10), make_item(1, 30, 10)], 10)];
    justify_items(&mut lines, 100, JustifyContent::Center, 0);
    assert_eq!(lines[0].items[0].main_position, 25);
    assert_eq!(lines[0].items[1].main_position, 45);
}

#[test]
fn justify_space_between() {
    let mut lines = vec![make_line(
        vec![make_item(0, 20, 10), make_item(1, 20, 10), make_item(2, 20, 10)],
        10,
    )];
    justify_items(&mut lines, 100, JustifyContent::SpaceBetween, 0);
    assert_eq!(lines[0].items[0].main_position, 0);
    assert_eq!(lines[0].items[1].main_position, 40);
    assert_eq!(lines[0].items[2].main_position, 80);
}

#[test]
fn justify_with_gap() {
    let mut lines = vec![make_line(vec![make_item(0, 20, 10), make_item(1, 20, 10)], 10)];
    justify_items(&mut lines, 100, JustifyContent::FlexStart, 10);
    assert_eq!(lines[0].items[0].main_position, 0);
    assert_eq!(lines[0].items[1].main_position, 30);
}

#[test]
fn justify_space_around_and_evenly() {
    let mut around = vec![make_line(vec![make_item(0, 20, 10), make_item(1, 20, 10)], 10)];
    justify_items(&mut around, 100, JustifyContent::SpaceAround, 0);
    // free 60, 30 per item, half before the first
    assert_eq!(around[0].items[0].main_position, 15);
    assert_eq!(around[0].items[1].main_position, 65);
    let mut evenly = vec![make_line(vec![make_item(0, 20, 10), make_item(1, 20, 10)], 10)];
    justify_items(&mut evenly, 100, JustifyContent::SpaceEvenly, 0);
    assert_eq!(evenly[0].items[0].main_position, 20);
    assert_eq!(evenly[0].items[1].main_position, 60);
}

#[test]
fn align_flex_start() {
    let mut lines = vec![make_line(vec![make_item(0, 20, 10), make_item(1, 20, 15)], 20)];
    lines[0].cross_position = 5;
    align_items(&mut lines, AlignItems::FlexStart);
    assert_eq!(lines[0].items[0].cross_position, 5);
    assert_eq!(lines[0].items[1].cross_position, 5);
}

#[test]
fn align_flex_end() {
    let mut lines = vec![make_line(vec![make_item(0, 20, 10), make_item(1, 20, 15)], 20)];
    lines[0].cross_position = 0;
    align_items(&mut lines, AlignItems::FlexEnd);
    assert_eq!(lines[0].items[0].cross_position, 10);
    assert_eq!(lines[0].items[1].cross_position, 5);
}

#[test]
fn align_center() {
    let mut lines = vec![make_line(vec![make_item(0, 20, 10), make_item(1, 20, 20)], 20)];
    lines[0].cross_position = 0;
    align_items(&mut lines, AlignItems::Center);
    assert_eq!(lines[0].items[0].cross_position, 5);
    assert_eq!(lines[0].items[1].cross_position, 0);
}

#[test]
fn align_stretch() {
    let mut lines = vec![make_line(vec![make_item(0, 20, 10), make_item(1, 20, 15)], 30)];
    lines[0].cross_position = 0;
    align_items(&mut lines, AlignItems::Stretch);
    assert_eq!(lines[0].items[0].cross_size, 30);
    assert_eq!(lines[0].items[1].cross_size, 30);
    assert_eq!(lines[0].items[0].cross_position, 0);
    assert_eq!(lines[0].items[1].cross_position, 0);
}

#[test]
fn align_self_overrides_container() {
    let mut item = make_item(0, 20, 10);
    item.align_self = AlignSelf::FlexEnd;
    let mut lines = vec![make_line(vec![item, make_item(1, 20, 10)], 30)];
    align_items(&mut lines, AlignItems::FlexStart);
    assert_eq!(lines[0].items[0].cross_position, 20);
    assert_eq!(lines[0].items[1].cross_position, 0);
}

#[test]
fn line_main_size_with_gaps() {
    let line = make_line(vec![make_item(0, 20, 10), make_item(1, 30, 10), make_item(2, 25, 10)], 10);
    assert_eq!(line_main_size(&line, 0), 75);
    assert_eq!(line_main_size(&line, 5), 85);
}

#[test]
fn flex_start_positions_at_zero() {
    let mut lines = vec![empty_line(20), empty_line(30)];
    resolve_cross_axis(&mut lines, 100, AlignContent::FlexStart, 0);
    assert_eq!(lines[0].cross_position, 0);
    assert_eq!(lines[1].cross_position, 20);
}

#[test]
fn flex_end_positions_at_end() {
    let mut lines = vec![empty_line(20), empty_line(30)];
    resolve_cross_axis(&mut lines, 100, AlignContent::FlexEnd, 0);
    assert_eq!(lines[0].cross_position, 50);
    assert_eq!(lines[1].cross_position, 70);
}

#[test]
fn center_positions_in_middle() {
    let mut lines = vec![empty_line(20), empty_line(30)];
    resolve_cross_axis(&mut lines, 100, AlignContent::Center, 0);
    assert_eq!(lines[0].cross_position, 25);
    assert_eq!(lines[1].cross_position, 45);
}

#[test]
fn space_between_distributes_evenly() {
    let mut lines = vec![empty_line(20), empty_line(20), empty_line(20)];
    resolve_cross_axis(&mut lines, 100, AlignContent::SpaceBetween, 0);
    assert_eq!(lines[0].cross_position, 0);
    assert_eq!(lines[1].cross_position, 40);
    assert_eq!(lines[2].cross_position, 80);
}

#[test]
fn stretch_expands_lines() {
    let mut lines = vec![empty_line(20), empty_line(20)];
    resolve_cross_axis(&mut lines, 100, AlignContent::Stretch, 0);
    assert_eq!(lines[0].cross_size, 50);
    assert_eq!(lines[1].cross_size, 50);
    assert_eq!(lines[0].cross_position, 0);
    assert_eq!(lines[1].cross_position, 50);
}

#[test]
fn gap_adds_space_between_lines() {
    let mut lines = vec![empty_line(20), empty_line(20)];
    resolve_cross_axis(&mut lines, 100, AlignContent::FlexStart, 10);
    assert_eq!(lines[0].cross_position, 0);
    assert_eq!(lines[1].cross_position, 30);
}

#[test]
fn total_cross_size_sums_lines_and_gaps() {
    let lines = vec![empty_line(20), empty_line(30), empty_line(25)];
    assert_eq!(total_cross_size(&lines, 0), 75);
    assert_eq!(total_cross_size(&lines, 5), 85);
}

#[test]
fn empty_lines_returns_zero() {
    let lines: Vec<FlexLine<usize>> = vec![];
    assert_eq!(total_cross_size(&lines, 10), 0);
}

#[test]
fn no_wrap_keeps_one_line() {
    let items = vec![make_item(0, 60, 10), make_item(1, 60, 20)];
    let lines = collect_into_lines(&items, 100, FlexWrap::NoWrap, 0);
    assert_eq!(lines.len(), 1);
    assert_eq!(lines[0].items.len(), 2);
    assert_eq!(lines[0].cross_size, 20);
}

#[test]
fn wrap_starts_new_lines() {
    let items = vec![make_item(0, 40, 10), make_item(1, 40, 20), make_item(2, 40, 5)];
    let lines = collect_into_lines(&items, 100, FlexWrap::Wrap, 10);
    // 40 + 10 + 40 = 90 fits; the third would make 140
    assert_eq!(lines.len(), 2);
    assert_eq!(lines[0].items.len(), 2);
    assert_eq!(lines[0].cross_size, 20);
    assert_eq!(lines[1].items[0].node_id, 2);
    assert_eq!(lines[1].cross_size, 5);
}

#[test]
fn wrap_reverse_reverses_lines() {
    let items = vec![make_item(0, 60, 10), make_item(1, 60, 20)];
    let lines = collect_into_lines(&items, 100, FlexWrap::WrapReverse, 0);
    assert_eq!(lines.len(), 2);
    assert_eq!(lines[0].items[0].node_id, 1);
    assert_eq!(lines[1].items[0].node_id, 0);
}

#[test]
fn wrapping_keeps_every_item_in_order() {
    let items: Vec<FlexItem<usize>> = (0..7).map(|i| make_item(i, 30 + (i as u16) * 7, 1)).collect();
    let lines = collect_into_lines(&items, 100, FlexWrap::Wrap, 3);
    let ids: Vec<usize> = lines.iter().flat_map(|l| l.items.iter().map(|it| it.node_id)).collect();
    assert_eq!(ids, (0..7).collect::<Vec<usize>>());
    assert!(lines.iter().all(|l| !l.items.is_empty()));
}

#[test]
fn free_space_counts_gaps() {
    let line = make_line(vec![make_item(0, 20, 10), make_item(1, 30, 10)], 10);
    assert_eq!(free_space(&line, 100, 0), 50);
    assert_eq!(free_space(&line, 100, 10), 40);
    assert_eq!(free_space(&line, 40, 0), -10);
}

#[test]
fn grow_stops_at_max() {
    let mut item = make_item(0, 20, 10);
    item.frozen = false;
    item.max_main_size = Some(25);
    assert_eq!(grow_item(&mut item, 10), Some(5));
    assert_eq!(item.main_size, 25);
    assert!(item.frozen);
    let mut free = make_item(1, 20, 10);
    free.frozen = false;
    assert_eq!(grow_item(&mut free, 10), None);
    assert_eq!(free.main_size, 30);
    assert!(!free.frozen);
}

#[test]
fn shrink_stops_at_min() {
    let mut item = make_item(0, 20, 10);
    item.frozen = false;
    item.min_main_size = 15;
    assert_eq!(shrink_item(&mut item, 10), Some(5));
    assert_eq!(item.main_size, 15);
    assert!(item.frozen);
    let mut free = make_item(1, 20, 10);
    free.frozen = false;
    assert_eq!(shrink_item(&mut free, 5), None);
    assert_eq!(free.main_size, 15);
}

#[test]
fn freeze_resets_unfrozen_items() {
    let mut a = make_item(0, 20, 10);
    a.frozen = false;
    a.main_size = 33;
    let mut b = make_item(1, 20, 10);
    b.main_size = 44;
    let mut line = make_line(vec![a, b], 10);
    freeze_unfrozen(&mut line, true);
    assert_eq!(line.items[0].main_size, 20);
    assert!(line.items[0].frozen);
    assert_eq!(line.items[1].main_size, 44);
}

#[test]
fn text_items_are_frozen_at_their_size() {
    let mut b = ResolvedBox::zero();
    b.content_size = Size::new(7, 2);
    let item = text_item(9usize, b, true);
    assert_eq!(item.main_size, 7);
    assert_eq!(item.cross_size, 2);
    assert_eq!(item.max_main_size, Some(7));
    assert!(item.frozen);
    let column = text_item(9usize, b, false);
    assert_eq!(column.main_size, 2);
    assert_eq!(column.cross_size, 7);
}

#[test]
fn element_items_start_clamped() {
    let mut b = ResolvedBox::zero();
    b.content_size = Size::new(50, 3);
    let item = element_item(1usize, AlignSelf::Center, 80, 10, Some(50), Edges::zero(), b, true);
    assert_eq!(item.hypothetical_main_size, 50);
    assert_eq!(item.main_size, 50);
    assert_eq!(item.cross_size, 3);
    assert!(!item.frozen);
    let c = item_constraints(true, 50, AvailableSpace::MaxContent);
    assert_eq!(c, Constraints::new(AvailableSpace::Definite(50), AvailableSpace::MaxContent));
}

#[test]
fn item_layout_swaps_axes_for_columns() {
    let mut item = make_item(0, 20, 10);
    item.main_position = 3;
    item.cross_position = 4;
    let row = item_layout(&item, true);
    assert_eq!(row.location, Point::new(3, 4));
    assert_eq!(row.resolved_box.content_size, Size::new(20, 10));
    let column = item_layout(&item, false);
    assert_eq!(column.location, Point::new(4, 3));
    assert_eq!(column.resolved_box.content_size, Size::new(10, 20));
    assert_eq!(to_size(false, 5, 6), Size::new(6, 5));
    let c = Constraints::definite(8, 9);
    assert_eq!(main_and_cross(false, c), (AvailableSpace::Definite(9), AvailableSpace::Definite(8)));
}

#[test]
fn total_main_size_takes_longest_line() {
    let lines = vec![
        make_line(vec![make_item(0, 20, 1), make_item(1, 20, 1)], 1),
        make_line(vec![make_item(2, 50, 1)], 1),
    ];
    assert_eq!(total_main_size(&lines, 5), 50);
    assert_eq!(total_main_size(&lines, 15), 55);
}

#[test]
fn reverse_items_reverses() {
    let mut items = vec![make_item(0, 1, 1), make_item(1, 1, 1), make_item(2, 1, 1)];
    reverse_items(&mut items);
    let ids: Vec<usize> = items.iter().map(|i| i.node_id).collect();
    assert_eq!(ids, vec![2, 1, 0]);
}

#[test]
fn item_counts_that_divide_by_zero() {
    assert!(!can_justify(JustifyContent::SpaceAround, 65536));
    assert!(!can_justify(JustifyContent::SpaceBetween, 65537));
    assert!(!can_justify(JustifyContent::SpaceEvenly, 65535));
    assert!(can_justify(JustifyContent::SpaceAround, 70000));
    assert!(can_justify(JustifyContent::Center, 65536));
    assert!(can_justify(JustifyContent::SpaceAround, 1));
}

#[test]
fn line_counts_that_divide_by_zero() {
    let lines: Vec<FlexLine<u32>> = Vec::new();
    assert!(can_align_content(&lines, 10, AlignContent::Stretch, 0));
    assert!(can_align_content(&lines, 10, AlignContent::SpaceEvenly, 0));
    let many: Vec<FlexLine<u32>> =
        (0..65536).map(|_| FlexLine { items: vec![], cross_size: 0, cross_position: 0 }).collect();
    assert!(!can_align_content(&many, 10, AlignContent::Stretch, 0));
    assert!(can_align_content(&many, 0, AlignContent::Stretch, 0));
    assert!(!can_align_content(&many, 0, AlignContent::SpaceAround, 0));
}
