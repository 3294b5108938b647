use vstd::prelude::*;

use crate::box_model::{clamp, spec_clamp, ResolvedBox};
use crate::edges::Edges;
use crate::flex::item::FlexItem;
use crate::geometry::{AvailableSpace, Constraints};
use crate::keywords::AlignSelf;

verus! {

/// The flex item of a text child: as big as its text, frozen, never grown
/// or shrunk, aligned as its container says.
pub fn text_item<N: Copy>(node_id: N, resolved_box: ResolvedBox, is_row: bool) -> (item: FlexItem<N>)
    ensures
        ({
            let size = resolved_box.spec_border_box_size();
            let main: u16 = if is_row { size.width } else { size.height };
            let cross: u16 = if is_row { size.height } else { size.width };
            item == FlexItem {
                node_id,
                align_self: AlignSelf::Auto,
                flex_basis: main,
                min_main_size: main,
                max_main_size: Some(main),
                hypothetical_main_size: main,
                margin: Edges::<u16>::spec_zero(),
                resolved_box,
                frozen: true,
                main_size: main,
                cross_size: cross,
                main_position: 0,
                cross_position: 0,
            }
        }),
{
    let size = resolved_box.border_box_size();
    let (main, cross) = if is_row {
        (size.width, size.height)
    } else {
        (size.height, size.width)
    };
    FlexItem {
        node_id,
        align_self: AlignSelf::Auto,
        flex_basis: main,
        min_main_size: main,
        max_main_size: Some(main),
        hypothetical_main_size: main,
        margin: Edges::zero(),
        resolved_box,
        frozen: true,
        main_size: main,
        cross_size: cross,
        main_position: 0,
        cross_position: 0,
    }
}

/// The constraints to lay out an element item in: its hypothetical main
/// size along the main axis, the container's space along the cross axis.
pub fn item_constraints(is_row: bool, hypothetical_main: u16, available_cross: AvailableSpace) -> (c:
    Constraints)
    ensures
        c == (if is_row {
            Constraints {
                width: AvailableSpace::Definite(hypothetical_main),
                height: available_cross,
            }
        } else {
            Constraints {
                width: available_cross,
                height: AvailableSpace::Definite(hypothetical_main),
            }
        }),
{
    if is_row {
        Constraints::new(AvailableSpace::Definite(hypothetical_main), available_cross)
    } else {
        Constraints::new(available_cross, AvailableSpace::Definite(hypothetical_main))
    }
}

/// The flex item of an element child: its hypothetical main size is its
/// flex basis clamped to its limits, where it starts; its cross size is
/// that of its laid-out border box.
pub fn element_item<N: Copy>(
    node_id: N,
    align_self: AlignSelf,
    flex_basis: u16,
    min_main: u16,
    max_main: Option<u16>,
    margin: Edges<u16>,
    resolved_box: ResolvedBox,
    is_row: bool,
) -> (item: FlexItem<N>)
    ensures
        ({
            let size = resolved_box.spec_border_box_size();
            let hypothetical = spec_clamp(flex_basis, min_main, max_main);
            item == FlexItem {
                node_id,
                align_self,
                flex_basis,
                min_main_size: min_main,
                max_main_size: max_main,
                hypothetical_main_size: hypothetical,
                margin,
                resolved_box,
                frozen: false,
                main_size: hypothetical,
                cross_size: if is_row { size.height } else { size.width },
                main_position: 0,
                cross_position: 0,
            }
        }),
{
    let hypothetical = clamp(flex_basis, min_main, max_main);
    let size = resolved_box.border_box_size();
    FlexItem {
        node_id,
        align_self,
        flex_basis,
        min_main_size: min_main,
        max_main_size: max_main,
        hypothetical_main_size: hypothetical,
        margin,
        resolved_box,
        frozen: false,
        main_size: hypothetical,
        cross_size: if is_row {
            size.height
        } else {
            size.width
        },
        main_position: 0,
        cross_position: 0,
    }
}

} // verus!
