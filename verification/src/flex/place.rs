use vstd::prelude::*;

use crate::box_model::ResolvedBox;
use crate::flex::align::{line_main_size, main_sums_fit, spec_line_main_size};
use crate::flex::item::{FlexItem, FlexLine};
use crate::geometry::{AvailableSpace, Constraints, Layout, Point, Size};

verus! {

/// The space of a flex container along its main and its cross axis: width
/// then height for a row, the other way round for a column.
pub fn main_and_cross(is_row: bool, constraints: Constraints) -> (r: (AvailableSpace, AvailableSpace))
    ensures
        r == (if is_row {
            (constraints.width, constraints.height)
        } else {
            (constraints.height, constraints.width)
        }),
{
    if is_row {
        (constraints.width, constraints.height)
    } else {
        (constraints.height, constraints.width)
    }
}

/// A size given along the main and cross axes, as width and height.
pub fn to_size(is_row: bool, main: u16, cross: u16) -> (s: Size)
    ensures
        s == (if is_row {
            Size { width: main, height: cross }
        } else {
            Size { width: cross, height: main }
        }),
{
    if is_row {
        Size::new(main, cross)
    } else {
        Size::new(cross, main)
    }
}

/// The layout of a placed flex item: at its main and cross positions, its
/// content the item's size less its border and padding.
pub fn item_layout<N: Copy>(item: &FlexItem<N>, is_row: bool) -> (l: Layout)
    ensures
        ({
            let x: u16 = if is_row { item.main_position } else { item.cross_position };
            let y: u16 = if is_row { item.cross_position } else { item.main_position };
            let width: u16 = if is_row { item.main_size } else { item.cross_size };
            let height: u16 = if is_row { item.cross_size } else { item.main_size };
            let b = item.resolved_box;
            l == Layout {
                order: 0,
                location: Point { x, y },
                scrollbar_size: Size { width: 0, height: 0 },
                resolved_box: ResolvedBox {
                    content_size: Size {
                        width: width.saturating_sub(b.border.spec_horizontal()).saturating_sub(
                            b.padding.spec_horizontal(),
                        ),
                        height: height.saturating_sub(b.border.spec_horizontal()).saturating_sub(
                            b.padding.spec_vertical(),
                        ),
                    },
                    ..b
                },
            }
        }),
{
    let (x, y) = if is_row {
        (item.main_position, item.cross_position)
    } else {
        (item.cross_position, item.main_position)
    };
    let (width, height) = if is_row {
        (item.main_size, item.cross_size)
    } else {
        (item.cross_size, item.main_size)
    };
    let b = item.resolved_box;
    let content_size = Size::new(
        width.saturating_sub(b.border.horizontal()).saturating_sub(b.padding.horizontal()),
        height.saturating_sub(b.border.horizontal()).saturating_sub(b.padding.vertical()),
    );
    Layout {
        order: 0,
        location: Point::new(x, y),
        scrollbar_size: Size::zero(),
        resolved_box: ResolvedBox {
            content_size,
            margin: b.margin,
            border: b.border,
            padding: b.padding,
        },
    }
}

/// The largest main size of the lines, or zero for none.
pub open spec fn spec_total_main_size<N: Copy>(lines: Seq<FlexLine<N>>, gap: u16) -> u16
    decreases lines.len(),
{
    if lines.len() == 0 {
        0
    } else {
        let rest = spec_total_main_size(lines.drop_last(), gap);
        let last = spec_line_main_size(lines.last().items@, gap);
        if rest < last {
            last
        } else {
            rest
        }
    }
}

/// The main size of a flex container's content: that of its longest line.
pub fn total_main_size<N: Copy>(lines: &Vec<FlexLine<N>>, gap: u16) -> (r: u16)
    requires
        forall|k: int| 0 <= k < lines@.len() ==> main_sums_fit(#[trigger] lines@[k].items@),
    ensures
        r == spec_total_main_size(lines@, gap),
{
    let mut best: u16 = 0;
    let mut i: usize = 0;
    while i < lines.len()
        invariant
            i <= lines@.len(),
            forall|k: int| 0 <= k < lines@.len() ==> main_sums_fit(#[trigger] lines@[k].items@),
            best == spec_total_main_size(lines@.take(i as int), gap),
        decreases lines@.len() - i,
    {
        let size = line_main_size(&lines[i], gap);
        proof {
            assert(lines@.take(i as int + 1).drop_last() =~= lines@.take(i as int));
        }
        if best < size {
            best = size;
        }
        i = i + 1;
    }
    proof {
        assert(lines@.take(lines@.len() as int) =~= lines@);
    }
    best
}

/// Reverses the order of the items, for a reversed direction.
pub fn reverse_items<N: Copy>(items: &mut Vec<FlexItem<N>>)
    ensures
        final(items)@ == old(items)@.reverse(),
{
    let mut out: Vec<FlexItem<N>> = Vec::new();
    let ghost orig = items@;
    while items.len() > 0
        invariant
            items@ == orig.take(items@.len() as int),
            out@ == orig.skip(items@.len() as int).reverse(),
            items@.len() <= orig.len(),
        decreases items@.len(),
    {
        let ghost n = items@.len() as int;
        let item = items.pop().unwrap();
        proof {
            assert(item == orig[n - 1]);
        }
        out.push(item);
        proof {
            assert(items@ =~= orig.take(n - 1));
            assert(out@ =~= orig.skip(n - 1).reverse());
        }
    }
    proof {
        assert(orig.skip(0) =~= orig);
    }
    *items = out;
}

} // verus!
