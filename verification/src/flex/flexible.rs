use vstd::prelude::*;

use crate::flex::arith::{gaps_between, saturating_mul, spec_saturating_mul, sum_cells, sum_u16};
use crate::flex::item::{outer_hypothetical_sizes, outer_hypotheticals, FlexItem, FlexLine};

verus! {

/// The space a line has left for its items to grow into (positive) or
/// the amount by which they overflow it (negative): the main size less
/// the gaps, less the items' outer hypothetical sizes.
pub open spec fn spec_free_space<N: Copy>(items: Seq<FlexItem<N>>, available_main: u16, gap: u16) -> int {
    available_main.saturating_sub(gaps_between(gap, items.len() as int)) - sum_u16(
        outer_hypotheticals(items),
    )
}

/// The free space of a line, as `spec_free_space` says.
pub fn free_space<N: Copy>(line: &FlexLine<N>, available_main: u16, gap: u16) -> (r: i32)
    requires
        line.items@.len() > 0,
        sum_u16(outer_hypotheticals(line.items@)) <= u16::MAX,
    ensures
        r == spec_free_space(line.items@, available_main, gap),
{
    let n = line.items.len();
    let total_gap = saturating_mul(gap, ((n - 1) as u16));
    proof {
        if n == 1 {
            assert(gap * 0 == 0) by (nonlinear_arith);
        }
    }
    let available_for_items = available_main.saturating_sub(total_gap);
    let hypotheticals = outer_hypothetical_sizes(&line.items);
    let total = sum_cells(&hypotheticals);
    available_for_items as i32 - total as i32
}

/// Grows an unfrozen item by `amount` cells from its hypothetical size; an
/// item that reaches its maximum stops there and is frozen, and the space
/// it used is returned.
pub fn grow_item<N: Copy>(item: &mut FlexItem<N>, amount: u16) -> (used: Option<u16>)
    ensures
        ({
            let new_size = old(item).hypothetical_main_size.saturating_add(amount);
            match old(item).max_main_size {
                Some(m) if new_size >= m => {
                    &&& *final(item) == (FlexItem { main_size: m, frozen: true, ..*old(item) })
                    &&& used == Some(m.saturating_sub(old(item).hypothetical_main_size))
                },
                _ => {
                    &&& *final(item) == (FlexItem { main_size: new_size, ..*old(item) })
                    &&& used is None
                },
            }
        }),
{
    let new_size = item.hypothetical_main_size.saturating_add(amount);
    match item.max_main_size {
        Some(m) => {
            if new_size >= m {
                item.main_size = m;
                item.frozen = true;
                return Some(m.saturating_sub(item.hypothetical_main_size));
            }
        },
        None => {},
    }
    item.main_size = new_size;
    None
}

/// Shrinks an unfrozen item by `amount` cells from its hypothetical size;
/// an item that reaches its minimum stops there and is frozen, and the
/// amount it shrank is returned.
pub fn shrink_item<N: Copy>(item: &mut FlexItem<N>, amount: u16) -> (shrunk: Option<u16>)
    ensures
        ({
            let new_size = old(item).hypothetical_main_size.saturating_sub(amount);
            if new_size <= old(item).min_main_size {
                &&& *final(item) == (FlexItem {
                    main_size: old(item).min_main_size,
                    frozen: true,
                    ..*old(item)
                })
                &&& shrunk == Some(
                    old(item).hypothetical_main_size.saturating_sub(old(item).min_main_size),
                )
            } else {
                &&& *final(item) == (FlexItem { main_size: new_size, ..*old(item) })
                &&& shrunk is None
            }
        }),
{
    let new_size = item.hypothetical_main_size.saturating_sub(amount);
    if new_size <= item.min_main_size {
        item.main_size = item.min_main_size;
        item.frozen = true;
        return Some(item.hypothetical_main_size.saturating_sub(item.min_main_size));
    }
    item.main_size = new_size;
    None
}

/// Freezes every item not frozen yet; with `reset`, such an item also goes
/// back to its hypothetical size.
pub fn freeze_unfrozen<N: Copy>(line: &mut FlexLine<N>, reset: bool)
    ensures
        final(line).items@.len() == old(line).items@.len(),
        final(line).cross_size == old(line).cross_size,
        final(line).cross_position == old(line).cross_position,
        forall|k: int|
            0 <= k < old(line).items@.len() ==> #[trigger] final(line).items@[k] == if old(
                line,
            ).items@[k].frozen {
                old(line).items@[k]
            } else if reset {
                FlexItem {
                    main_size: old(line).items@[k].hypothetical_main_size,
                    frozen: true,
                    ..old(line).items@[k]
                }
            } else {
                FlexItem { frozen: true, ..old(line).items@[k] }
            },
{
    let ghost old_items = line.items@;
    let mut i: usize = 0;
    while i < line.items.len()
        invariant
            i <= line.items@.len(),
            line.items@.len() == old_items.len(),
            line.cross_size == old(line).cross_size,
            line.cross_position == old(line).cross_position,
            old_items == old(line).items@,
            forall|k: int| i <= k < old_items.len() ==> #[trigger] line.items@[k] == old_items[k],
            forall|k: int|
                0 <= k < i ==> #[trigger] line.items@[k] == if old_items[k].frozen {
                    old_items[k]
                } else if reset {
                    FlexItem {
                        main_size: old_items[k].hypothetical_main_size,
                        frozen: true,
                        ..old_items[k]
                    }
                } else {
                    FlexItem { frozen: true, ..old_items[k] }
                },
        decreases old_items.len() - i,
    {
        let mut item = line.items[i];
        if !item.frozen {
            if reset {
                item.main_size = item.hypothetical_main_size;
            }
            item.frozen = true;
        }
        line.items.set(i, item);
        i = i + 1;
    }
}

} // verus!
