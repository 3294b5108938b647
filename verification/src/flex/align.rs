use vstd::prelude::*;

use crate::flex::arith::{gaps_between, saturating_mul, sum_cells, sum_u16};
use crate::flex::item::{outer_main_sizes, outer_mains, FlexItem, FlexLine};
use crate::keywords::{AlignItems, JustifyContent};

verus! {

/// Where the first item starts and how much space follows each item, for
/// `justify-content` with `free` cells left over among `n` items and a
/// `gap` between them.
pub open spec fn justify_offsets(jc: JustifyContent, free: u16, gap: u16, n: int) -> (u16, u16) {
    match jc {
        JustifyContent::FlexStart | JustifyContent::Start | JustifyContent::Stretch => (0u16, gap),
        JustifyContent::FlexEnd | JustifyContent::End => (free, gap),
        JustifyContent::Center => (free / 2, gap),
        JustifyContent::SpaceBetween => if n == 1 {
            (0u16, 0u16)
        } else {
            (0u16, (free / ((n - 1) as u16)).saturating_add(gap))
        },
        JustifyContent::SpaceAround => if n == 1 {
            (free / 2, 0u16)
        } else {
            let per = free / (n as u16);
            (per / 2, per.saturating_add(gap))
        },
        JustifyContent::SpaceEvenly => {
            let per = free / ((n + 1) as u16);
            (per, per.saturating_add(gap))
        },
    }
}

/// The main-axis cursor before item `i`: the start offset, then for each
/// earlier item its outer main size and the space after it, saturating.
pub open spec fn main_cursor<N: Copy>(
    items: Seq<FlexItem<N>>,
    start: u16,
    between: u16,
    i: int,
) -> u16
    decreases i,
{
    if i <= 0 {
        start
    } else {
        main_cursor(items, start, between, i - 1).saturating_add(
            items[i - 1].spec_outer_main_size(),
        ).saturating_add(between)
    }
}

/// The items of a line once placed along the main axis: each one's main
/// position is the cursor plus its left margin; nothing else changes.
pub open spec fn justified<N: Copy>(items: Seq<FlexItem<N>>, start: u16, between: u16) -> Seq<
    FlexItem<N>,
> {
    Seq::new(
        items.len(),
        |i: int|
            FlexItem {
                main_position: main_cursor(items, start, between, i).saturating_add(
                    items[i].margin.left,
                ),
                ..items[i]
            },
    )
}

/// The free main-axis space of a line: what is left of `available` after
/// the items' outer main sizes and the gaps.
pub open spec fn main_free_space<N: Copy>(items: Seq<FlexItem<N>>, available: u16, gap: u16) -> u16 {
    available.saturating_sub(sum_u16(outer_mains(items)) as u16).saturating_sub(
        gaps_between(gap, items.len() as int),
    )
}

/// What `justify_line` makes of a line's items.
pub open spec fn spec_justify_line<N: Copy>(
    items: Seq<FlexItem<N>>,
    available: u16,
    jc: JustifyContent,
    gap: u16,
) -> Seq<FlexItem<N>> {
    let free = main_free_space(items, available, gap);
    let (start, between) = justify_offsets(jc, free, gap, items.len() as int);
    justified(items, start, between)
}

/// What the functions below ask of a line: outer main sizes that add up
/// to a `u16`.
pub open spec fn main_sums_fit<N: Copy>(items: Seq<FlexItem<N>>) -> bool {
    sum_u16(outer_mains(items)) <= u16::MAX
}

/// Whether the item count `n`, taken as a `u16`, leaves no division by
/// zero in spreading the free space for `jc` (and, for `space-evenly`, one
/// more than the count fits a `usize`).
pub open spec fn justify_divides(jc: JustifyContent, n: int) -> bool {
    match jc {
        JustifyContent::SpaceBetween => n > 1 ==> ((n - 1) as u16) != 0,
        JustifyContent::SpaceAround => n > 1 ==> (n as u16) != 0,
        JustifyContent::SpaceEvenly => n > 0 ==> n < usize::MAX && ((n + 1) as u16) != 0,
        _ => true,
    }
}

/// Position items along the main axis of a single line, for
/// `justify-content` and the gap between items.
pub fn justify_line<N: Copy>(
    line: &mut FlexLine<N>,
    available_main: u16,
    justify_content: JustifyContent,
    gap: u16,
)
    requires
        main_sums_fit(old(line).items@),
        justify_divides(justify_content, old(line).items@.len() as int),
    ensures
        final(line).items@ == spec_justify_line(
            old(line).items@,
            available_main,
            justify_content,
            gap,
        ),
        final(line).cross_size == old(line).cross_size,
        final(line).cross_position == old(line).cross_position,
{
    let n = line.items.len();
    if n == 0 {
        assert(line.items@ =~= spec_justify_line(
            line.items@,
            available_main,
            justify_content,
            gap,
        ));
        return ;
    }
    let ghost old_items = line.items@;
    let ghost old_cross = (line.cross_size, line.cross_position);
    let sizes = outer_main_sizes(&line.items);
    let total = sum_cells(&sizes);
    let total_gaps = if n <= 1 {
        0
    } else {
        saturating_mul(gap, (n - 1) as u16)
    };
    let free = available_main.saturating_sub(total).saturating_sub(total_gaps);
    let (start, between): (u16, u16) = match justify_content {
        JustifyContent::FlexStart | JustifyContent::Start | JustifyContent::Stretch => (0, gap),
        JustifyContent::FlexEnd | JustifyContent::End => (free, gap),
        JustifyContent::Center => (free / 2, gap),
        JustifyContent::SpaceBetween => {
            if n == 1 {
                (0, 0)
            } else {
                let b = free / ((n - 1) as u16);
                (0, b.saturating_add(gap))
            }
        },
        JustifyContent::SpaceAround => {
            if n == 1 {
                (free / 2, 0)
            } else {
                let per = free / (n as u16);
                (per / 2, per.saturating_add(gap))
            }
        },
        JustifyContent::SpaceEvenly => {
            let per = free / ((n + 1) as u16);
            (per, per.saturating_add(gap))
        },
    };
    assert((start, between) == justify_offsets(justify_content, free, gap, n as int));
    let mut position = start;
    let mut i: usize = 0;
    while i < n
        invariant
            n == old_items.len(),
            line.items@.len() == n,
            i <= n,
            position == main_cursor(old_items, start, between, i as int),
            (line.cross_size, line.cross_position) == old_cross,
            forall|j: int| 0 <= j < i ==> line.items@[j] == justified(old_items, start, between)[j],
            forall|j: int| i <= j < n ==> line.items@[j] == old_items[j],
        decreases n - i,
    {
        let item = line.items[i];
        let placed = FlexItem { main_position: position.saturating_add(item.margin.left), ..item };
        position = position.saturating_add(item.outer_main_size()).saturating_add(between);
        line.items.set(i, placed);
        i = i + 1;
    }
    assert(line.items@ =~= justified(old_items, start, between));
}

/// Position items along the main axis within each line.
pub fn justify_items<N: Copy>(
    lines: &mut Vec<FlexLine<N>>,
    available_main: u16,
    justify_content: JustifyContent,
    gap: u16,
)
    requires
        forall|k: int| 0 <= k < old(lines)@.len() ==> main_sums_fit(#[trigger] old(lines)@[k].items@),
        forall|k: int|
            0 <= k < old(lines)@.len() ==> justify_divides(
                justify_content,
                (#[trigger] old(lines)@[k]).items@.len() as int,
            ),
    ensures
        final(lines)@.len() == old(lines)@.len(),
        forall|k: int|
            0 <= k < old(lines)@.len() ==> {
                &&& (#[trigger] final(lines)@[k]).items@ == spec_justify_line(
                    old(lines)@[k].items@,
                    available_main,
                    justify_content,
                    gap,
                )
                &&& final(lines)@[k].cross_size == old(lines)@[k].cross_size
                &&& final(lines)@[k].cross_position == old(lines)@[k].cross_position
            },
{
    let ghost old_lines = lines@;
    let mut rest: Vec<FlexLine<N>> = Vec::new();
    std::mem::swap(lines, &mut rest);
    let ghost m = old_lines.len();
    while rest.len() > 0
        invariant
            lines@.len() + rest@.len() == m,
            m == old_lines.len(),
            forall|j: int| 0 <= j < rest@.len() ==> rest@[j] == old_lines[lines@.len() + j],
            forall|k: int|
                0 <= k < old_lines.len() ==> main_sums_fit(#[trigger] old_lines[k].items@),
            forall|k: int|
                0 <= k < old_lines.len() ==> justify_divides(
                    justify_content,
                    (#[trigger] old_lines[k]).items@.len() as int,
                ),
            forall|k: int|
                0 <= k < lines@.len() ==> {
                    &&& (#[trigger] lines@[k]).items@ == spec_justify_line(
                        old_lines[k].items@,
                        available_main,
                        justify_content,
                        gap,
                    )
                    &&& lines@[k].cross_size == old_lines[k].cross_size
                    &&& lines@[k].cross_position == old_lines[k].cross_position
                },
        decreases rest@.len(),
    {
        let ghost k = lines@.len() as int;
        let mut line = rest.remove(0);
        assert(line == old_lines[k]);
        justify_line(&mut line, available_main, justify_content, gap);
        lines.push(line);
        assert forall|j: int| 0 <= j < rest@.len() implies rest@[j] == old_lines[lines@.len() + j] by {
        }
    }
}

/// What aligning gives one item of a line with the given cross size and
/// position: `align-self` (or the container's `align-items`) decides the
/// offset into the free cross space; `stretch` also fills the line.
pub open spec fn aligned<N: Copy>(
    item: FlexItem<N>,
    line_cross_size: u16,
    line_cross_position: u16,
    default_align: AlignItems,
) -> FlexItem<N> {
    let align = item.align_self.spec_resolve(default_align);
    let free = line_cross_size.saturating_sub(item.spec_outer_cross_size());
    let offset: u16 = match align {
        AlignItems::FlexStart | AlignItems::Start | AlignItems::Baseline => 0,
        AlignItems::FlexEnd | AlignItems::End => free,
        AlignItems::Center => free / 2,
        AlignItems::Stretch => 0,
    };
    let cross_size = if align == AlignItems::Stretch {
        line_cross_size.saturating_sub(item.margin.top).saturating_sub(item.margin.bottom)
    } else {
        item.cross_size
    };
    FlexItem {
        cross_size: cross_size,
        cross_position: line_cross_position.saturating_add(offset).saturating_add(
            item.margin.top,
        ),
        ..item
    }
}

/// Position items along the cross axis of a single line.
pub fn align_line<N: Copy>(line: &mut FlexLine<N>, default_align: AlignItems)
    ensures
        final(line).items@.len() == old(line).items@.len(),
        forall|i: int|
            0 <= i < old(line).items@.len() ==> final(line).items@[i] == aligned(
                old(line).items@[i],
                old(line).cross_size,
                old(line).cross_position,
                default_align,
            ),
        final(line).cross_size == old(line).cross_size,
        final(line).cross_position == old(line).cross_position,
{
    let ghost old_items = line.items@;
    let line_cross_size = line.cross_size;
    let line_cross_position = line.cross_position;
    let n = line.items.len();
    let mut i: usize = 0;
    while i < n
        invariant
            n == old_items.len(),
            line.items@.len() == n,
            line.cross_size == line_cross_size,
            line.cross_position == line_cross_position,
            i <= n,
            forall|j: int|
                0 <= j < i ==> line.items@[j] == aligned(
                    old_items[j],
                    line_cross_size,
                    line_cross_position,
                    default_align,
                ),
            forall|j: int| i <= j < n ==> line.items@[j] == old_items[j],
        decreases n - i,
    {
        let item = line.items[i];
        let align = item.align_self.resolve(default_align);
        let free = line_cross_size.saturating_sub(item.outer_cross_size());
        let mut cross_size = item.cross_size;
        let offset: u16 = match align {
            AlignItems::FlexStart | AlignItems::Start | AlignItems::Baseline => 0,
            AlignItems::FlexEnd | AlignItems::End => free,
            AlignItems::Center => free / 2,
            AlignItems::Stretch => {
                cross_size =
                    line_cross_size.saturating_sub(item.margin.top).saturating_sub(
                        item.margin.bottom,
                    );
                0
            },
        };
        let placed = FlexItem {
            cross_size,
            cross_position: line_cross_position.saturating_add(offset).saturating_add(
                item.margin.top,
            ),
            ..item
        };
        line.items.set(i, placed);
        i = i + 1;
    }
}

/// Position items along the cross axis within each line.
pub fn align_items<N: Copy>(lines: &mut Vec<FlexLine<N>>, align_items: AlignItems)
    ensures
        final(lines)@.len() == old(lines)@.len(),
        forall|k: int|
            0 <= k < old(lines)@.len() ==> {
                &&& (#[trigger] final(lines)@[k]).items@.len() == old(lines)@[k].items@.len()
                &&& forall|i: int|
                    0 <= i < old(lines)@[k].items@.len() ==> final(lines)@[k].items@[i] == aligned(
                        old(lines)@[k].items@[i],
                        old(lines)@[k].cross_size,
                        old(lines)@[k].cross_position,
                        align_items,
                    )
                &&& final(lines)@[k].cross_size == old(lines)@[k].cross_size
                &&& final(lines)@[k].cross_position == old(lines)@[k].cross_position
            },
{
    let ghost old_lines = lines@;
    let mut rest: Vec<FlexLine<N>> = Vec::new();
    std::mem::swap(lines, &mut rest);
    let ghost m = old_lines.len();
    while rest.len() > 0
        invariant
            lines@.len() + rest@.len() == m,
            m == old_lines.len(),
            forall|j: int| 0 <= j < rest@.len() ==> rest@[j] == old_lines[lines@.len() + j],
            forall|k: int|
                0 <= k < lines@.len() ==> {
                    &&& (#[trigger] lines@[k]).items@.len() == old_lines[k].items@.len()
                    &&& forall|i: int|
                        0 <= i < old_lines[k].items@.len() ==> lines@[k].items@[i] == aligned(
                            old_lines[k].items@[i],
                            old_lines[k].cross_size,
                            old_lines[k].cross_position,
                            align_items,
                        )
                    &&& lines@[k].cross_size == old_lines[k].cross_size
                    &&& lines@[k].cross_position == old_lines[k].cross_position
                },
        decreases rest@.len(),
    {
        let ghost k = lines@.len() as int;
        let mut line = rest.remove(0);
        assert(line == old_lines[k]);
        align_line(&mut line, align_items);
        lines.push(line);
        assert forall|j: int| 0 <= j < rest@.len() implies rest@[j] == old_lines[lines@.len() + j] by {
        }
    }
}

/// The main size a line takes: its items' outer main sizes plus the gaps
/// (zero for an empty line).
pub open spec fn spec_line_main_size<N: Copy>(items: Seq<FlexItem<N>>, gap: u16) -> u16 {
    if items.len() == 0 {
        0
    } else {
        (sum_u16(outer_mains(items)) as u16).saturating_add(gaps_between(gap, items.len() as int))
    }
}

/// Total main size used by a line (including gaps).
pub fn line_main_size<N: Copy>(line: &FlexLine<N>, gap: u16) -> (r: u16)
    requires
        main_sums_fit(line.items@),
    ensures
        r == spec_line_main_size(line.items@, gap),
{
    let n = line.items.len();
    if n == 0 {
        return 0;
    }
    let sizes = outer_main_sizes(&line.items);
    let items_size = sum_cells(&sizes);
    let gaps = if n <= 1 {
        0
    } else {
        saturating_mul(gap, (n - 1) as u16)
    };
    items_size.saturating_add(gaps)
}

/// Whether `justify_line` can spread the free space of `n` items for
/// `justify_content`: `justify_divides`.
pub fn can_justify(justify_content: JustifyContent, n: usize) -> (r: bool)
    ensures
        r == justify_divides(justify_content, n as int),
{
    match justify_content {
        JustifyContent::SpaceBetween => n <= 1 || ((n - 1) as u16) != 0,
        JustifyContent::SpaceAround => n <= 1 || (n as u16) != 0,
        JustifyContent::SpaceEvenly => n == 0 || (n < usize::MAX && ((n + 1) as u16) != 0),
        _ => true,
    }
}

/// Every `justify-content` leaves at least the gap between two items of a
/// line (of the item counts that `justify_line` takes): the space after
/// each item is no smaller than `gap`.
pub proof fn lemma_justify_space_at_least_gap(jc: JustifyContent, free: u16, gap: u16, n: int)
    requires
        n >= 2,
        justify_divides(jc, n),
    ensures
        justify_offsets(jc, free, gap, n).1 >= gap,
{
    match jc {
        JustifyContent::SpaceBetween => {
            let b = free / ((n - 1) as u16);
            assert(b.saturating_add(gap) >= gap);
        },
        JustifyContent::SpaceAround => {
            let per = free / (n as u16);
            assert(per.saturating_add(gap) >= gap);
        },
        JustifyContent::SpaceEvenly => {
            let per = free / ((n + 1) as u16);
            assert(per.saturating_add(gap) >= gap);
        },
        _ => {},
    }
}

/// On a line placed by `justify_line`, whatever the `justify-content`,
/// item `i + 1` starts (before its left margin) at least item `i`'s outer
/// main size and the gap after item `i` starts (before its left margin),
/// where its position did not run into the largest `u16` (for the lines
/// that `justify_line` takes).
pub proof fn lemma_justify_keeps_gap<N: Copy>(
    items: Seq<FlexItem<N>>,
    available: u16,
    jc: JustifyContent,
    gap: u16,
    i: int,
)
    requires
        0 <= i,
        i + 1 < items.len(),
        justify_divides(jc, items.len() as int),
        spec_justify_line(items, available, jc, gap)[i + 1].main_position < u16::MAX,
    ensures
        spec_justify_line(items, available, jc, gap)[i + 1].main_position as int
            - items[i + 1].margin.left as int >= spec_justify_line(items, available, jc, gap)[i].main_position
            as int - items[i].margin.left as int + items[i].spec_outer_main_size() as int + gap as int,
{
    let free = main_free_space(items, available, gap);
    let (start, between) = justify_offsets(jc, free, gap, items.len() as int);
    lemma_justify_space_at_least_gap(jc, free, gap, items.len() as int);
    let r = spec_justify_line(items, available, jc, gap);
    assert(r == justified(items, start, between));
    let c0 = main_cursor(items, start, between, i);
    let c1 = main_cursor(items, start, between, i + 1);
    assert(c1 == c0.saturating_add(items[i].spec_outer_main_size()).saturating_add(between));
    assert(r[i].main_position == c0.saturating_add(items[i].margin.left));
    assert(r[i + 1].main_position == c1.saturating_add(items[i + 1].margin.left));
}


} // verus!
