use vstd::prelude::*;

use crate::flex::arith::{gaps_between, saturating_mul, sum_cells, sum_u16};
use crate::flex::item::{line_cross_sizes, line_crosses, FlexLine};
use crate::keywords::AlignContent;

verus! {

/// Where the first line starts and how much space follows each line, for
/// `align-content` with `free` cells left over among `n` lines and a `gap`
/// between them.
pub open spec fn content_offsets(ac: AlignContent, free: u16, gap: u16, n: int) -> (u16, u16) {
    match ac {
        AlignContent::FlexStart | AlignContent::Start | AlignContent::Stretch => (0u16, gap),
        AlignContent::FlexEnd | AlignContent::End => (free, gap),
        AlignContent::Center => (free / 2, gap),
        AlignContent::SpaceBetween => if n == 1 {
            (0u16, 0u16)
        } else {
            (0u16, (free / ((n - 1) as u16)).saturating_add(gap))
        },
        AlignContent::SpaceAround => if n == 1 {
            (free / 2, 0u16)
        } else {
            let per = free / (n as u16);
            (per / 2, per.saturating_add(gap))
        },
        AlignContent::SpaceEvenly => {
            let per = free / ((n + 1) as u16);
            (per, per.saturating_add(gap))
        },
    }
}

/// The cross-axis cursor before line `i`, over the lines' final cross sizes.
pub open spec fn cross_cursor(sizes: Seq<u16>, start: u16, between: u16, i: int) -> u16
    decreases i,
{
    if i <= 0 {
        start
    } else {
        cross_cursor(sizes, start, between, i - 1).saturating_add(sizes[i - 1]).saturating_add(
            between,
        )
    }
}

/// The free cross-axis space: what is left of `available` after the lines'
/// cross sizes and the gaps.
pub open spec fn cross_free_space(sizes: Seq<u16>, available: u16, gap: u16) -> u16 {
    available.saturating_sub(sum_u16(sizes) as u16).saturating_sub(
        gaps_between(gap, sizes.len() as int),
    )
}

/// The cross sizes of the lines after `align-content`: with `stretch`, each
/// line gets an equal share of the free space (rounded down).
pub open spec fn stretched_sizes(sizes: Seq<u16>, available: u16, ac: AlignContent, gap: u16) -> Seq<
    u16,
> {
    let free = cross_free_space(sizes, available, gap);
    if ac == AlignContent::Stretch && free > 0 {
        Seq::new(sizes.len(), |i: int| sizes[i].saturating_add(free / (sizes.len() as u16)))
    } else {
        sizes
    }
}

/// The cross position of line `i` after `align-content`.
pub open spec fn spec_line_cross_position(
    sizes: Seq<u16>,
    available: u16,
    ac: AlignContent,
    gap: u16,
    i: int,
) -> u16 {
    let free = cross_free_space(sizes, available, gap);
    let (start, between) = content_offsets(ac, free, gap, sizes.len() as int);
    cross_cursor(stretched_sizes(sizes, available, ac, gap), start, between, i)
}

/// What the cross-axis functions ask of the lines: cross sizes that add
/// up to a `u16`.
pub open spec fn cross_sums_fit(sizes: Seq<u16>) -> bool {
    sum_u16(sizes) <= u16::MAX
}

/// Whether the line count, taken as a `u16`, leaves no division by zero in
/// spreading the free space for `ac` (and, for `space-evenly`, one more
/// than the count fits a `usize`).
pub open spec fn content_divides(sizes: Seq<u16>, available: u16, ac: AlignContent, gap: u16) -> bool {
    let n = sizes.len() as int;
    match ac {
        AlignContent::SpaceBetween => n > 1 ==> ((n - 1) as u16) != 0,
        AlignContent::SpaceAround => n > 1 ==> (n as u16) != 0,
        AlignContent::SpaceEvenly => n > 0 ==> n < usize::MAX && ((n + 1) as u16) != 0,
        AlignContent::Stretch => n > 0 && cross_free_space(sizes, available, gap) > 0 ==> (n as u16)
            != 0,
        _ => true,
    }
}

/// Resolve cross-axis sizes and line positions: distributes the lines along
/// the cross axis for `align-content` and sets each line's cross position.
pub fn resolve_cross_axis<N: Copy>(
    lines: &mut Vec<FlexLine<N>>,
    available_cross: u16,
    align_content: AlignContent,
    gap: u16,
)
    requires
        cross_sums_fit(line_crosses(old(lines)@)),
        content_divides(line_crosses(old(lines)@), available_cross, align_content, gap),
    ensures
        final(lines)@.len() == old(lines)@.len(),
        forall|k: int|
            0 <= k < old(lines)@.len() ==> {
                &&& (#[trigger] final(lines)@[k]).items@ == old(lines)@[k].items@
                &&& final(lines)@[k].cross_size == stretched_sizes(
                    line_crosses(old(lines)@),
                    available_cross,
                    align_content,
                    gap,
                )[k]
                &&& final(lines)@[k].cross_position == spec_line_cross_position(
                    line_crosses(old(lines)@),
                    available_cross,
                    align_content,
                    gap,
                    k,
                )
            },
{
    let n = lines.len();
    if n == 0 {
        return ;
    }
    let ghost old_lines = lines@;
    let ghost sizes0 = line_crosses(old_lines);
    let sizes = line_cross_sizes(lines);
    let total = sum_cells(&sizes);
    let total_gaps = if n <= 1 {
        0
    } else {
        saturating_mul(gap, (n - 1) as u16)
    };
    let free = available_cross.saturating_sub(total).saturating_sub(total_gaps);
    let extra: u16 = match align_content {
        AlignContent::Stretch => if free > 0 {
            free / (n as u16)
        } else {
            0
        },
        _ => 0,
    };
    let (start, between): (u16, u16) = match align_content {
        AlignContent::FlexStart | AlignContent::Start | AlignContent::Stretch => (0, gap),
        AlignContent::FlexEnd | AlignContent::End => (free, gap),
        AlignContent::Center => (free / 2, gap),
        AlignContent::SpaceBetween => {
            if n == 1 {
                (0, 0)
            } else {
                let b = free / ((n - 1) as u16);
                (0, b.saturating_add(gap))
            }
        },
        AlignContent::SpaceAround => {
            if n == 1 {
                (free / 2, 0)
            } else {
                let per = free / (n as u16);
                (per / 2, per.saturating_add(gap))
            }
        },
        AlignContent::SpaceEvenly => {
            let per = free / ((n + 1) as u16);
            (per, per.saturating_add(gap))
        },
    };
    let ghost final_sizes = stretched_sizes(sizes0, available_cross, align_content, gap);
    assert(free == cross_free_space(sizes0, available_cross, gap));
    assert((start, between) == content_offsets(align_content, free, gap, n as int));
    let mut rest: Vec<FlexLine<N>> = Vec::new();
    std::mem::swap(lines, &mut rest);
    let mut position = start;
    while rest.len() > 0
        invariant
            lines@.len() + rest@.len() == n,
            n == old_lines.len(),
            n == sizes0.len(),
            final_sizes.len() == n,
            sizes0 == line_crosses(old_lines),
            final_sizes == stretched_sizes(sizes0, available_cross, align_content, gap),
            forall|j: int| 0 <= j < n ==> final_sizes[j] == old_lines[j].cross_size.saturating_add(
                extra,
            ),
            position == cross_cursor(final_sizes, start, between, lines@.len() as int),
            forall|j: int| 0 <= j < rest@.len() ==> rest@[j] == old_lines[lines@.len() + j],
            forall|k: int|
                0 <= k < lines@.len() ==> {
                    &&& (#[trigger] lines@[k]).items@ == old_lines[k].items@
                    &&& lines@[k].cross_size == final_sizes[k]
                    &&& lines@[k].cross_position == cross_cursor(final_sizes, start, between, k)
                },
        decreases rest@.len(),
    {
        let ghost k = lines@.len() as int;
        let mut line = rest.remove(0);
        assert(line == old_lines[k]);
        line.cross_size = line.cross_size.saturating_add(extra);
        line.cross_position = position;
        position = position.saturating_add(line.cross_size).saturating_add(between);
        lines.push(line);
        assert forall|j: int| 0 <= j < rest@.len() implies rest@[j] == old_lines[lines@.len() + j] by {
        }
    }
}

/// The cross size taken by all lines: their cross sizes plus the gaps
/// (zero when there are no lines).
pub open spec fn spec_total_cross_size(sizes: Seq<u16>, gap: u16) -> u16 {
    if sizes.len() == 0 {
        0
    } else {
        (sum_u16(sizes) as u16).saturating_add(gaps_between(gap, sizes.len() as int))
    }
}

pub fn total_cross_size<N: Copy>(lines: &Vec<FlexLine<N>>, gap: u16) -> (r: u16)
    requires
        cross_sums_fit(line_crosses(lines@)),
    ensures
        r == spec_total_cross_size(line_crosses(lines@), gap),
{
    let n = lines.len();
    if n == 0 {
        return 0;
    }
    let sizes = line_cross_sizes(lines);
    let lines_size = sum_cells(&sizes);
    let gaps = if n <= 1 {
        0
    } else {
        saturating_mul(gap, (n - 1) as u16)
    };
    lines_size.saturating_add(gaps)
}

/// Whether `resolve_cross_axis` can spread the free space of these lines
/// for `align_content`: `content_divides`.
pub fn can_align_content<N: Copy>(
    lines: &Vec<FlexLine<N>>,
    available_cross: u16,
    align_content: AlignContent,
    gap: u16,
) -> (r: bool)
    requires
        cross_sums_fit(line_crosses(lines@)),
    ensures
        r == content_divides(line_crosses(lines@), available_cross, align_content, gap),
{
    let n = lines.len();
    match align_content {
        AlignContent::SpaceBetween => n <= 1 || ((n - 1) as u16) != 0,
        AlignContent::SpaceAround => n <= 1 || (n as u16) != 0,
        AlignContent::SpaceEvenly => n == 0 || (n < usize::MAX && ((n + 1) as u16) != 0),
        AlignContent::Stretch => {
            if n == 0 {
                return true;
            }
            let sizes = line_cross_sizes(lines);
            let total = sum_cells(&sizes);
            let total_gaps = if n <= 1 {
                0
            } else {
                saturating_mul(gap, (n - 1) as u16)
            };
            let free = available_cross.saturating_sub(total).saturating_sub(total_gaps);
            assert(free == cross_free_space(line_crosses(lines@), available_cross, gap));
            free == 0 || (n as u16) != 0
        },
        _ => true,
    }
}

} // verus!
