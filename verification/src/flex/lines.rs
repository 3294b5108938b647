use vstd::prelude::*;

use crate::flex::arith::{lemma_sum_nonneg, max_cells, max_u16, sum_u16};
use crate::flex::item::{outer_cross_sizes, outer_crosses, outer_hypotheticals, FlexItem, FlexLine};
use crate::keywords::FlexWrap;

verus! {

/// Where greedy line breaking stands after the first `i` items: the lines
/// closed so far, the items of the open line, and the main size the open
/// line uses (gaps included).
pub open spec fn wrap_state<N: Copy>(
    items: Seq<FlexItem<N>>,
    available: u16,
    gap: u16,
    i: int,
) -> (Seq<Seq<FlexItem<N>>>, Seq<FlexItem<N>>, u16)
    decreases i,
{
    if i <= 0 {
        (Seq::empty(), Seq::empty(), 0u16)
    } else {
        let (done, open, used) = wrap_state(items, available, gap, i - 1);
        let item = items[i - 1];
        let size = item.spec_outer_hypothetical_main_size();
        let needed = if open.len() == 0 {
            size
        } else {
            size.saturating_add(gap)
        };
        let fits = used.saturating_add(needed) <= available;
        if !fits && open.len() > 0 {
            (done.push(open), seq![item], size)
        } else {
            let used2 = if open.len() > 0 {
                used.saturating_add(gap)
            } else {
                used
            };
            (done, open.push(item), used2.saturating_add(size))
        }
    }
}

/// The lines that wrapping makes of `items`: an item goes on the open line
/// when its outer hypothetical main size (plus a gap, when the line is not
/// empty) still fits in `available`, and otherwise starts a new line.
pub open spec fn wrap_groups<N: Copy>(items: Seq<FlexItem<N>>, available: u16, gap: u16) -> Seq<
    Seq<FlexItem<N>>,
> {
    let (done, open, _) = wrap_state(items, available, gap, items.len() as int);
    if open.len() > 0 {
        done.push(open)
    } else {
        done
    }
}

/// The items of a sequence of lines, line after line.
pub open spec fn concat<N: Copy>(groups: Seq<Seq<FlexItem<N>>>) -> Seq<FlexItem<N>>
    decreases groups.len(),
{
    if groups.len() == 0 {
        Seq::empty()
    } else {
        concat(groups.drop_last()) + groups.last()
    }
}

/// A line as `collect_into_lines` leaves it: holding `group`, with the
/// largest outer cross size of its items as its cross size, at position 0.
pub open spec fn is_collected_line<N: Copy>(line: FlexLine<N>, group: Seq<FlexItem<N>>) -> bool {
    &&& line.items@ == group
    &&& line.cross_size == max_u16(outer_crosses(group))
    &&& line.cross_position == 0
}

/// The lines that `collect_into_lines` makes, as groups of items, in order.
pub open spec fn spec_line_groups<N: Copy>(
    items: Seq<FlexItem<N>>,
    available: u16,
    wrap: FlexWrap,
    gap: u16,
) -> Seq<Seq<FlexItem<N>>> {
    if items.len() == 0 {
        Seq::empty()
    } else {
        match wrap {
            FlexWrap::NoWrap => seq![items],
            FlexWrap::Wrap => wrap_groups(items, available, gap),
            FlexWrap::WrapReverse => wrap_groups(items, available, gap).reverse(),
        }
    }
}

/// Sets a line's cross size to the largest outer cross size of its items.
fn finalize_line<N: Copy>(line: &mut FlexLine<N>)
    ensures
        final(line).items@ == old(line).items@,
        final(line).cross_size == max_u16(outer_crosses(old(line).items@)),
        final(line).cross_position == old(line).cross_position,
{
    let sizes = outer_cross_sizes(&line.items);
    line.cross_size = max_cells(&sizes);
}

fn collect_no_wrap<N: Copy>(items: &[FlexItem<N>]) -> (lines: Vec<FlexLine<N>>)
    ensures
        lines@.len() == 1,
        is_collected_line(lines@[0], items@),
{
    let mut line = FlexLine::new();
    let mut i: usize = 0;
    while i < items.len()
        invariant
            i <= items@.len(),
            line.items@ == items@.take(i as int),
            line.cross_position == 0,
        decreases items@.len() - i,
    {
        line.items.push(items[i]);
        i = i + 1;
        assert(line.items@ =~= items@.take(i as int));
    }
    assert(items@.take(items@.len() as int) =~= items@);
    finalize_line(&mut line);
    let mut lines = Vec::new();
    lines.push(line);
    lines
}

fn collect_wrap<N: Copy>(items: &[FlexItem<N>], available_main: u16, gap: u16) -> (lines: Vec<
    FlexLine<N>,
>)
    ensures
        lines@.len() == wrap_groups(items@, available_main, gap).len(),
        forall|k: int|
            0 <= k < lines@.len() ==> is_collected_line(
                #[trigger] lines@[k],
                wrap_groups(items@, available_main, gap)[k],
            ),
{
    let mut lines: Vec<FlexLine<N>> = Vec::new();
    let mut current: FlexLine<N> = FlexLine::new();
    let mut line_main_size: u16 = 0;
    let mut i: usize = 0;
    while i < items.len()
        invariant
            i <= items@.len(),
            current.cross_position == 0,
            ({
                let (done, open, used) = wrap_state(items@, available_main, gap, i as int);
                &&& lines@.len() == done.len()
                &&& forall|k: int|
                    0 <= k < lines@.len() ==> is_collected_line(#[trigger] lines@[k], done[k])
                &&& current.items@ == open
                &&& line_main_size == used
            }),
        decreases items@.len() - i,
    {
        let item = items[i];
        let item_main_size = item.outer_hypothetical_main_size();
        let needed_space = if current.items.len() == 0 {
            item_main_size
        } else {
            item_main_size.saturating_add(gap)
        };
        let fits = line_main_size.saturating_add(needed_space) <= available_main;
        if !fits && current.items.len() > 0 {
            finalize_line(&mut current);
            let mut closed = FlexLine::new();
            std::mem::swap(&mut closed, &mut current);
            lines.push(closed);
            line_main_size = 0;
        }
        if current.items.len() > 0 {
            line_main_size = line_main_size.saturating_add(gap);
        }
        line_main_size = line_main_size.saturating_add(item_main_size);
        current.items.push(item);
        i = i + 1;
    }
    if current.items.len() > 0 {
        finalize_line(&mut current);
        lines.push(current);
    }
    lines
}

/// Collect flex items into lines based on wrap mode and available space.
pub fn collect_into_lines<N: Copy>(
    items: &[FlexItem<N>],
    available_main: u16,
    wrap: FlexWrap,
    gap: u16,
) -> (lines: Vec<FlexLine<N>>)
    ensures
        lines@.len() == spec_line_groups(items@, available_main, wrap, gap).len(),
        forall|k: int|
            0 <= k < lines@.len() ==> is_collected_line(
                #[trigger] lines@[k],
                spec_line_groups(items@, available_main, wrap, gap)[k],
            ),
{
    if items.len() == 0 {
        return Vec::new();
    }
    match wrap {
        FlexWrap::NoWrap => collect_no_wrap(items),
        FlexWrap::Wrap => collect_wrap(items, available_main, gap),
        FlexWrap::WrapReverse => {
            let mut forward = collect_wrap(items, available_main, gap);
            let ghost groups = wrap_groups(items@, available_main, gap);
            let ghost m = forward@.len();
            let mut reversed: Vec<FlexLine<N>> = Vec::new();
            while forward.len() > 0
                invariant
                    m == groups.len(),
                    forward@.len() + reversed@.len() == m,
                    forall|k: int|
                        0 <= k < forward@.len() ==> is_collected_line(
                            #[trigger] forward@[k],
                            groups[k],
                        ),
                    forall|k: int|
                        0 <= k < reversed@.len() ==> is_collected_line(
                            #[trigger] reversed@[k],
                            groups[m - 1 - k],
                        ),
                decreases forward@.len(),
            {
                let line = forward.pop().unwrap();
                reversed.push(line);
            }
            reversed
        },
    }
}

/// Wrapping keeps every item, in order: the lines, read one after another,
/// hold exactly the items, and no line is empty.
pub proof fn lemma_wrap_keeps_items<N: Copy>(items: Seq<FlexItem<N>>, available: u16, gap: u16)
    ensures
        concat(wrap_groups(items, available, gap)) == items,
        forall|k: int|
            0 <= k < wrap_groups(items, available, gap).len() ==> #[trigger] wrap_groups(
                items,
                available,
                gap,
            )[k].len() > 0,
{
    lemma_wrap_state_concat(items, available, gap, items.len() as int);
    let (done, open, _) = wrap_state(items, available, gap, items.len() as int);
    assert(items.take(items.len() as int) =~= items);
    if open.len() > 0 {
        let g = done.push(open);
        assert(g.drop_last() =~= done);
    } else {
        assert(concat(done) + open =~= concat(done));
    }
}

proof fn lemma_wrap_state_concat<N: Copy>(items: Seq<FlexItem<N>>, available: u16, gap: u16, i: int)
    requires
        0 <= i <= items.len(),
    ensures
        ({
            let (done, open, _) = wrap_state(items, available, gap, i);
            &&& concat(done) + open == items.take(i)
            &&& forall|k: int| 0 <= k < done.len() ==> #[trigger] done[k].len() > 0
            &&& i > 0 ==> open.len() > 0
        }),
    decreases i,
{
    if i > 0 {
        lemma_wrap_state_concat(items, available, gap, i - 1);
        let (done, open, used) = wrap_state(items, available, gap, i - 1);
        let item = items[i - 1];
        let size = item.spec_outer_hypothetical_main_size();
        let needed = if open.len() == 0 {
            size
        } else {
            size.saturating_add(gap)
        };
        let fits = used.saturating_add(needed) <= available;
        assert(items.take(i) =~= items.take(i - 1).push(item));
        if !fits && open.len() > 0 {
            let d2 = done.push(open);
            assert(d2.drop_last() =~= done);
            assert(concat(d2) + seq![item] =~= concat(done) + open + seq![item]);
        } else {
            assert(concat(done) + open.push(item) =~= concat(done) + open + seq![item]);
        }
    }
}

/// Without wrapping, all items go on one line; with `wrap-reverse`, the lines
/// are those of `wrap`, last first.
pub proof fn lemma_line_groups_shape<N: Copy>(
    items: Seq<FlexItem<N>>,
    available: u16,
    gap: u16,
)
    requires
        items.len() > 0,
    ensures
        concat(spec_line_groups(items, available, FlexWrap::NoWrap, gap)) == items,
        concat(spec_line_groups(items, available, FlexWrap::Wrap, gap)) == items,
        spec_line_groups(items, available, FlexWrap::WrapReverse, gap).reverse()
            == spec_line_groups(items, available, FlexWrap::Wrap, gap),
{
    lemma_wrap_keeps_items(items, available, gap);
    let g = seq![items];
    assert(g.drop_last() =~= Seq::<Seq<FlexItem<N>>>::empty());
    assert(concat(Seq::<Seq<FlexItem<N>>>::empty()) =~= Seq::<FlexItem<N>>::empty());
    assert(concat(g) =~= items);
    let w = wrap_groups(items, available, gap);
    assert(w.reverse().reverse() =~= w);
}

/// A count of cells as a saturating `u16` sum gives it: capped at the
/// largest `u16`.
pub open spec fn capped(x: int) -> int {
    if x > u16::MAX {
        u16::MAX as int
    } else {
        x
    }
}

/// The main size a line of the items `g` takes when wrapping: their outer
/// hypothetical main sizes, and a gap between each two.
pub open spec fn line_extent<N: Copy>(g: Seq<FlexItem<N>>, gap: u16) -> int {
    sum_u16(outer_hypotheticals(g)) + gap as int * (g.len() - 1)
}

/// The first item after the closed line `k`: the first of the next closed
/// line, or of the open line.
pub open spec fn next_first<N: Copy>(
    done: Seq<Seq<FlexItem<N>>>,
    open: Seq<FlexItem<N>>,
    k: int,
) -> FlexItem<N> {
    if k + 1 < done.len() {
        done[k + 1][0]
    } else {
        open[0]
    }
}

proof fn lemma_capped_sum(a: int, b: int)
    requires
        0 <= a,
        0 <= b,
    ensures
        capped(capped(a) + capped(b)) == capped(a + b),
{
}

proof fn lemma_extent_one<N: Copy>(x: FlexItem<N>, gap: u16)
    ensures
        line_extent(Seq::<FlexItem<N>>::empty().push(x), gap) == x.spec_outer_hypothetical_main_size(),
{
    let one = Seq::<FlexItem<N>>::empty().push(x);
    let h = outer_hypotheticals(one);
    assert(h.drop_last() =~= Seq::<u16>::empty());
    assert(h.last() == x.spec_outer_hypothetical_main_size());
    assert(sum_u16(h) == sum_u16(h.drop_last()) + h.last());
    assert(gap as int * 0 == 0);
}

proof fn lemma_extent_push<N: Copy>(g: Seq<FlexItem<N>>, x: FlexItem<N>, gap: u16)
    requires
        g.len() >= 1,
    ensures
        line_extent(g.push(x), gap) == line_extent(g, gap) + gap + x.spec_outer_hypothetical_main_size(),
        line_extent(g, gap) >= 0,
{
    assert(outer_hypotheticals(g.push(x)) =~= outer_hypotheticals(g).push(
        x.spec_outer_hypothetical_main_size(),
    ));
    assert(outer_hypotheticals(g.push(x)).drop_last() =~= outer_hypotheticals(g));
    let n = g.len() as int;
    let gg = gap as int;
    assert(gg * n == gg * (n - 1) + gg) by (nonlinear_arith);
    assert(gg * (n - 1) >= 0) by (nonlinear_arith)
        requires
            gg >= 0,
            n >= 1,
    ;
    lemma_sum_nonneg(outer_hypotheticals(g));
}

proof fn lemma_wrap_state_fit<N: Copy>(items: Seq<FlexItem<N>>, available: u16, gap: u16, i: int)
    requires
        1 <= i <= items.len(),
    ensures
        ({
            let (done, open, used) = wrap_state(items, available, gap, i);
            &&& open.len() > 0
            &&& used as int == capped(line_extent(open, gap))
            &&& forall|k: int| 0 <= k < done.len() ==> (#[trigger] done[k]).len() > 0
            &&& forall|k: int|
                0 <= k < done.len() && (#[trigger] done[k]).len() >= 2 ==> capped(
                    line_extent(done[k], gap),
                ) <= available
            &&& forall|k: int|
                0 <= k < done.len() ==> capped(
                    line_extent((#[trigger] done[k]).push(next_first(done, open, k)), gap),
                ) > available
            &&& open.len() >= 2 ==> capped(line_extent(open, gap)) <= available
        }),
    decreases i,
{
    let item = items[i - 1];
    let size = item.spec_outer_hypothetical_main_size();
    if i == 1 {
        let one = Seq::<FlexItem<N>>::empty().push(item);
        lemma_extent_one(item, gap);
        assert(wrap_state(items, available, gap, 1).1 =~= one);
    } else {
        lemma_wrap_state_fit(items, available, gap, i - 1);
        let (done, open, used) = wrap_state(items, available, gap, i - 1);
        lemma_extent_push(open, item, gap);
        let a = line_extent(open, gap);
        lemma_capped_sum(a, gap as int + size as int);
        lemma_capped_sum(a, gap as int);
        lemma_capped_sum(a + gap as int, size as int);
        let needed = size.saturating_add(gap);
        let fits = used.saturating_add(needed) <= available;
        assert(fits <==> capped(line_extent(open.push(item), gap)) <= available);
        let (d2, o2, u2) = wrap_state(items, available, gap, i);
        if !fits {
            let one = Seq::<FlexItem<N>>::empty().push(item);
            assert(o2 =~= one);
            assert(d2 =~= done.push(open));
            lemma_extent_one(item, gap);
            assert forall|k: int| 0 <= k < d2.len() implies capped(
                line_extent((#[trigger] d2[k]).push(next_first(d2, o2, k)), gap),
            ) > available by {
                if k < done.len() {
                    assert(d2[k] == done[k]);
                    if k + 1 < done.len() {
                        assert(next_first(d2, o2, k) == next_first(done, open, k));
                    } else {
                        assert(d2[k + 1] == open);
                    }
                }
            }
            assert forall|k: int| 0 <= k < d2.len() && (#[trigger] d2[k]).len() >= 2 implies capped(
                line_extent(d2[k], gap),
            ) <= available by {
                if k < done.len() {
                    assert(d2[k] == done[k]);
                }
            }
            assert forall|k: int| 0 <= k < d2.len() implies (#[trigger] d2[k]).len() > 0 by {
                if k < done.len() {
                    assert(d2[k] == done[k]);
                }
            }
        } else {
            assert(o2 == open.push(item));
            assert(d2 == done);
            assert forall|k: int| 0 <= k < d2.len() implies capped(
                line_extent((#[trigger] d2[k]).push(next_first(d2, o2, k)), gap),
            ) > available by {
                assert(next_first(d2, o2, k) == next_first(done, open, k));
            }
        }
    }
}

/// Wrapping makes lines that fit and are full: every line holds an item;
/// a line of two items or more takes, with the gaps between them, at most
/// `available` (as the saturating sums count it); and each line but the
/// last would take more than `available` with the next item on it.
pub proof fn lemma_wrap_lines_fit<N: Copy>(items: Seq<FlexItem<N>>, available: u16, gap: u16)
    ensures
        forall|k: int|
            0 <= k < wrap_groups(items, available, gap).len() ==> (#[trigger] wrap_groups(
                items,
                available,
                gap,
            )[k]).len() > 0,
        forall|k: int|
            0 <= k < wrap_groups(items, available, gap).len() && (#[trigger] wrap_groups(
                items,
                available,
                gap,
            )[k]).len() >= 2 ==> capped(line_extent(wrap_groups(items, available, gap)[k], gap))
                <= available,
        forall|k: int|
            0 <= k < wrap_groups(items, available, gap).len() - 1 ==> capped(
                line_extent(
                    (#[trigger] wrap_groups(items, available, gap)[k]).push(
                        wrap_groups(items, available, gap)[k + 1][0],
                    ),
                    gap,
                ),
            ) > available,
{
    let g = wrap_groups(items, available, gap);
    if items.len() > 0 {
        lemma_wrap_state_fit(items, available, gap, items.len() as int);
        let (done, open, used) = wrap_state(items, available, gap, items.len() as int);
        assert(g == done.push(open));
        assert forall|k: int| 0 <= k < g.len() - 1 implies capped(
            line_extent((#[trigger] g[k]).push(g[k + 1][0]), gap),
        ) > available by {
            assert(g[k] == done[k]);
            if k + 1 < done.len() {
                assert(g[k + 1] == done[k + 1]);
            } else {
                assert(g[k + 1] == open);
            }
            assert(next_first(done, open, k) == g[k + 1][0]);
        }
        assert forall|k: int| 0 <= k < g.len() && (#[trigger] g[k]).len() >= 2 implies capped(
            line_extent(g[k], gap),
        ) <= available by {
            if k < done.len() {
                assert(g[k] == done[k]);
            }
        }
        assert forall|k: int| 0 <= k < g.len() implies (#[trigger] g[k]).len() > 0 by {
            if k < done.len() {
                assert(g[k] == done[k]);
            }
        }
    } else {
        assert(wrap_state(items, available, gap, 0).1.len() == 0);
    }
}

} // verus!
