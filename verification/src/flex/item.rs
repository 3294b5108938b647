use vstd::prelude::*;

use crate::box_model::ResolvedBox;
use crate::edges::Edges;
use crate::keywords::AlignSelf;

verus! {

/// A child of a flex container, as the flex algorithm sees it.
///
/// Sizes are in cells along the container's main and cross axes. The
/// grow and shrink factors are not held here: `node_id` is whatever the
/// caller uses to find an item again, and may carry them.
#[derive(Debug, Clone, Copy)]
pub struct FlexItem<NodeId: Copy> {
    pub node_id: NodeId,
    pub align_self: AlignSelf,
    pub flex_basis: u16,
    pub min_main_size: u16,
    pub max_main_size: Option<u16>,
    pub hypothetical_main_size: u16,
    pub margin: Edges<u16>,
    pub resolved_box: ResolvedBox,
    pub frozen: bool,
    pub main_size: u16,
    pub cross_size: u16,
    pub main_position: u16,
    pub cross_position: u16,
}

impl<NodeId: Copy> FlexItem<NodeId> {
    /// Main size plus left and right margins, saturating.
    pub open spec fn spec_outer_main_size(self) -> u16 {
        self.main_size.saturating_add(self.margin.left).saturating_add(self.margin.right)
    }

    /// Cross size plus top and bottom margins, saturating.
    pub open spec fn spec_outer_cross_size(self) -> u16 {
        self.cross_size.saturating_add(self.margin.top).saturating_add(self.margin.bottom)
    }

    /// Hypothetical main size plus left and right margins, saturating.
    pub open spec fn spec_outer_hypothetical_main_size(self) -> u16 {
        self.hypothetical_main_size.saturating_add(self.margin.left).saturating_add(
            self.margin.right,
        )
    }

    pub fn outer_main_size(&self) -> (r: u16)
        ensures
            r == self.spec_outer_main_size(),
    {
        self.main_size.saturating_add(self.margin.left).saturating_add(self.margin.right)
    }

    pub fn outer_cross_size(&self) -> (r: u16)
        ensures
            r == self.spec_outer_cross_size(),
    {
        self.cross_size.saturating_add(self.margin.top).saturating_add(self.margin.bottom)
    }

    pub fn outer_hypothetical_main_size(&self) -> (r: u16)
        ensures
            r == self.spec_outer_hypothetical_main_size(),
    {
        self.hypothetical_main_size.saturating_add(self.margin.left).saturating_add(
            self.margin.right,
        )
    }
}

/// One line of a flex container: its items, in order, and where the line
/// sits on the cross axis.
#[derive(Debug)]
pub struct FlexLine<NodeId: Copy> {
    pub items: Vec<FlexItem<NodeId>>,
    pub cross_size: u16,
    pub cross_position: u16,
}

impl<NodeId: Copy> FlexLine<NodeId> {
    /// An empty line at the cross-axis origin.
    pub fn new() -> (l: Self)
        ensures
            l.items@ == Seq::<FlexItem<NodeId>>::empty(),
            l.cross_size == 0,
            l.cross_position == 0,
    {
        FlexLine { items: Vec::new(), cross_size: 0, cross_position: 0 }
    }
}

impl<NodeId: Copy> Default for FlexLine<NodeId> {
    fn default() -> (l: Self)
        ensures
            l.items@ == Seq::<FlexItem<NodeId>>::empty(),
            l.cross_size == 0,
            l.cross_position == 0,
    {
        Self::new()
    }
}

/// The outer main sizes of a sequence of items.
pub open spec fn outer_mains<N: Copy>(items: Seq<FlexItem<N>>) -> Seq<u16> {
    items.map_values(|it: FlexItem<N>| it.spec_outer_main_size())
}

/// The outer cross sizes of a sequence of items.
pub open spec fn outer_crosses<N: Copy>(items: Seq<FlexItem<N>>) -> Seq<u16> {
    items.map_values(|it: FlexItem<N>| it.spec_outer_cross_size())
}

/// The outer hypothetical main sizes of a sequence of items.
pub open spec fn outer_hypotheticals<N: Copy>(items: Seq<FlexItem<N>>) -> Seq<u16> {
    items.map_values(|it: FlexItem<N>| it.spec_outer_hypothetical_main_size())
}

/// The cross sizes of a sequence of lines.
pub open spec fn line_crosses<N: Copy>(lines: Seq<FlexLine<N>>) -> Seq<u16> {
    lines.map_values(|l: FlexLine<N>| l.cross_size)
}

pub fn outer_main_sizes<N: Copy>(items: &Vec<FlexItem<N>>) -> (v: Vec<u16>)
    ensures
        v@ == outer_mains(items@),
{
    let mut v: Vec<u16> = Vec::new();
    let mut i: usize = 0;
    while i < items.len()
        invariant
            i <= items@.len(),
            v@ == outer_mains(items@.take(i as int)),
        decreases items@.len() - i,
    {
        v.push(items[i].outer_main_size());
        i = i + 1;
        assert(v@ =~= outer_mains(items@.take(i as int)));
    }
    assert(items@.take(items@.len() as int) =~= items@);
    v
}

pub fn outer_cross_sizes<N: Copy>(items: &Vec<FlexItem<N>>) -> (v: Vec<u16>)
    ensures
        v@ == outer_crosses(items@),
{
    let mut v: Vec<u16> = Vec::new();
    let mut i: usize = 0;
    while i < items.len()
        invariant
            i <= items@.len(),
            v@ == outer_crosses(items@.take(i as int)),
        decreases items@.len() - i,
    {
        v.push(items[i].outer_cross_size());
        i = i + 1;
        assert(v@ =~= outer_crosses(items@.take(i as int)));
    }
    assert(items@.take(items@.len() as int) =~= items@);
    v
}

pub fn outer_hypothetical_sizes<N: Copy>(items: &Vec<FlexItem<N>>) -> (v: Vec<u16>)
    ensures
        v@ == outer_hypotheticals(items@),
{
    let mut v: Vec<u16> = Vec::new();
    let mut i: usize = 0;
    while i < items.len()
        invariant
            i <= items@.len(),
            v@ == outer_hypotheticals(items@.take(i as int)),
        decreases items@.len() - i,
    {
        v.push(items[i].outer_hypothetical_main_size());
        i = i + 1;
        assert(v@ =~= outer_hypotheticals(items@.take(i as int)));
    }
    assert(items@.take(items@.len() as int) =~= items@);
    v
}

pub fn line_cross_sizes<N: Copy>(lines: &Vec<FlexLine<N>>) -> (v: Vec<u16>)
    ensures
        v@ == line_crosses(lines@),
{
    let mut v: Vec<u16> = Vec::new();
    let mut i: usize = 0;
    while i < lines.len()
        invariant
            i <= lines@.len(),
            v@ == line_crosses(lines@.take(i as int)),
        decreases lines@.len() - i,
    {
        v.push(lines[i].cross_size);
        i = i + 1;
        assert(v@ =~= line_crosses(lines@.take(i as int)));
    }
    assert(lines@.take(lines@.len() as int) =~= lines@);
    v
}

} // verus!
