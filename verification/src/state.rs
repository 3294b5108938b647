use vstd::prelude::*;

use core::ops::BitOr;
use vstd::std_specs::ops::BitOrSpecImpl;

verus! {

/// The dynamic states of an element that selectors can test: a set of
/// flags, held as the bits of a `u8`.
#[derive(Debug, Clone, Copy, PartialEq, Eq, Hash, Structural)]
pub struct ElementState {
    pub bits: u8,
}

impl View for ElementState {
    type V = u8;

    open spec fn view(&self) -> u8 {
        self.bits
    }
}

pub const HOVER: u8 = 1;

pub const FOCUS: u8 = 2;

pub const ACTIVE: u8 = 4;

pub const DISABLED: u8 = 8;

pub const CHECKED: u8 = 16;

impl Default for ElementState {
    fn default() -> (s: Self)
        ensures
            s@ == 0,
    {
        ElementState { bits: 0 }
    }
}

impl ElementState {
    pub fn empty() -> (s: Self)
        ensures
            s@ == 0,
    {
        ElementState { bits: 0 }
    }

    pub fn hover() -> (s: Self)
        ensures
            s@ == HOVER,
    {
        ElementState { bits: HOVER }
    }

    pub fn focus() -> (s: Self)
        ensures
            s@ == FOCUS,
    {
        ElementState { bits: FOCUS }
    }

    pub fn active() -> (s: Self)
        ensures
            s@ == ACTIVE,
    {
        ElementState { bits: ACTIVE }
    }

    pub fn disabled() -> (s: Self)
        ensures
            s@ == DISABLED,
    {
        ElementState { bits: DISABLED }
    }

    pub fn checked() -> (s: Self)
        ensures
            s@ == CHECKED,
    {
        ElementState { bits: CHECKED }
    }

    pub fn is_empty(&self) -> (r: bool)
        ensures
            r == (self@ == 0),
    {
        self.bits == 0
    }

    /// Whether every state of `other` is set.
    pub fn contains(&self, other: Self) -> (r: bool)
        ensures
            r == (self@ & other@ == other@),
    {
        self.bits & other.bits == other.bits
    }

    /// Whether some state of `other` is set.
    pub fn intersects(&self, other: Self) -> (r: bool)
        ensures
            r == (self@ & other@ != 0),
    {
        self.bits & other.bits != 0
    }

    /// Sets the states of `other`.
    pub fn insert(&mut self, other: Self)
        ensures
            final(self)@ == old(self)@ | other@,
    {
        self.bits = self.bits | other.bits;
    }

    /// Clears the states of `other`.
    pub fn remove(&mut self, other: Self)
        ensures
            final(self)@ == old(self)@ & !other@,
    {
        self.bits = self.bits & !other.bits;
    }

    /// The states set in exactly one of the two.
    pub fn symmetric_difference(self, other: Self) -> (s: Self)
        ensures
            s@ == self@ ^ other@,
    {
        ElementState { bits: self.bits ^ other.bits }
    }
}

impl BitOr for ElementState {
    type Output = ElementState;

    fn bitor(self, rhs: ElementState) -> (s: ElementState) {
        ElementState { bits: self.bits | rhs.bits }
    }
}

impl BitOrSpecImpl for ElementState {
    open spec fn obeys_bitor_spec() -> bool {
        true
    }

    open spec fn bitor_req(self, rhs: ElementState) -> bool {
        true
    }

    open spec fn bitor_spec(self, rhs: ElementState) -> ElementState {
        ElementState { bits: self.bits | rhs.bits }
    }
}

/// Setting a state and clearing it again leaves a state without it; a set
/// state is contained.
pub proof fn lemma_insert_remove(s: u8, t: u8)
    ensures
        (s | t) & t == t,
        ((s | t) & !t) & t == 0,
{
    assert((s | t) & t == t) by (bit_vector);
    assert(((s | t) & !t) & t == 0) by (bit_vector);
}

} // verus!
