use vstd::prelude::*;

use core::ops::BitOr;
use vstd::std_specs::ops::BitOrSpecImpl;

verus! {

/// What has to be recomputed after a change: a set of flags, held as the
/// bits of a `u16`.
#[derive(Debug, Clone, Copy, PartialEq, Eq, Structural)]
pub struct RestyleHint {
    pub bits: u16,
}

impl View for RestyleHint {
    type V = u16;

    open spec fn view(&self) -> u16 {
        self.bits
    }
}

/// The element itself must be matched against selectors again.
pub const RESTYLE_SELF: u16 = 1;

/// Its descendants must be matched again.
pub const RESTYLE_DESCENDANTS: u16 = 2;

/// Its later siblings must be matched again.
pub const RESTYLE_LATER_SIBLINGS: u16 = 4;

/// The element's style must be cascaded again, without matching.
pub const RECASCADE_SELF: u16 = 8;

/// The element's style must be cascaded again if it inherits a reset style.
pub const RECASCADE_SELF_IF_INHERIT_RESET_STYLE: u16 = 16;

/// Its descendants' styles must be cascaded again.
pub const RECASCADE_DESCENDANTS: u16 = 32;

/// Its style attribute changed.
pub const RESTYLE_STYLE_ATTRIBUTE: u16 = 64;

/// The hint a child gets from its parent's hint `x`: descendants'
/// restyling or recascading becomes the child's own and its descendants',
/// and a conditional recascade is passed on.
pub open spec fn child_hint_bits(x: u16) -> u16 {
    let a: u16 = if x & RESTYLE_DESCENDANTS == RESTYLE_DESCENDANTS {
        RESTYLE_SELF | RESTYLE_DESCENDANTS
    } else {
        0
    };
    let b: u16 = if x & RECASCADE_DESCENDANTS == RECASCADE_DESCENDANTS {
        RECASCADE_SELF | RECASCADE_DESCENDANTS
    } else {
        0
    };
    let c: u16 = if x & RECASCADE_SELF_IF_INHERIT_RESET_STYLE
        == RECASCADE_SELF_IF_INHERIT_RESET_STYLE {
        RECASCADE_SELF_IF_INHERIT_RESET_STYLE
    } else {
        0
    };
    a | b | c
}

/// Whether the flags `a` and `b` share one.
pub open spec fn bits_meet(a: u16, b: u16) -> bool {
    a & b != 0
}

/// Whether `a` has every flag of `b`.
pub open spec fn bits_include(a: u16, b: u16) -> bool {
    a & b == b
}

impl RestyleHint {
    /// The hint with the given flags.
    pub fn from_bits(bits: u16) -> (h: Self)
        ensures
            h@ == bits,
    {
        RestyleHint { bits }
    }

    pub fn bits(&self) -> (b: u16)
        ensures
            b == self@,
    {
        self.bits
    }

    /// No flags.
    pub fn empty() -> (h: Self)
        ensures
            h@ == 0,
    {
        RestyleHint { bits: 0 }
    }

    pub fn restyle_self() -> (h: Self)
        ensures
            h@ == RESTYLE_SELF,
    {
        RestyleHint { bits: RESTYLE_SELF }
    }

    pub fn restyle_descendants() -> (h: Self)
        ensures
            h@ == RESTYLE_DESCENDANTS,
    {
        RestyleHint { bits: RESTYLE_DESCENDANTS }
    }

    pub fn restyle_later_siblings() -> (h: Self)
        ensures
            h@ == RESTYLE_LATER_SIBLINGS,
    {
        RestyleHint { bits: RESTYLE_LATER_SIBLINGS }
    }

    pub fn recascade_self() -> (h: Self)
        ensures
            h@ == RECASCADE_SELF,
    {
        RestyleHint { bits: RECASCADE_SELF }
    }

    pub fn recascade_self_if_inherit_reset_style() -> (h: Self)
        ensures
            h@ == RECASCADE_SELF_IF_INHERIT_RESET_STYLE,
    {
        RestyleHint { bits: RECASCADE_SELF_IF_INHERIT_RESET_STYLE }
    }

    pub fn recascade_descendants() -> (h: Self)
        ensures
            h@ == RECASCADE_DESCENDANTS,
    {
        RestyleHint { bits: RECASCADE_DESCENDANTS }
    }

    pub fn restyle_style_attribute() -> (h: Self)
        ensures
            h@ == RESTYLE_STYLE_ATTRIBUTE,
    {
        RestyleHint { bits: RESTYLE_STYLE_ATTRIBUTE }
    }

    pub fn is_empty(&self) -> (r: bool)
        ensures
            r == (self@ == 0),
    {
        self.bits == 0
    }

    /// Whether every flag of `other` is set.
    pub fn contains(&self, other: Self) -> (r: bool)
        ensures
            r == bits_include(self@, other@),
    {
        self.bits & other.bits == other.bits
    }

    /// Whether some flag of `other` is set.
    pub fn intersects(&self, other: Self) -> (r: bool)
        ensures
            r == bits_meet(self@, other@),
    {
        self.bits & other.bits != 0
    }

    /// The flags of both.
    pub fn union(self, other: Self) -> (h: Self)
        ensures
            h@ == self@ | other@,
    {
        RestyleHint { bits: self.bits | other.bits }
    }

    /// Adds the flags of `other`.
    pub fn insert(&mut self, other: Self)
        ensures
            final(self)@ == old(self)@ | other@,
    {
        self.bits = self.bits | other.bits;
    }

    pub open spec fn spec_affects_self(self) -> bool {
        bits_meet(self@, (RECASCADE_SELF | RESTYLE_SELF | RESTYLE_STYLE_ATTRIBUTE) as u16)
    }

    pub open spec fn spec_affects_descendants(self) -> bool {
        bits_meet(self@, (RESTYLE_DESCENDANTS | RECASCADE_DESCENDANTS) as u16)
    }

    pub open spec fn spec_affects_later_siblings(self) -> bool {
        bits_include(self@, RESTYLE_LATER_SIBLINGS)
    }

    pub open spec fn spec_needs_selector_match(self) -> bool {
        bits_meet(self@, (RESTYLE_SELF | RESTYLE_DESCENDANTS) as u16)
    }

    pub open spec fn spec_needs_recascade_only(self) -> bool {
        !self.spec_needs_selector_match() && bits_meet(
            self@,
            (RECASCADE_SELF | RECASCADE_DESCENDANTS) as u16,
        )
    }

    /// The hint a child gets: see `child_hint_bits`.
    pub open spec fn spec_propagate_to_child(self) -> u16 {
        child_hint_bits(self@)
    }

    /// The hint a later sibling gets: it is restyled itself when later
    /// siblings are to be restyled, and nothing otherwise.
    pub open spec fn spec_propagate_to_later_sibling(self) -> u16 {
        if bits_include(self@, RESTYLE_LATER_SIBLINGS) {
            RESTYLE_SELF
        } else {
            0
        }
    }

    pub fn affects_self(self) -> (r: bool)
        ensures
            r == self.spec_affects_self(),
    {
        self.bits & (RECASCADE_SELF | RESTYLE_SELF | RESTYLE_STYLE_ATTRIBUTE) != 0
    }

    pub fn affects_descendants(self) -> (r: bool)
        ensures
            r == self.spec_affects_descendants(),
    {
        self.bits & (RESTYLE_DESCENDANTS | RECASCADE_DESCENDANTS) != 0
    }

    pub fn affects_later_siblings(self) -> (r: bool)
        ensures
            r == self.spec_affects_later_siblings(),
    {
        self.bits & RESTYLE_LATER_SIBLINGS == RESTYLE_LATER_SIBLINGS
    }

    pub fn needs_selector_match(self) -> (r: bool)
        ensures
            r == self.spec_needs_selector_match(),
    {
        self.bits & (RESTYLE_SELF | RESTYLE_DESCENDANTS) != 0
    }

    pub fn needs_recascade_only(self) -> (r: bool)
        ensures
            r == self.spec_needs_recascade_only(),
    {
        !self.needs_selector_match() && self.bits & (RECASCADE_SELF | RECASCADE_DESCENDANTS) != 0
    }

    pub fn propagate_to_child(self) -> (h: Self)
        ensures
            h@ == self.spec_propagate_to_child(),
    {
        let a: u16 = if self.bits & RESTYLE_DESCENDANTS == RESTYLE_DESCENDANTS {
            RESTYLE_SELF | RESTYLE_DESCENDANTS
        } else {
            0
        };
        let b: u16 = if self.bits & RECASCADE_DESCENDANTS == RECASCADE_DESCENDANTS {
            RECASCADE_SELF | RECASCADE_DESCENDANTS
        } else {
            0
        };
        let c: u16 = if self.bits & RECASCADE_SELF_IF_INHERIT_RESET_STYLE
            == RECASCADE_SELF_IF_INHERIT_RESET_STYLE {
            RECASCADE_SELF_IF_INHERIT_RESET_STYLE
        } else {
            0
        };
        let child = a | b | c;
        RestyleHint { bits: child }
    }

    pub fn propagate_to_later_sibling(self) -> (h: Self)
        ensures
            h@ == self.spec_propagate_to_later_sibling(),
    {
        if self.bits & RESTYLE_LATER_SIBLINGS == RESTYLE_LATER_SIBLINGS {
            RestyleHint { bits: RESTYLE_SELF }
        } else {
            RestyleHint { bits: 0 }
        }
    }
}

impl BitOr for RestyleHint {
    type Output = RestyleHint;

    fn bitor(self, rhs: RestyleHint) -> (h: RestyleHint) {
        RestyleHint { bits: self.bits | rhs.bits }
    }
}

impl BitOrSpecImpl for RestyleHint {
    open spec fn obeys_bitor_spec() -> bool {
        true
    }

    open spec fn bitor_req(self, rhs: RestyleHint) -> bool {
        true
    }

    open spec fn bitor_spec(self, rhs: RestyleHint) -> RestyleHint {
        RestyleHint { bits: self.bits | rhs.bits }
    }
}

/// Propagation never reaches further than it says: a child never gets the
/// later-siblings flag, a later sibling only ever gets the restyle-self
/// flag, and a hint that needs only a recascade needs no selector matching.
pub proof fn lemma_propagation_stays_local(h: RestyleHint)
    ensures
        !bits_meet(h.spec_propagate_to_child(), RESTYLE_LATER_SIBLINGS),
        h.spec_propagate_to_later_sibling() == RESTYLE_SELF || h.spec_propagate_to_later_sibling()
            == 0,
        h.spec_needs_recascade_only() ==> !h.spec_needs_selector_match(),
        h.spec_needs_selector_match() ==> h.spec_affects_self() || h.spec_affects_descendants(),
{
    let x = h@;
    assert(child_hint_bits(x) & RESTYLE_LATER_SIBLINGS == 0) by (bit_vector);
    assert(x & (RESTYLE_SELF | RESTYLE_DESCENDANTS) != 0 ==> x & (RECASCADE_SELF | RESTYLE_SELF
        | RESTYLE_STYLE_ATTRIBUTE) != 0 || x & (RESTYLE_DESCENDANTS | RECASCADE_DESCENDANTS) != 0)
        by (bit_vector);
}

/// What a child gets when its parent's descendants are to be restyled:
/// its own restyle and its descendants'.
pub proof fn lemma_restyle_descends(h: RestyleHint)
    requires
        bits_include(h@, RESTYLE_DESCENDANTS),
    ensures
        bits_include(h.spec_propagate_to_child(), (RESTYLE_SELF | RESTYLE_DESCENDANTS) as u16),
{
    let x = h@;
    assert(x & RESTYLE_DESCENDANTS == RESTYLE_DESCENDANTS ==> child_hint_bits(x) & (RESTYLE_SELF
        | RESTYLE_DESCENDANTS) == (RESTYLE_SELF | RESTYLE_DESCENDANTS)) by (bit_vector);
}

/// What each question asks of a hint's flags: the element itself is
/// affected exactly when it is to be restyled or recascaded or its style
/// attribute changed; its descendants exactly when they are to be
/// restyled or recascaded; its later siblings exactly when they are to be
/// restyled; selectors must be matched again exactly when the element or
/// its descendants are to be restyled; and a recascade alone is needed
/// exactly when something is recascaded and nothing restyled.
pub proof fn lemma_hint_questions(h: RestyleHint)
    ensures
        h.spec_affects_self() <==> (bits_include(h@, RESTYLE_SELF) || bits_include(h@, RECASCADE_SELF)
            || bits_include(h@, RESTYLE_STYLE_ATTRIBUTE)),
        h.spec_affects_descendants() <==> (bits_include(h@, RESTYLE_DESCENDANTS) || bits_include(
            h@,
            RECASCADE_DESCENDANTS,
        )),
        h.spec_affects_later_siblings() <==> bits_include(h@, RESTYLE_LATER_SIBLINGS),
        h.spec_needs_selector_match() <==> (bits_include(h@, RESTYLE_SELF) || bits_include(
            h@,
            RESTYLE_DESCENDANTS,
        )),
        h.spec_needs_recascade_only() <==> (!bits_include(h@, RESTYLE_SELF) && !bits_include(
            h@,
            RESTYLE_DESCENDANTS,
        ) && (bits_include(h@, RECASCADE_SELF) || bits_include(h@, RECASCADE_DESCENDANTS))),
{
    let x = h.bits;
    assert(8u16 | 1u16 | 64u16 == 73u16) by (bit_vector);
    assert(2u16 | 32u16 == 34u16) by (bit_vector);
    assert(1u16 | 2u16 == 3u16) by (bit_vector);
    assert(8u16 | 32u16 == 40u16) by (bit_vector);
    assert((x & 73u16 != 0) <==> (x & 1u16 == 1u16 || x & 8u16 == 8u16 || x & 64u16 == 64u16))
        by (bit_vector);
    assert((x & 34u16 != 0) <==> (x & 2u16 == 2u16 || x & 32u16 == 32u16)) by (bit_vector);
    assert((x & 3u16 != 0) <==> (x & 1u16 == 1u16 || x & 2u16 == 2u16)) by (bit_vector);
    assert((x & 40u16 != 0) <==> (x & 8u16 == 8u16 || x & 32u16 == 32u16)) by (bit_vector);
}

} // verus!
