use vstd::prelude::*;

use crate::state::{ElementState, ACTIVE, CHECKED, DISABLED, FOCUS, HOVER};
use crate::strings::str_equals;

verus! {

/// The non-tree-structural pseudo-classes that selectors may use.
#[derive(Debug, Clone, Copy, PartialEq, Eq, Hash, Structural)]
pub enum PseudoClass {
    Hover,
    Focus,
    Active,
    Disabled,
    Checked,
    FirstChild,
    LastChild,
    NthChild(i32),
}

impl PseudoClass {
    /// The pseudo-class, other than a functional one, written `:name`.
    pub open spec fn named(s: Seq<char>) -> Option<Self> {
        if s == "hover"@ {
            Some(PseudoClass::Hover)
        } else if s == "focus"@ {
            Some(PseudoClass::Focus)
        } else if s == "active"@ {
            Some(PseudoClass::Active)
        } else if s == "disabled"@ {
            Some(PseudoClass::Disabled)
        } else if s == "checked"@ {
            Some(PseudoClass::Checked)
        } else if s == "first-child"@ {
            Some(PseudoClass::FirstChild)
        } else if s == "last-child"@ {
            Some(PseudoClass::LastChild)
        } else {
            None
        }
    }

    /// The pseudo-class, other than a functional one, written `:name`.
    pub fn from_name(name: &str) -> (r: Option<Self>)
        ensures
            r == Self::named(name@),
    {
        if str_equals(name, "hover") {
            return Some(PseudoClass::Hover);
        }
        if str_equals(name, "focus") {
            return Some(PseudoClass::Focus);
        }
        if str_equals(name, "active") {
            return Some(PseudoClass::Active);
        }
        if str_equals(name, "disabled") {
            return Some(PseudoClass::Disabled);
        }
        if str_equals(name, "checked") {
            return Some(PseudoClass::Checked);
        }
        if str_equals(name, "first-child") {
            return Some(PseudoClass::FirstChild);
        }
        if str_equals(name, "last-child") {
            return Some(PseudoClass::LastChild);
        }
        None
    }
}

/// The pseudo-elements that selectors may use (none is supported).
#[derive(Debug, Clone, Copy, PartialEq, Eq, Hash, Structural)]
pub struct PseudoElement;

/// The element state a pseudo-class tests; structural pseudo-classes test none.
pub open spec fn spec_pseudo_class_state(pseudo: PseudoClass) -> u8 {
    match pseudo {
        PseudoClass::Hover => HOVER,
        PseudoClass::Focus => FOCUS,
        PseudoClass::Active => ACTIVE,
        PseudoClass::Disabled => DISABLED,
        PseudoClass::Checked => CHECKED,
        PseudoClass::FirstChild | PseudoClass::LastChild | PseudoClass::NthChild(_) => 0,
    }
}

pub fn pseudo_class_to_state(pseudo: &PseudoClass) -> (s: ElementState)
    ensures
        s@ == spec_pseudo_class_state(*pseudo),
{
    match pseudo {
        PseudoClass::Hover => ElementState::hover(),
        PseudoClass::Focus => ElementState::focus(),
        PseudoClass::Active => ElementState::active(),
        PseudoClass::Disabled => ElementState::disabled(),
        PseudoClass::Checked => ElementState::checked(),
        PseudoClass::FirstChild | PseudoClass::LastChild | PseudoClass::NthChild(_) => {
            ElementState::empty()
        },
    }
}

/// How two compound selectors are joined.
#[derive(Debug, Clone, Copy, PartialEq, Eq, Structural)]
pub enum Combinator {
    Child,
    Descendant,
    NextSibling,
    LaterSibling,
    /// Pseudo-element, part and slot combinators.
    Other,
}

/// One piece of a selector, in the order in which a selector is read from
/// its subject outwards: the simple selectors of the subject's compound,
/// then a combinator, then the next compound's simple selectors, and so on.
#[derive(Debug, PartialEq, Eq)]
pub enum SelectorPart {
    Id(String),
    Class(String),
    /// A type selector (a tag name).
    Tag(String),
    /// An attribute selector on the named attribute.
    Attribute(String),
    PseudoClass(PseudoClass),
    /// Any other simple selector (`*`, `:root`, `&`, negations, ...).
    Other,
    Combinator(Combinator),
}

impl Clone for SelectorPart {
    fn clone(&self) -> (r: Self)
        ensures
            r == *self,
    {
        match self {
            SelectorPart::Id(n) => SelectorPart::Id(n.clone()),
            SelectorPart::Class(n) => SelectorPart::Class(n.clone()),
            SelectorPart::Tag(n) => SelectorPart::Tag(n.clone()),
            SelectorPart::Attribute(n) => SelectorPart::Attribute(n.clone()),
            SelectorPart::PseudoClass(p) => SelectorPart::PseudoClass(*p),
            SelectorPart::Other => SelectorPart::Other,
            SelectorPart::Combinator(c) => SelectorPart::Combinator(*c),
        }
    }
}


/// A copy of a selector's parts.
pub fn clone_parts(parts: &Vec<SelectorPart>) -> (r: Vec<SelectorPart>)
    ensures
        r@ == parts@,
{
    let mut r: Vec<SelectorPart> = Vec::new();
    let mut i: usize = 0;
    while i < parts.len()
        invariant
            i <= parts@.len(),
            r@ == parts@.take(i as int),
        decreases parts@.len() - i,
    {
        r.push(parts[i].clone());
        proof {
            assert(parts@.take(i as int + 1) =~= parts@.take(i as int).push(parts@[i as int]));
        }
        i = i + 1;
    }
    proof {
        assert(parts@.take(parts@.len() as int) =~= parts@);
    }
    r
}

} // verus!
