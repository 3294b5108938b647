use capsule_corp::invalidation::{DependencyLocation, InvalidationMap};
use capsule_corp::restyle::RestyleHint;
use capsule_corp::selector::{Combinator, PseudoClass, SelectorPart};
use capsule_corp::state::ElementState;

fn class(n: &str) -> SelectorPart {
    SelectorPart::Class(n.to_string())
}

fn id(n: &str) -> SelectorPart {
    SelectorPart::Id(n.to_string())
}

fn tag(n: &str) -> SelectorPart {
    SelectorPart::Tag(n.to_string())
}

fn attr(n: &str) -> SelectorPart {
    SelectorPart::Attribute(n.to_string())
}

fn pseudo(p: PseudoClass) -> SelectorPart {
    SelectorPart::PseudoClass(p)
}

fn comb(c: Combinator) -> SelectorPart {
    SelectorPart::Combinator(c)
}

fn s(n: &str) -> String {
    n.to_string()
}

#[test]
fn empty_map() {
    let map = InvalidationMap::new();
    assert!(!map.has_state_dependency(ElementState::hover()));
    assert!(!map.has_class_dependency(&s("foo")));
    assert!(!map.has_id_dependency(&s("bar")));
    assert!(!map.has_attribute_dependency(&s("disabled")));
}

#[test]
fn register_hover_selector() {
    let mut map = InvalidationMap::new();
    // .btn:hover
    map.register_selector(&vec![class("btn"), pseudo(PseudoClass::Hover)]);

    assert!(map.has_state_dependency(ElementState::hover()));
    assert!(map.has_class_dependency(&s("btn")));
}

#[test]
fn register_focus_selector() {
    let mut map = InvalidationMap::new();
    // input:focus
    map.register_selector(&vec![tag("input"), pseudo(PseudoClass::Focus)]);

    assert!(map.has_state_dependency(ElementState::focus()));
}

#[test]
fn register_id_selector() {
    let mut map = InvalidationMap::new();
    map.register_selector(&vec![id("main")]);

    assert!(map.has_id_dependency(&s("main")));
}

#[test]
fn register_attribute_selector() {
    let mut map = InvalidationMap::new();
    map.register_selector(&vec![attr("disabled")]);

    assert!(map.has_attribute_dependency(&s("disabled")));
}

#[test]
fn state_change_restyle_hint_subject() {
    let mut map = InvalidationMap::new();
    map.register_selector(&vec![class("btn"), pseudo(PseudoClass::Hover)]);

    let hint = map.restyle_hint_for_state_change(ElementState::empty(), ElementState::hover());

    assert!(hint.contains(RestyleHint::restyle_self()));
}

#[test]
fn state_change_no_hint_when_unrelated() {
    let mut map = InvalidationMap::new();
    map.register_selector(&vec![class("btn"), pseudo(PseudoClass::Hover)]);

    let hint = map.restyle_hint_for_state_change(ElementState::empty(), ElementState::focus());

    assert!(hint.is_empty());
}

#[test]
fn class_change_restyle_hint() {
    let mut map = InvalidationMap::new();
    map.register_selector(&vec![class("active")]);

    let hint = map.restyle_hint_for_class_change(&s("active"));
    assert!(hint.contains(RestyleHint::restyle_self()));
}

#[test]
fn class_change_no_hint_when_unrelated() {
    let mut map = InvalidationMap::new();
    map.register_selector(&vec![class("active")]);

    let hint = map.restyle_hint_for_class_change(&s("inactive"));
    assert!(hint.is_empty());
}

#[test]
fn descendant_combinator_gives_descendants_hint() {
    let mut map = InvalidationMap::new();
    // .parent:hover .child, read from the subject outwards
    map.register_selector(&vec![
        class("child"),
        comb(Combinator::Descendant),
        class("parent"),
        pseudo(PseudoClass::Hover),
    ]);

    let hint = map.restyle_hint_for_state_change(ElementState::empty(), ElementState::hover());

    assert!(hint.contains(RestyleHint::restyle_descendants()));
}

#[test]
fn child_combinator_gives_descendants_hint() {
    let mut map = InvalidationMap::new();
    // .parent:hover > .child
    map.register_selector(&vec![
        class("child"),
        comb(Combinator::Child),
        class("parent"),
        pseudo(PseudoClass::Hover),
    ]);

    let hint = map.restyle_hint_for_state_change(ElementState::empty(), ElementState::hover());

    assert!(hint.contains(RestyleHint::restyle_descendants()));
}

#[test]
fn sibling_combinator_gives_siblings_hint() {
    let mut map = InvalidationMap::new();
    // .prev:hover + .next
    map.register_selector(&vec![
        class("next"),
        comb(Combinator::NextSibling),
        class("prev"),
        pseudo(PseudoClass::Hover),
    ]);

    let hint = map.restyle_hint_for_state_change(ElementState::empty(), ElementState::hover());

    assert!(hint.contains(RestyleHint::restyle_later_siblings()));
}

#[test]
fn later_sibling_combinator_gives_siblings_hint() {
    let mut map = InvalidationMap::new();
    // .prev:hover ~ .next
    map.register_selector(&vec![
        class("next"),
        comb(Combinator::LaterSibling),
        class("prev"),
        pseudo(PseudoClass::Hover),
    ]);

    let hint = map.restyle_hint_for_state_change(ElementState::empty(), ElementState::hover());

    assert!(hint.contains(RestyleHint::restyle_later_siblings()));
}

#[test]
fn structural_pseudo_no_state_dependency() {
    let mut map = InvalidationMap::new();
    map.register_selector(&vec![pseudo(PseudoClass::FirstChild)]);

    assert!(!map.has_state_dependency(ElementState::hover()));
    assert!(!map.has_state_dependency(ElementState::focus()));
}

#[test]
fn clear_removes_all_dependencies() {
    let mut map = InvalidationMap::new();
    map.register_selector(&vec![class("btn"), pseudo(PseudoClass::Hover)]);
    map.register_selector(&vec![id("main")]);
    map.register_selector(&vec![attr("disabled")]);

    map.clear();

    assert!(!map.has_state_dependency(ElementState::hover()));
    assert!(!map.has_class_dependency(&s("btn")));
    assert!(!map.has_id_dependency(&s("main")));
    assert!(!map.has_attribute_dependency(&s("disabled")));
}

#[test]
fn dependency_location_hints() {
    assert_eq!(DependencyLocation::Subject.to_restyle_hint(), RestyleHint::restyle_self());
    assert_eq!(DependencyLocation::Ancestor.to_restyle_hint(), RestyleHint::restyle_descendants());
    assert_eq!(
        DependencyLocation::PreviousSibling.to_restyle_hint(),
        RestyleHint::restyle_later_siblings()
    );
}

#[test]
fn registered_class_in_ancestor_restyles_descendants() {
    let mut map = InvalidationMap::new();
    // .a .b : class a is tested on an ancestor, b on the subject
    map.register_selector(&vec![class("b"), comb(Combinator::Descendant), class("a")]);
    map.register_selector(&vec![class("a")]);
    let hint = map.restyle_hint_for_class_change(&s("a"));
    assert!(hint.contains(RestyleHint::restyle_descendants()));
    assert!(hint.contains(RestyleHint::restyle_self()));
    let b = map.restyle_hint_for_class_change(&s("b"));
    assert_eq!(b, RestyleHint::restyle_self());
}

#[test]
fn state_change_both_ways() {
    let mut map = InvalidationMap::new();
    map.register_selector(&vec![pseudo(PseudoClass::Checked)]);
    let on = map.restyle_hint_for_state_change(ElementState::empty(), ElementState::checked());
    let off = map.restyle_hint_for_state_change(ElementState::checked(), ElementState::empty());
    assert_eq!(on, off);
    let same = map.restyle_hint_for_state_change(ElementState::checked(), ElementState::checked());
    assert!(same.is_empty());
}

#[test]
fn pseudo_classes_by_name() {
    assert_eq!(PseudoClass::from_name("hover"), Some(PseudoClass::Hover));
    assert_eq!(PseudoClass::from_name("last-child"), Some(PseudoClass::LastChild));
    assert_eq!(PseudoClass::from_name("nth-child"), None);
    assert_eq!(PseudoClass::from_name("visited"), None);
}
