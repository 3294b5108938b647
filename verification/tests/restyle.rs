use capsule_corp::restyle::RestyleHint;

#[test]
fn empty_hint() {
    let hint = RestyleHint::empty();
    assert!(!hint.affects_self());
    assert!(!hint.affects_descendants());
    assert!(!hint.affects_later_siblings());
}

#[test]
fn restyle_self() {
    let hint = RestyleHint::restyle_self();
    assert!(hint.affects_self());
    assert!(hint.needs_selector_match());
    assert!(!hint.needs_recascade_only());
}

#[test]
fn recascade_only() {
    let hint = RestyleHint::recascade_self();
    assert!(hint.affects_self());
    assert!(!hint.needs_selector_match());
    assert!(hint.needs_recascade_only());
}

#[test]
fn propagate_to_child() {
    let hint = RestyleHint::restyle_descendants();
    let child = hint.propagate_to_child();
    assert!(child.contains(RestyleHint::restyle_self()));
    assert!(child.contains(RestyleHint::restyle_descendants()));
}

#[test]
fn propagate_to_sibling() {
    let hint = RestyleHint::restyle_later_siblings();
    let sibling = hint.propagate_to_later_sibling();
    assert!(sibling.contains(RestyleHint::restyle_self()));
    assert!(!sibling.contains(RestyleHint::restyle_later_siblings()));
}

#[test]
fn combine_hints() {
    let hint = RestyleHint::restyle_self() | RestyleHint::restyle_descendants();
    assert!(hint.affects_self());
    assert!(hint.affects_descendants());
}

#[test]
fn self_only_hint_does_not_reach_children() {
    let child = RestyleHint::restyle_self().propagate_to_child();
    assert!(child.is_empty());
    let recascade = RestyleHint::recascade_descendants().propagate_to_child();
    assert!(recascade.contains(RestyleHint::recascade_self()));
    assert!(recascade.contains(RestyleHint::recascade_descendants()));
}

#[test]
fn union_and_insert_agree() {
    let mut h = RestyleHint::restyle_self();
    h.insert(RestyleHint::restyle_style_attribute());
    assert_eq!(h, RestyleHint::restyle_self().union(RestyleHint::restyle_style_attribute()));
    assert_eq!(h.bits(), 1 | 64);
}

#[test]
fn hint_from_bits_keeps_them() {
    let h = RestyleHint::from_bits(RestyleHint::restyle_self().bits() | RestyleHint::restyle_descendants().bits());
    assert!(h.affects_self());
    assert!(h.affects_descendants());
    assert!(!h.affects_later_siblings());
    assert_eq!(RestyleHint::from_bits(0), RestyleHint::empty());
    assert!(!RestyleHint::recascade_self_if_inherit_reset_style().is_empty());
}
