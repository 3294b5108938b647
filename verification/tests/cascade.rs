use std::sync::Arc;

use capsule_corp::cascade::{extract_bucket_key, BucketKey, BulmaRule, CascadeData};
use capsule_corp::selector::{Combinator, PseudoClass, SelectorPart};

fn s(n: &str) -> String {
    n.to_string()
}

/// A rule whose selector is given by its parts, from the subject outwards.
fn make_rule(text: &'static str, parts: Vec<SelectorPart>, source_order: u32) -> BulmaRule<&'static str, ()> {
    BulmaRule::new(text, parts, 0, Arc::new(vec![]), source_order)
}

fn class(n: &str) -> SelectorPart {
    SelectorPart::Class(n.to_string())
}

fn id(n: &str) -> SelectorPart {
    SelectorPart::Id(n.to_string())
}

fn tag(n: &str) -> SelectorPart {
    SelectorPart::Tag(n.to_string())
}

#[test]
fn empty_cascade_data() {
    let data: CascadeData<&str, ()> = CascadeData::new();
    assert_eq!(data.num_selectors(), 0);
    assert_eq!(data.num_declarations(), 0);
    assert!(data.universal_rules().is_empty());
}

#[test]
fn insert_id_selector() {
    let mut data = CascadeData::new();
    data.insert(make_rule("#main", vec![id("main")], 0));

    assert_eq!(data.num_selectors(), 1);
    assert!(data.rules_by_id(&s("main")).is_some());
    assert!(data.rules_by_class(&s("main")).is_none());
    assert!(data.universal_rules().is_empty());
}

#[test]
fn insert_class_selector() {
    let mut data = CascadeData::new();
    data.insert(make_rule(".container", vec![class("container")], 0));

    assert_eq!(data.num_selectors(), 1);
    assert!(data.rules_by_class(&s("container")).is_some());
    assert!(data.rules_by_id(&s("container")).is_none());
    assert!(data.universal_rules().is_empty());
}

#[test]
fn insert_tag_selector() {
    let mut data = CascadeData::new();
    data.insert(make_rule("div", vec![tag("div")], 0));

    assert_eq!(data.num_selectors(), 1);
    assert!(data.rules_by_tag(&s("div")).is_some());
    assert!(data.universal_rules().is_empty());
}

#[test]
fn insert_universal_selector() {
    let mut data = CascadeData::new();
    data.insert(make_rule("*", vec![SelectorPart::Other], 0));

    assert_eq!(data.num_selectors(), 1);
    assert_eq!(data.universal_rules().len(), 1);
}

#[test]
fn insert_attribute_selector_is_universal() {
    let mut data = CascadeData::new();
    data.insert(make_rule("[disabled]", vec![SelectorPart::Attribute(s("disabled"))], 0));

    assert_eq!(data.universal_rules().len(), 1);
}

#[test]
fn id_takes_priority_over_class() {
    let mut data = CascadeData::new();
    data.insert(make_rule("#foo.bar", vec![id("foo"), class("bar")], 0));

    assert!(data.rules_by_id(&s("foo")).is_some());
    assert!(data.rules_by_class(&s("bar")).is_none());
}

#[test]
fn class_takes_priority_over_tag() {
    let mut data = CascadeData::new();
    data.insert(make_rule("div.container", vec![tag("div"), class("container")], 0));

    assert!(data.rules_by_class(&s("container")).is_some());
    assert!(data.rules_by_tag(&s("div")).is_none());
}

#[test]
fn multiple_rules_same_bucket() {
    let mut data = CascadeData::new();
    data.insert(make_rule(".btn", vec![class("btn")], 0));
    data.insert(make_rule(".btn:hover", vec![class("btn"), SelectorPart::PseudoClass(PseudoClass::Hover)], 1));

    let rules = data.rules_by_class(&s("btn")).expect("failed");
    assert_eq!(rules.len(), 2);
    assert_eq!(rules[0].source_order, 0);
    assert_eq!(rules[1].source_order, 1);
}

#[test]
fn clear_removes_all() {
    let mut data = CascadeData::new();
    data.insert(make_rule("#id", vec![id("id")], 0));
    data.insert(make_rule(".class", vec![class("class")], 1));
    data.insert(make_rule("tag", vec![tag("tag")], 2));
    data.insert(make_rule("*", vec![SelectorPart::Other], 3));

    data.clear();

    assert!(data.rules_by_id(&s("id")).is_none());
    assert!(data.rules_by_class(&s("class")).is_none());
    assert!(data.rules_by_tag(&s("tag")).is_none());
    assert!(data.universal_rules().is_empty());
    assert_eq!(data.num_selectors(), 0);
}

#[test]
fn bucket_looks_only_at_the_subject() {
    // #a .b: the id is on an ancestor, so the rule goes by its class
    let key = extract_bucket_key(&vec![class("b"), SelectorPart::Combinator(Combinator::Descendant), id("a")]);
    assert!(matches!(key, BucketKey::Class(ref c) if c == "b"));
    // div .b: the subject has a class, the tag is an ancestor's
    let key = extract_bucket_key(&vec![SelectorPart::Other, SelectorPart::Combinator(Combinator::Child), tag("div")]);
    assert!(matches!(key, BucketKey::Universal));
    // the first class of the subject wins
    let key = extract_bucket_key(&vec![class("x"), class("y")]);
    assert!(matches!(key, BucketKey::Class(ref c) if c == "x"));
}

#[test]
fn declarations_are_counted_per_selector() {
    let mut data: CascadeData<&str, u8> = CascadeData::new();
    let decls = Arc::new(vec![1u8, 2, 3]);
    data.insert(BulmaRule::new(".a", vec![class("a")], 10, decls.clone(), 0));
    data.insert(BulmaRule::new(".b", vec![class("b")], 10, decls, 0));
    assert_eq!(data.num_selectors(), 2);
    assert_eq!(data.num_declarations(), 6);
    assert_eq!(data.rules_by_class(&s("a")).unwrap()[0].specificity(), 10);
}
