use capsule_corp::bulma::{Bulma, AUTHOR_SOURCE_ORDER_START};
use capsule_corp::restyle::RestyleHint;
use capsule_corp::selector::{PseudoClass, SelectorPart};
use capsule_corp::sheet::{Rule, SelectorEntry, Stylesheet};
use capsule_corp::state::ElementState;

fn s(n: &str) -> String {
    n.to_string()
}

fn entry(text: &'static str, parts: Vec<SelectorPart>, specificity: u32) -> SelectorEntry<&'static str> {
    SelectorEntry { selector: text, parts, specificity }
}

fn rule(selectors: Vec<SelectorEntry<&'static str>>, declarations: Vec<&'static str>) -> Rule<&'static str, &'static str> {
    Rule { selectors, declarations, nested_rules: vec![] }
}

fn sheet(rules: Vec<Rule<&'static str, &'static str>>) -> Stylesheet<&'static str, &'static str> {
    Stylesheet { rules }
}

fn class(n: &str) -> SelectorPart {
    SelectorPart::Class(n.to_string())
}

/// `.foo { color: red }`
fn foo_sheet() -> Stylesheet<&'static str, &'static str> {
    sheet(vec![rule(vec![entry(".foo", vec![class("foo")], 1 << 10)], vec!["color: red"])])
}

#[test]
fn empty_bulma() {
    let bulma: Bulma<&str, &str> = Bulma::new();
    assert_eq!(bulma.num_selectors(), 0);
    assert_eq!(bulma.num_declarations(), 0);
    assert_eq!(bulma.num_rebuilds(), 0);
}

#[test]
fn add_stylesheet_increments_rebuilds() {
    let mut bulma = Bulma::new();
    let stylesheet = foo_sheet();

    bulma.add_stylesheet(&stylesheet);
    assert_eq!(bulma.num_rebuilds(), 1);

    bulma.add_stylesheet(&stylesheet);
    assert_eq!(bulma.num_rebuilds(), 2);
}

#[test]
fn add_stylesheet_counts_selectors() {
    let mut bulma = Bulma::new();
    // .a, .b, .c { color: red }
    let stylesheet = sheet(vec![rule(
        vec![
            entry(".a", vec![class("a")], 1 << 10),
            entry(".b", vec![class("b")], 1 << 10),
            entry(".c", vec![class("c")], 1 << 10),
        ],
        vec!["color: red"],
    )]);

    bulma.add_stylesheet(&stylesheet);
    assert_eq!(bulma.num_selectors(), 3);
    assert_eq!(bulma.num_declarations(), 3);
}

#[test]
fn restyle_hint_for_hover_change() {
    let mut bulma = Bulma::new();
    // .btn:hover { color: blue }
    let stylesheet = sheet(vec![rule(
        vec![entry(".btn:hover", vec![class("btn"), SelectorPart::PseudoClass(PseudoClass::Hover)], 2 << 10)],
        vec!["color: blue"],
    )]);
    bulma.add_stylesheet(&stylesheet);

    let hint = bulma.restyle_hint_for_state_change(ElementState::empty(), ElementState::hover());

    assert!(hint.contains(RestyleHint::restyle_self()));
}

#[test]
fn restyle_hint_for_class_change() {
    let mut bulma = Bulma::new();
    let stylesheet = sheet(vec![rule(vec![entry(".active", vec![class("active")], 1 << 10)], vec!["color: blue"])]);
    bulma.add_stylesheet(&stylesheet);

    let hint = bulma.restyle_hint_for_class_change(&s("active"));
    assert!(hint.contains(RestyleHint::restyle_self()));
}

#[test]
fn restyle_hint_for_class_change_no_dependency() {
    let mut bulma = Bulma::new();
    let stylesheet = sheet(vec![rule(vec![entry(".active", vec![class("active")], 1 << 10)], vec!["color: blue"])]);
    bulma.add_stylesheet(&stylesheet);

    let hint = bulma.restyle_hint_for_class_change(&s("inactive"));
    assert!(hint.is_empty());
}

#[test]
fn restyle_hint_for_id_change() {
    let mut bulma = Bulma::new();
    let stylesheet = sheet(vec![rule(vec![entry("#main", vec![SelectorPart::Id(s("main"))], 1 << 20)], vec!["color: blue"])]);
    bulma.add_stylesheet(&stylesheet);

    let hint = bulma.restyle_hint_for_id_change(&s("main"));
    assert!(hint.contains(RestyleHint::restyle_self()));
}

#[test]
fn restyle_hint_for_id_change_no_dependency() {
    let mut bulma = Bulma::new();
    let stylesheet = sheet(vec![rule(vec![entry("#main", vec![SelectorPart::Id(s("main"))], 1 << 20)], vec!["color: blue"])]);
    bulma.add_stylesheet(&stylesheet);

    let hint = bulma.restyle_hint_for_id_change(&s("sidebar"));
    assert!(hint.is_empty());
}

#[test]
fn clear_removes_ua_and_author() {
    let mut bulma = Bulma::new();
    let ua = sheet(vec![rule(vec![entry("div", vec![SelectorPart::Tag(s("div"))], 1)], vec!["color: red"])]);
    let author = sheet(vec![rule(vec![entry(".foo", vec![class("foo")], 1 << 10)], vec!["color: blue"])]);

    bulma.add_ua_stylesheet(&ua);
    bulma.add_stylesheet(&author);

    assert_eq!(bulma.num_selectors(), 2);

    bulma.clear();

    assert_eq!(bulma.num_selectors(), 0);
}

#[test]
fn rules_of_one_sheet_share_its_source_order() {
    let mut bulma = Bulma::new();
    let first = foo_sheet();
    // .x { } .y { }
    let second = sheet(vec![
        rule(vec![entry(".x", vec![class("x")], 1 << 10)], vec![]),
        rule(vec![entry(".y", vec![class("y")], 1 << 10)], vec![]),
    ]);
    bulma.add_stylesheet(&first);
    bulma.add_stylesheet(&second);
    let data = bulma.cascade_data();
    let foo = data.rules_by_class(&s("foo")).unwrap();
    let x = data.rules_by_class(&s("x")).unwrap();
    let y = data.rules_by_class(&s("y")).unwrap();
    assert_eq!(foo[0].source_order, AUTHOR_SOURCE_ORDER_START);
    assert_eq!(x[0].source_order, AUTHOR_SOURCE_ORDER_START + 1);
    assert_eq!(y[0].source_order, AUTHOR_SOURCE_ORDER_START + 1);
}

#[test]
fn user_agent_rules_sort_before_author_rules() {
    let mut bulma = Bulma::new();
    let ua = sheet(vec![rule(vec![entry("div", vec![SelectorPart::Tag(s("div"))], 1)], vec!["color: red"])]);
    let author = sheet(vec![rule(vec![entry("div", vec![SelectorPart::Tag(s("div"))], 1)], vec!["color: blue"])]);
    bulma.add_ua_stylesheet(&ua);
    bulma.add_stylesheet(&author);
    let rules = bulma.cascade_data().rules_by_tag(&s("div")).unwrap();
    assert_eq!(rules.len(), 2);
    assert_eq!(rules[0].source_order, AUTHOR_SOURCE_ORDER_START);
    assert_eq!(rules[1].source_order, AUTHOR_SOURCE_ORDER_START | 1);
    assert!(rules[0].source_order < rules[1].source_order);
}

#[test]
fn nested_rules_come_after_their_parent() {
    let mut bulma = Bulma::new();
    // .card { .title { } }
    let inner = rule(
        vec![entry(".card .title", vec![class("title"), SelectorPart::Combinator(capsule_corp::selector::Combinator::Descendant), class("card")], 2 << 10)],
        vec!["a", "b"],
    );
    let outer = Rule {
        selectors: vec![entry(".card", vec![class("card")], 1 << 10)],
        declarations: vec!["c"],
        nested_rules: vec![inner],
    };
    bulma.add_stylesheet(&sheet(vec![outer]));
    assert_eq!(bulma.num_selectors(), 2);
    assert_eq!(bulma.num_declarations(), 3);
    let hint = bulma.restyle_hint_for_class_change(&s("card"));
    assert!(hint.contains(RestyleHint::restyle_self()));
    assert!(hint.contains(RestyleHint::restyle_descendants()));
}

#[test]
fn source_order_moves_past_added_rules() {
    let mut bulma = Bulma::new();
    assert_eq!(bulma.source_order(), AUTHOR_SOURCE_ORDER_START);
    bulma.add_stylesheet(&foo_sheet());
    assert_eq!(bulma.source_order(), AUTHOR_SOURCE_ORDER_START + 1);
    bulma.add_ua_stylesheet(&foo_sheet());
    assert_eq!(bulma.source_order(), AUTHOR_SOURCE_ORDER_START + 2);
}

#[test]
fn stylesheets_fit_a_fresh_engine() {
    let bulma: Bulma<&str, &str> = Bulma::new();
    assert!(bulma.fits_stylesheet(&foo_sheet(), false));
    assert!(bulma.fits_stylesheet(&foo_sheet(), true));
    let empty = sheet(vec![]);
    assert!(bulma.fits_stylesheet(&empty, false));
}
