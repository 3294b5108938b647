use capsule_corp::order::{
    cascade_order, sort_by_cascade_key, ApplicableDeclaration, DeclarationFlags, DeclarationSource,
};

fn ad(name: &'static str, specificity: u32, source_order: u32) -> ApplicableDeclaration<&'static str> {
    ApplicableDeclaration { declarations: name, specificity, source_order }
}

fn normal() -> DeclarationFlags {
    DeclarationFlags { is_custom_property: false, has_custom_value: false, important: false }
}

fn important() -> DeclarationFlags {
    DeclarationFlags { is_custom_property: false, has_custom_value: false, important: true }
}

fn custom() -> DeclarationFlags {
    DeclarationFlags { is_custom_property: true, has_custom_value: true, important: false }
}

#[test]
fn sort_key_is_specificity_then_order() {
    assert_eq!(ad("a", 3, 9).sort_key(), (3, 9));
}

#[test]
fn sort_orders_by_specificity_then_source() {
    let mut v = vec![ad("id", 1 << 20, 0), ad("class-late", 1 << 10, 5), ad("tag", 1, 7), ad("class-early", 1 << 10, 2)];
    sort_by_cascade_key(&mut v);
    let names: Vec<&str> = v.iter().map(|a| a.declarations).collect();
    assert_eq!(names, vec!["tag", "class-early", "class-late", "id"]);
}

#[test]
fn sort_keeps_equal_keys_in_order() {
    let mut v = vec![ad("b1", 5, 1), ad("a", 1, 0), ad("b2", 5, 1), ad("b3", 5, 1)];
    sort_by_cascade_key(&mut v);
    let names: Vec<&str> = v.iter().map(|a| a.declarations).collect();
    assert_eq!(names, vec!["a", "b1", "b2", "b3"]);
}

#[test]
fn sort_empty() {
    let mut v: Vec<ApplicableDeclaration<&str>> = vec![];
    sort_by_cascade_key(&mut v);
    assert!(v.is_empty());
}

#[test]
fn important_and_inline_order() {
    // two matched rules, each one normal and one important declaration;
    // a style attribute with one of each
    let matched = vec![vec![normal(), important()], vec![important(), normal()]];
    let inline = vec![important(), normal()];
    let order = cascade_order(&matched, &inline, false);
    assert_eq!(
        order,
        vec![
            DeclarationSource::Matched { rule: 0, index: 0 },
            DeclarationSource::Matched { rule: 1, index: 1 },
            DeclarationSource::Inline { index: 1 },
            DeclarationSource::Matched { rule: 0, index: 1 },
            DeclarationSource::Matched { rule: 1, index: 0 },
            DeclarationSource::Inline { index: 0 },
        ]
    );
}

#[test]
fn custom_and_standard_passes_are_separate() {
    let matched = vec![vec![custom(), normal()]];
    let inline = vec![custom()];
    let customs = cascade_order(&matched, &inline, true);
    assert_eq!(
        customs,
        vec![DeclarationSource::Matched { rule: 0, index: 0 }, DeclarationSource::Inline { index: 0 }]
    );
    let standard = cascade_order(&matched, &inline, false);
    assert_eq!(standard, vec![DeclarationSource::Matched { rule: 0, index: 1 }]);
}

#[test]
fn custom_property_with_keyword_value_is_in_neither_pass() {
    let odd = DeclarationFlags { is_custom_property: true, has_custom_value: false, important: false };
    let matched = vec![vec![odd]];
    assert!(cascade_order(&matched, &vec![], true).is_empty());
    assert!(cascade_order(&matched, &vec![], false).is_empty());
}
