use capsule_corp::custom::{CustomPropertiesMap, CustomPropertiesResolver, CustomValue};
use capsule_corp::unresolved::{SubstituteError, UnresolvedValue, VarFallback, VarReference};
use capsule_corp::value_parser::parse_value_with_vars;
use cssparser::TokenSerializationType;

/// A `var()` named `name` spanning bytes `start..end`, with a fallback
/// starting at `fallback`.
fn reference(name: &str, start: usize, end: usize, fallback: Option<usize>) -> VarReference {
    VarReference {
        name: name.to_string(),
        start,
        end,
        prev_token_type: TokenSerializationType::Nothing,
        next_token_type: TokenSerializationType::Nothing,
        fallback: fallback.map(|start| VarFallback {
            start,
            first_token_type: TokenSerializationType::Nothing,
            last_token_type: TokenSerializationType::Nothing,
        }),
    }
}

fn value(css: &str, references: Vec<VarReference>) -> UnresolvedValue {
    UnresolvedValue {
        css: css.to_string(),
        first_token_type: TokenSerializationType::Nothing,
        last_token_type: TokenSerializationType::Nothing,
        references,
    }
}

/// `var(--name)`
fn var(name: &str) -> UnresolvedValue {
    let css = format!("var(--{name})");
    let len = css.len();
    value(&css, vec![reference(name, 0, len, None)])
}

/// The value with `var()`s that `text` holds.
fn parse(text: &str) -> UnresolvedValue {
    parse_value_with_vars(text, TokenSerializationType::Nothing)
        .expect("parse error")
        .unresolved
        .expect("expected var()")
}

fn vars(pairs: &[(&str, &str)]) -> CustomPropertiesMap {
    let mut m = CustomPropertiesMap::new();
    for (k, v) in pairs {
        m.insert(k.to_string(), v.to_string());
    }
    m
}

fn resolved(s: &str) -> CustomValue {
    CustomValue::Resolved(s.to_string())
}

#[test]
fn empty_builder() {
    let map = CustomPropertiesResolver::new(None).build();
    assert!(map.is_empty());
}

#[test]
fn simple_resolved() {
    let mut builder = CustomPropertiesResolver::new(None);
    builder.add("color".to_string(), resolved("red"));

    let map = builder.build();
    assert_eq!(map.get("color"), Some("red"));
}

#[test]
fn cascade_order() {
    let mut builder = CustomPropertiesResolver::new(None);
    builder.add("color".to_string(), resolved("red"));
    builder.add("color".to_string(), resolved("blue"));

    let map = builder.build();
    assert_eq!(map.get("color"), Some("blue"));
}

#[test]
fn inheritance() {
    let mut parent_builder = CustomPropertiesResolver::new(None);
    parent_builder.add("color".to_string(), resolved("red"));
    let parent = parent_builder.build();

    let child_builder = CustomPropertiesResolver::new(Some(&parent));
    let child = child_builder.build();

    assert_eq!(child.get("color"), Some("red"));
}

#[test]
fn override_inherited() {
    let mut parent_builder = CustomPropertiesResolver::new(None);
    parent_builder.add("color".to_string(), resolved("red"));
    let parent = parent_builder.build();

    let mut child_builder = CustomPropertiesResolver::new(Some(&parent));
    child_builder.add("color".to_string(), resolved("blue"));
    let child = child_builder.build();

    assert_eq!(child.get("color"), Some("blue"));
}

#[test]
fn initial_resets() {
    let mut parent_builder = CustomPropertiesResolver::new(None);
    parent_builder.add("color".to_string(), resolved("red"));
    let parent = parent_builder.build();

    let mut child_builder = CustomPropertiesResolver::new(Some(&parent));
    child_builder.add("color".to_string(), CustomValue::Initial);
    let child = child_builder.build();

    assert_eq!(child.get("color"), None);
}

#[test]
fn inherit_keeps_parent_value() {
    let parent = vars(&[("color", "red")]);
    let mut child_builder = CustomPropertiesResolver::new(Some(&parent));
    child_builder.add("color".to_string(), CustomValue::Inherit);
    child_builder.add("size".to_string(), CustomValue::Inherit);
    let child = child_builder.build();
    assert_eq!(child.get("color"), Some("red"));
    assert_eq!(child.get("size"), None);
}

#[test]
fn var_substitution() {
    let mut builder = CustomPropertiesResolver::new(None);
    builder.add("primary".to_string(), resolved("blue"));
    builder.add("color".to_string(), CustomValue::Unresolved(var("primary")));

    let map = builder.build();
    assert_eq!(map.get("color"), Some("blue"));
}

#[test]
fn var_chain() {
    let mut builder = CustomPropertiesResolver::new(None);
    builder.add("a".to_string(), resolved("red"));
    builder.add("b".to_string(), CustomValue::Unresolved(var("a")));
    builder.add("c".to_string(), CustomValue::Unresolved(var("b")));

    let map = builder.build();
    assert_eq!(map.get("c"), Some("red"));
}

#[test]
fn var_chain_declared_in_reverse() {
    let mut builder = CustomPropertiesResolver::new(None);
    builder.add("c".to_string(), CustomValue::Unresolved(var("b")));
    builder.add("b".to_string(), CustomValue::Unresolved(var("a")));
    builder.add("a".to_string(), resolved("red"));

    let map = builder.build();
    assert_eq!(map.get("c"), Some("red"));
    assert_eq!(map.get("b"), Some("red"));
    assert_eq!(map.len(), 3);
}

#[test]
fn cycle_detection() {
    let mut builder = CustomPropertiesResolver::new(None);
    builder.add("a".to_string(), CustomValue::Unresolved(var("b")));
    builder.add("b".to_string(), CustomValue::Unresolved(var("a")));

    let map = builder.build();
    assert_eq!(map.get("a"), None);
    assert_eq!(map.get("b"), None);
}

#[test]
fn self_reference_is_dropped() {
    let mut builder = CustomPropertiesResolver::new(None);
    builder.add("a".to_string(), CustomValue::Unresolved(var("a")));
    let map = builder.build();
    assert_eq!(map.get("a"), None);
}

#[test]
fn undefined_with_fallback() {
    let mut builder = CustomPropertiesResolver::new(None);
    builder.add(
        "color".to_string(),
        CustomValue::Unresolved(value("var(--missing, red)", vec![reference("missing", 0, 19, Some(15))])),
    );

    let map = builder.build();
    assert_eq!(map.get("color"), Some("red"));
}

#[test]
fn undefined_no_fallback_inherits() {
    let mut parent_builder = CustomPropertiesResolver::new(None);
    parent_builder.add("color".to_string(), resolved("inherited-red"));
    let parent = parent_builder.build();

    let mut child_builder = CustomPropertiesResolver::new(Some(&parent));
    child_builder.add("color".to_string(), CustomValue::Unresolved(var("missing")));
    let child = child_builder.build();

    assert_eq!(child.get("color"), Some("inherited-red"));
}

#[test]
fn substitute_simple() {
    let unresolved = parse("var(--color)");
    let result = unresolved.substitute(&vars(&[("color", "red")]));
    assert_eq!(result.expect("failed"), "red");
}

#[test]
fn substitute_with_surrounding_text() {
    let unresolved = parse("1px solid var(--color)");
    let result = unresolved.substitute(&vars(&[("color", "blue")]));
    assert_eq!(result.expect("failed"), "1px solid blue");
}

#[test]
fn substitute_multiple_vars() {
    let unresolved = parse("var(--x) var(--y)");
    let result = unresolved.substitute(&vars(&[("x", "10"), ("y", "20")]));
    assert_eq!(result.expect("failed"), "10 20");
}

#[test]
fn substitute_uses_fallback() {
    let unresolved = parse("var(--missing, fallback-value)");
    let result = unresolved.substitute(&vars(&[]));
    assert_eq!(result.expect("failed"), "fallback-value");
}

#[test]
fn substitute_prefers_value_over_fallback() {
    let unresolved = parse("var(--color, fallback)");
    let result = unresolved.substitute(&vars(&[("color", "red")]));
    assert_eq!(result.expect("failed"), "red");
}

#[test]
fn substitute_undefined_no_fallback_errors() {
    let unresolved = parse("var(--missing)");
    let result = unresolved.substitute(&vars(&[]));
    assert!(matches!(result, Err(SubstituteError::UndefinedVariable(name)) if name == "missing"));
}

#[test]
fn substitute_in_calc() {
    let unresolved = parse("calc(var(--size) + 10)");
    let result = unresolved.substitute(&vars(&[("size", "100")]));
    assert_eq!(result.expect("failed"), "calc(100 + 10)");
}

#[test]
fn substitute_empty_value() {
    let unresolved = parse("var(--empty)");
    let result = unresolved.substitute(&vars(&[("empty", "")]));
    assert_eq!(result.expect("failed"), "");
}

#[test]
fn substitute_nested_fallback() {
    // var(--a, var(--b)): the inner reference comes first, as a parser records it
    let unresolved = value(
        "var(--a, var(--b))",
        vec![reference("b", 9, 17, None), reference("a", 0, 18, Some(9))],
    );
    assert_eq!(unresolved.substitute(&vars(&[("b", "green")])).expect("failed"), "green");
    assert_eq!(unresolved.substitute(&vars(&[("a", "red"), ("b", "green")])).expect("failed"), "red");
    assert!(matches!(
        unresolved.substitute(&vars(&[])),
        Err(SubstituteError::UndefinedVariable(name)) if name == "b"
    ));
}

#[test]
fn substitute_keeps_non_ascii_text() {
    let unresolved = value("«var(--x)»", vec![reference("x", 2, 10, None)]);
    assert_eq!(unresolved.substitute(&vars(&[("x", "é")])).expect("failed"), "«é»");
}

#[test]
fn map_insert_remove() {
    let mut m = vars(&[("a", "1"), ("b", "2")]);
    assert_eq!(m.len(), 2);
    m.insert("a".to_string(), "3".to_string());
    assert_eq!(m.len(), 2);
    assert_eq!(m.get("a"), Some("3"));
    m.remove("a");
    assert_eq!(m.get("a"), None);
    assert!(!m.contains_key("a"));
    assert!(m.contains_key("b"));
    assert!(!m.is_empty());
    m.remove("b");
    assert!(m.is_empty());
}

#[test]
fn well_formed_references() {
    assert!(value("var(--a)", vec![reference("a", 0, 8, None)]).is_well_formed());
    assert!(value("var(--a, b)", vec![reference("a", 0, 11, Some(9))]).is_well_formed());
    assert!(!value("var(--a)", vec![reference("a", 0, 9, None)]).is_well_formed());
    assert!(!value("var(--a)", vec![reference("a", 4, 4, None)]).is_well_formed());
    assert!(!value("var(--a, b)", vec![reference("a", 0, 11, Some(11))]).is_well_formed());
    assert!(!value("é var(--a)", vec![reference("a", 1, 11, None)]).is_well_formed());
}

#[test]
fn references_are_counted() {
    assert!(value("var(--a)", vec![reference("a", 0, 8, None)]).has_references());
    assert!(!value("red", vec![]).has_references());
}

#[test]
fn value_using_inherited_properties_only() {
    let parent = vars(&[("primary", "blue"), ("kept", "old")]);
    let mut builder = CustomPropertiesResolver::new(Some(&parent));
    builder.add("button".to_string(), CustomValue::Unresolved(var("primary")));
    builder.add("missing".to_string(), CustomValue::Unresolved(var("nowhere")));
    builder.add("kept".to_string(), CustomValue::Unresolved(var("nowhere")));
    let map = builder.build();
    assert_eq!(map.get("button"), Some("blue"));
    assert_eq!(map.get("missing"), None);
    assert_eq!(map.get("kept"), Some("old"));
    assert_eq!(map.get("primary"), Some("blue"));
}

#[test]
fn substitution_without_references_keeps_text() {
    let plain = value("1 solid red", vec![]);
    assert_eq!(plain.substitute(&vars(&[("a", "b")])).unwrap(), "1 solid red");
    assert_eq!(plain.substitute(&CustomPropertiesMap::new()).unwrap(), "1 solid red");
}

#[test]
fn substitution_reads_only_used_properties() {
    let v = var("color");
    let a = vars(&[("color", "red"), ("other", "x")]);
    let b = vars(&[("color", "red"), ("other", "y"), ("more", "z")]);
    assert_eq!(v.substitute(&a).unwrap(), v.substitute(&b).unwrap());
}

#[test]
fn values_clone_field_by_field() {
    let v = value("var(--a, b)", vec![reference("a", 0, 11, Some(9))]);
    let c = v.clone();
    assert_eq!(c.css, v.css);
    assert_eq!(c.references.len(), 1);
    assert_eq!(c.references[0].name, "a");
    assert_eq!(c.references[0].fallback.as_ref().map(|f| f.start), Some(9));
    match CustomValue::Unresolved(v).clone() {
        CustomValue::Unresolved(u) => assert_eq!(u.css, "var(--a, b)"),
        _ => panic!("clone changed the kind"),
    }
    assert!(matches!(CustomValue::Inherit.clone(), CustomValue::Inherit));
}

#[test]
fn failing_dependency_drops_its_user() {
    let mut builder = CustomPropertiesResolver::new(None);
    builder.add(
        "c".to_string(),
        CustomValue::Unresolved(value("var(--b, blue)", vec![reference("b", 0, 14, Some(9))])),
    );
    builder.add("b".to_string(), CustomValue::Unresolved(var("missing")));
    let map = builder.build();
    assert_eq!(map.get("b"), None);
    assert_eq!(map.get("c"), None);
}

#[test]
fn user_of_a_cycle_is_dropped() {
    let mut builder = CustomPropertiesResolver::new(None);
    builder.add("c".to_string(), CustomValue::Unresolved(var("a")));
    builder.add("d".to_string(), resolved("kept"));
    builder.add("a".to_string(), CustomValue::Unresolved(var("b")));
    builder.add("b".to_string(), CustomValue::Unresolved(var("a")));
    let map = builder.build();
    assert_eq!(map.get("a"), None);
    assert_eq!(map.get("b"), None);
    assert_eq!(map.get("c"), None);
    assert_eq!(map.get("d"), Some("kept"));
}

#[test]
fn initial_dependency_takes_the_fallback() {
    let mut builder = CustomPropertiesResolver::new(None);
    builder.add(
        "c".to_string(),
        CustomValue::Unresolved(value("var(--b, blue)", vec![reference("b", 0, 14, Some(9))])),
    );
    builder.add("b".to_string(), CustomValue::Initial);
    let map = builder.build();
    assert_eq!(map.get("b"), None);
    assert_eq!(map.get("c"), Some("blue"));
}

#[test]
fn declared_value_replaces_inherited_for_its_users() {
    let mut parent_builder = CustomPropertiesResolver::new(None);
    parent_builder.add("a".to_string(), resolved("red"));
    let parent = parent_builder.build();

    let mut child = CustomPropertiesResolver::new(Some(&parent));
    child.add("a".to_string(), resolved("blue"));
    child.add("b".to_string(), CustomValue::Unresolved(var("a")));
    let map = child.build();
    assert_eq!(map.get("a"), Some("blue"));
    assert_eq!(map.get("b"), Some("blue"));

    let mut child = CustomPropertiesResolver::new(Some(&parent));
    child.add("b".to_string(), CustomValue::Unresolved(var("a")));
    child.add("a".to_string(), resolved("blue"));
    let map = child.build();
    assert_eq!(map.get("a"), Some("blue"));
    assert_eq!(map.get("b"), Some("blue"));
}

#[test]
fn failing_inherited_property_keeps_its_value_and_fails_its_users() {
    let mut parent_builder = CustomPropertiesResolver::new(None);
    parent_builder.add("a".to_string(), resolved("red"));
    let parent = parent_builder.build();

    for reversed in [false, true] {
        let mut child = CustomPropertiesResolver::new(Some(&parent));
        let a = ("a".to_string(), CustomValue::Unresolved(var("missing")));
        let b = ("b".to_string(), CustomValue::Unresolved(var("a")));
        if reversed {
            child.add(b.0, b.1);
            child.add(a.0, a.1);
        } else {
            child.add(a.0, a.1);
            child.add(b.0, b.1);
        }
        let map = child.build();
        assert_eq!(map.get("a"), Some("red"));
        assert_eq!(map.get("b"), None);
    }
}

#[test]
fn declared_initial_hides_inherited_value() {
    let mut parent_builder = CustomPropertiesResolver::new(None);
    parent_builder.add("a".to_string(), resolved("red"));
    let parent = parent_builder.build();
    let mut child = CustomPropertiesResolver::new(Some(&parent));
    child.add(
        "b".to_string(),
        CustomValue::Unresolved(value("var(--a, blue)", vec![reference("a", 0, 14, Some(9))])),
    );
    child.add("a".to_string(), CustomValue::Initial);
    let map = child.build();
    assert_eq!(map.get("a"), None);
    assert_eq!(map.get("b"), Some("blue"));
}
