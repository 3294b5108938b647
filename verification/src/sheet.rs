use vstd::prelude::*;

use crate::selector::SelectorPart;

verus! {

/// A selector of a style sheet, with what the library reads of it: its parts
/// from the subject outwards, and its specificity. `S` is the caller's own
/// form of the selector.
pub struct SelectorEntry<S> {
    pub selector: S,
    pub parts: Vec<SelectorPart>,
    pub specificity: u32,
}

/// A style rule: selectors, declarations, and the rules nested in it, whose
/// selectors are already resolved against this rule's.
pub struct Rule<S, D> {
    pub selectors: Vec<SelectorEntry<S>>,
    pub declarations: Vec<D>,
    pub nested_rules: Vec<Rule<S, D>>,
}

/// A parsed style sheet.
pub struct Stylesheet<S, D> {
    pub rules: Vec<Rule<S, D>>,
}

/// One selector of a style sheet as the engine takes it in: the selector,
/// its parts, its specificity and the declarations of its rule.
pub struct SheetEntry<S, D> {
    pub selector: S,
    pub parts: Seq<SelectorPart>,
    pub specificity: u32,
    pub declarations: Seq<D>,
}

/// The selectors of a rule and of the rules nested in it, depth first: the
/// rule's own selectors, then each nested rule's in turn.
pub open spec fn rule_entries<S, D>(rule: Rule<S, D>) -> Seq<SheetEntry<S, D>>
    decreases rule,
{
    rule.selectors@.map_values(
        |e: SelectorEntry<S>|
            SheetEntry {
                selector: e.selector,
                parts: e.parts@,
                specificity: e.specificity,
                declarations: rule.declarations@,
            },
    ) + rules_entries(rule.nested_rules@)
}

/// The selectors of a sequence of rules, depth first.
pub open spec fn rules_entries<S, D>(rules: Seq<Rule<S, D>>) -> Seq<SheetEntry<S, D>>
    decreases rules,
{
    if rules.len() == 0 {
        Seq::empty()
    } else {
        rules_entries(rules.drop_last()) + rule_entries(rules.last())
    }
}

} // verus!
