use vstd::prelude::*;

use std::sync::Arc;

use crate::assoc::{has_name, named_values};
use crate::cascade::{data_grown_by, data_grown_with, grown_with, BulmaRule, CascadeData};
use crate::invalidation::{
    deps_hint, lemma_map_grown_by_one, lemma_map_grown_by_refl, lemma_map_grown_by_trans,
    map_grown_by, state_hint, InvalidationMap,
};
use crate::restyle::RestyleHint;
use crate::selector::clone_parts;
use crate::sheet::{rule_entries, rules_entries, Rule, SheetEntry, Stylesheet};
use crate::state::ElementState;

verus! {

/// Where the source order of author style sheets starts; user-agent rules
/// count below it.
pub const AUTHOR_SOURCE_ORDER_START: u32 = 1_000_000;

/// The number of declarations of a sequence of selectors, each counted with
/// its rule's declarations.
pub open spec fn entries_declarations<S, D>(s: Seq<SheetEntry<S, D>>) -> int
    decreases s.len(),
{
    if s.len() == 0 {
        0
    } else {
        entries_declarations(s.drop_last()) + s.last().declarations.len()
    }
}

proof fn lemma_entries_declarations_add<S, D>(a: Seq<SheetEntry<S, D>>, b: Seq<SheetEntry<S, D>>)
    ensures
        entries_declarations(a + b) == entries_declarations(a) + entries_declarations(b),
        entries_declarations(b) >= 0,
    decreases b.len(),
{
    if b.len() > 0 {
        assert((a + b).drop_last() =~= a + b.drop_last());
        lemma_entries_declarations_add(a, b.drop_last());
    } else {
        assert(a + b =~= a);
    }
}

/// Another handle on the same shared value.
#[verifier::external_body]
fn share<T>(a: &Arc<T>) -> (r: Arc<T>)
    ensures
        r == *a,
{
    Arc::clone(a)
}

/// `x`, or the largest `u128` where `x` is larger.
pub open spec fn capped(x: int) -> u128 {
    if x > u128::MAX {
        u128::MAX
    } else {
        x as u128
    }
}

proof fn lemma_entries_declarations_uniform<S, D>(es: Seq<SheetEntry<S, D>>, c: nat)
    requires
        forall|k: int| 0 <= k < es.len() ==> (#[trigger] es[k]).declarations.len() == c,
    ensures
        entries_declarations(es) == es.len() * c,
    decreases es.len(),
{
    if es.len() > 0 {
        assert forall|k: int| 0 <= k < es.drop_last().len() implies (
        #[trigger] es.drop_last()[k]).declarations.len() == c by {
            assert(es.drop_last()[k] == es[k]);
        }
        lemma_entries_declarations_uniform(es.drop_last(), c);
        assert(es.last() == es[es.len() - 1]);
        assert((es.len() - 1) * c + c == es.len() * c) by (nonlinear_arith);
    }
}

/// The number of selectors of a rule and of the rules nested in it, and
/// the number of declarations they add, each cut at the largest `u128`.
fn count_rule<S, D>(rule: &Rule<S, D>) -> (r: (u128, u128))
    ensures
        r.0 == capped(rule_entries(*rule).len() as int),
        r.1 == capped(entries_declarations(rule_entries(*rule))),
    decreases *rule,
{
    let ghost own = rule.selectors@.map_values(
        |e: crate::sheet::SelectorEntry<S>|
            SheetEntry {
                selector: e.selector,
                parts: e.parts@,
                specificity: e.specificity,
                declarations: rule.declarations@,
            },
    );
    let ghost nested_rules = rule.nested_rules@;
    let n_sel = rule.selectors.len() as u128;
    let n_decl = rule.declarations.len() as u128;
    proof {
        assert(rule_entries(*rule) == own + rules_entries(nested_rules));
        lemma_entries_declarations_uniform(own, rule.declarations@.len());
        assert(n_sel * n_decl <= u128::MAX) by (nonlinear_arith)
            requires
                n_sel <= 0xffff_ffff_ffff_ffff,
                n_decl <= 0xffff_ffff_ffff_ffff,
        ;
        assert(nested_rules.take(0) =~= Seq::<Rule<S, D>>::empty());
        assert(own + rules_entries(nested_rules.take(0)) =~= own);
    }
    let mut entries: u128 = n_sel;
    let mut declarations: u128 = n_sel * n_decl;
    let mut j: usize = 0;
    while j < rule.nested_rules.len()
        invariant
            j <= nested_rules.len(),
            nested_rules == rule.nested_rules@,
            own.len() == n_sel,
            entries_declarations(own) == n_sel * n_decl,
            entries == capped(own.len() + rules_entries(nested_rules.take(j as int)).len() as int),
            declarations == capped(
                entries_declarations(own) + entries_declarations(
                    rules_entries(nested_rules.take(j as int)),
                ),
            ),
        decreases nested_rules.len() - j,
    {
        let (e, d) = count_rule(&rule.nested_rules[j]);
        proof {
            lemma_rules_entries_prefix(nested_rules, j as int + 1);
            let before = rules_entries(nested_rules.take(j as int));
            let one = rule_entries(nested_rules[j as int]);
            lemma_entries_declarations_add(before, one);
            lemma_entries_declarations_add(Seq::empty(), before);
            assert(Seq::<SheetEntry<S, D>>::empty() + before =~= before);
        }
        entries = entries.saturating_add(e);
        declarations = declarations.saturating_add(d);
        j = j + 1;
    }
    proof {
        assert(nested_rules.take(nested_rules.len() as int) =~= nested_rules);
        lemma_entries_declarations_add(own, rules_entries(nested_rules));
    }
    (entries, declarations)
}

/// The number of selectors of the rules, nested ones included, and the
/// number of declarations they add, each cut at the largest `u128`.
fn count_rules<S, D>(rules: &Vec<Rule<S, D>>) -> (r: (u128, u128))
    ensures
        r.0 == capped(rules_entries(rules@).len() as int),
        r.1 == capped(entries_declarations(rules_entries(rules@))),
{
    let ghost all = rules@;
    let mut entries: u128 = 0;
    let mut declarations: u128 = 0;
    let mut j: usize = 0;
    proof {
        assert(all.take(0) =~= Seq::<Rule<S, D>>::empty());
    }
    while j < rules.len()
        invariant
            j <= all.len(),
            all == rules@,
            entries == capped(rules_entries(all.take(j as int)).len() as int),
            declarations == capped(entries_declarations(rules_entries(all.take(j as int)))),
        decreases all.len() - j,
    {
        let (e, d) = count_rule(&rules[j]);
        proof {
            lemma_rules_entries_prefix(all, j as int + 1);
            let before = rules_entries(all.take(j as int));
            let one = rule_entries(all[j as int]);
            lemma_entries_declarations_add(before, one);
            lemma_entries_declarations_add(Seq::empty(), before);
            assert(Seq::<SheetEntry<S, D>>::empty() + before =~= before);
        }
        entries = entries.saturating_add(e);
        declarations = declarations.saturating_add(d);
        j = j + 1;
    }
    proof {
        assert(all.take(all.len() as int) =~= all);
    }
    (entries, declarations)
}

/// The style engine: the rules of the style sheets, in buckets for
/// matching, and what each selector depends on, for invalidation.
pub struct Bulma<S, D> {
    cascade_data: CascadeData<S, D>,
    invalidation_map: InvalidationMap,
    num_rebuilds: usize,
    source_order: u32,
}

impl<S, D> Bulma<S, D> {
    pub closed spec fn spec_cascade_data(&self) -> CascadeData<S, D> {
        self.cascade_data
    }

    pub closed spec fn spec_invalidation_map(&self) -> InvalidationMap {
        self.invalidation_map
    }

    pub closed spec fn spec_num_rebuilds(&self) -> usize {
        self.num_rebuilds
    }

    /// The source order that the next style sheet's rules get.
    pub closed spec fn spec_source_order(&self) -> u32 {
        self.source_order
    }

    pub fn new() -> (b: Self)
        ensures
            b.spec_cascade_data().is_empty_data(),
            b.spec_invalidation_map().state@.len() == 0,
            b.spec_invalidation_map().attribute@.len() == 0,
            b.spec_invalidation_map().class@.len() == 0,
            b.spec_invalidation_map().id@.len() == 0,
            b.spec_num_rebuilds() == 0,
            b.spec_source_order() == AUTHOR_SOURCE_ORDER_START,
    {
        Bulma {
            cascade_data: CascadeData::new(),
            invalidation_map: InvalidationMap::new(),
            num_rebuilds: 0,
            source_order: AUTHOR_SOURCE_ORDER_START,
        }
    }

    /// The rules, in buckets for matching.
    pub fn cascade_data(&self) -> (r: &CascadeData<S, D>)
        ensures
            *r == self.spec_cascade_data(),
    {
        &self.cascade_data
    }

    /// Forgets every rule and dependency, and starts the source order anew.
    pub fn clear(&mut self)
        ensures
            final(self).spec_cascade_data().is_empty_data(),
            final(self).spec_invalidation_map().state@.len() == 0,
            final(self).spec_invalidation_map().attribute@.len() == 0,
            final(self).spec_invalidation_map().class@.len() == 0,
            final(self).spec_invalidation_map().id@.len() == 0,
            final(self).spec_num_rebuilds() == old(self).spec_num_rebuilds(),
            final(self).spec_source_order() == AUTHOR_SOURCE_ORDER_START,
    {
        self.cascade_data.clear();
        self.invalidation_map.clear();
        self.source_order = AUTHOR_SOURCE_ORDER_START;
    }

    pub fn restyle_hint_for_state_change(&self, old: ElementState, new: ElementState) -> (h:
        RestyleHint)
        ensures
            h@ == state_hint(self.spec_invalidation_map().state@, old@ ^ new@),
    {
        self.invalidation_map.restyle_hint_for_state_change(old, new)
    }

    pub fn restyle_hint_for_attribute_change(&self, attribute: &String) -> (h: RestyleHint)
        ensures
            h@ == deps_hint(named_values(self.spec_invalidation_map().attribute@, attribute@)),
    {
        self.invalidation_map.restyle_hint_for_attribute_change(attribute)
    }

    pub fn restyle_hint_for_class_change(&self, class: &String) -> (h: RestyleHint)
        ensures
            h@ == deps_hint(named_values(self.spec_invalidation_map().class@, class@)),
    {
        self.invalidation_map.restyle_hint_for_class_change(class)
    }

    pub fn restyle_hint_for_id_change(&self, id: &String) -> (h: RestyleHint)
        ensures
            h@ == deps_hint(named_values(self.spec_invalidation_map().id@, id@)),
    {
        self.invalidation_map.restyle_hint_for_id_change(id)
    }

    pub fn has_state_dependency(&self, state: ElementState) -> (r: bool)
        ensures
            r == exists|i: int|
                0 <= i < self.spec_invalidation_map().state@.len()
                    && (#[trigger] self.spec_invalidation_map().state@[i]).0@ & state@ != 0,
    {
        let r = self.invalidation_map.has_state_dependency(state);
        proof {
            let t = self.invalidation_map.state@;
            if r {
                let i = choose|i: int| 0 <= i < t.len() && (#[trigger] t[i]).0@ & state@ != 0;
                assert(self.spec_invalidation_map().state@[i] == t[i]);
            }
        }
        r
    }

    pub fn has_attribute_dependency(&self, attribute: &String) -> (r: bool)
        ensures
            r == has_name(self.spec_invalidation_map().attribute@, attribute@),
    {
        self.invalidation_map.has_attribute_dependency(attribute)
    }

    /// The number of selectors of the rules added since the last clear.
    pub fn num_selectors(&self) -> (r: usize)
        ensures
            r == self.spec_cascade_data().spec_num_selectors(),
    {
        self.cascade_data.num_selectors()
    }

    /// The number of declarations added since the last clear, counted once
    /// per selector of their rule.
    pub fn num_declarations(&self) -> (r: usize)
        ensures
            r == self.spec_cascade_data().spec_num_declarations(),
    {
        self.cascade_data.num_declarations()
    }

    /// The number of author style sheets added.
    pub fn num_rebuilds(&self) -> (r: usize)
        ensures
            r == self.spec_num_rebuilds(),
    {
        self.num_rebuilds
    }

    /// The source order the next author rule gets.
    pub fn source_order(&self) -> (r: u32)
        ensures
            r == self.spec_source_order(),
    {
        self.source_order
    }
}

impl<S: Clone, D: Clone> Bulma<S, D> {
    /// Whether the style sheet fits the engine's counts: added as a
    /// user-agent sheet (`user_agent`) or as an author sheet, its rules'
    /// source order, the selector and declaration counts and, for an author
    /// sheet, the rebuild count stay within their types.
    pub fn fits_stylesheet(&self, stylesheet: &Stylesheet<S, D>, user_agent: bool) -> (r: bool)
        ensures
            r == if user_agent {
                &&& (self.spec_source_order() & !AUTHOR_SOURCE_ORDER_START) + rules_entries(
                    stylesheet.rules@,
                ).len() <= u32::MAX
                &&& self.spec_cascade_data().spec_num_selectors() + rules_entries(
                    stylesheet.rules@,
                ).len() <= usize::MAX
                &&& self.spec_cascade_data().spec_num_declarations() + entries_declarations(
                    rules_entries(stylesheet.rules@),
                ) <= usize::MAX
            } else {
                &&& self.spec_source_order() + rules_entries(stylesheet.rules@).len() <= u32::MAX
                &&& self.spec_num_rebuilds() < usize::MAX
                &&& self.spec_cascade_data().spec_num_selectors() + rules_entries(
                    stylesheet.rules@,
                ).len() <= usize::MAX
                &&& self.spec_cascade_data().spec_num_declarations() + entries_declarations(
                    rules_entries(stylesheet.rules@),
                ) <= usize::MAX
            },
    {
        let (entries, declarations) = count_rules(&stylesheet.rules);
        proof {
            lemma_rules_entries_nonneg(stylesheet.rules@);
        }
        let order: u32 = if user_agent {
            self.source_order & !AUTHOR_SOURCE_ORDER_START
        } else {
            self.source_order
        };
        let order_fits = entries <= (u32::MAX - order) as u128;
        let selectors_fit = entries <= (usize::MAX - self.cascade_data.num_selectors()) as u128;
        let declarations_fit = declarations <= (usize::MAX - self.cascade_data.num_declarations())
            as u128;
        if user_agent {
            order_fits && selectors_fit && declarations_fit
        } else {
            order_fits && self.num_rebuilds < usize::MAX && selectors_fit && declarations_fit
        }
    }

    /// Adds the rule's selectors, then those of the rules nested in it; each
    /// gets the engine's source order, and `source_order` counts them.
    fn add_rule(&mut self, rule: &Rule<S, D>, source_order: &mut u32)
        requires
            *old(source_order) + rule_entries(*rule).len() <= u32::MAX,
            old(self).cascade_data.spec_num_selectors() + rule_entries(*rule).len() <= usize::MAX,
            old(self).cascade_data.spec_num_declarations() + entries_declarations(
                rule_entries(*rule),
            ) <= usize::MAX,
        ensures
            *final(source_order) == *old(source_order) + rule_entries(*rule).len(),
            final(self).cascade_data.spec_num_selectors() == old(
                self,
            ).cascade_data.spec_num_selectors() + rule_entries(*rule).len(),
            final(self).cascade_data.spec_num_declarations() == old(
                self,
            ).cascade_data.spec_num_declarations() + entries_declarations(rule_entries(*rule)),
            final(self).source_order == old(self).source_order,
            final(self).num_rebuilds == old(self).num_rebuilds,
            data_grown_with(old(self).cascade_data, final(self).cascade_data, old(self).source_order),
            data_grown_by(
                old(self).cascade_data,
                final(self).cascade_data,
                rule_entries(*rule),
                old(self).source_order,
            ),
            map_grown_by(old(self).invalidation_map, final(self).invalidation_map, rule_entries(*rule)),
        decreases *rule,
    {
        let ghost own = rule.selectors@.map_values(
            |e: crate::sheet::SelectorEntry<S>|
                SheetEntry {
                    selector: e.selector,
                    parts: e.parts@,
                    specificity: e.specificity,
                    declarations: rule.declarations@,
                },
        );
        let ghost nested = rules_entries(rule.nested_rules@);
        proof {
            assert(rule_entries(*rule) == own + nested);
            lemma_entries_declarations_add(own, nested);
        }
        let copies = rule.declarations.clone();
        proof {
            assert forall|d: int| 0 <= d < rule.declarations@.len() implies cloned(
                rule.declarations@[d],
                #[trigger] copies@[d],
            ) by {
                assert(cloned::<D>(rule.declarations[d], copies[d]));
            }
            assert forall|k: int| 0 <= k < own.len() implies #[trigger] own[k] == (SheetEntry {
                selector: rule.selectors@[k].selector,
                parts: rule.selectors@[k].parts@,
                specificity: rule.selectors@[k].specificity,
                declarations: rule.declarations@,
            }) by {}
        }
        let declarations = Arc::new(copies);
        proof {
            CascadeData::lemma_data_grown_refl(self.cascade_data, self.source_order);
            CascadeData::lemma_data_grown_by_refl(self.cascade_data, self.source_order);
            lemma_map_grown_by_refl::<S, D>(self.invalidation_map);
            assert(own.take(0) =~= Seq::<SheetEntry<S, D>>::empty());
        }
        let ghost start_order = *source_order;
        let ghost start_sel = self.cascade_data.spec_num_selectors();
        let ghost start_decl = self.cascade_data.spec_num_declarations();
        let mut i: usize = 0;
        while i < rule.selectors.len()
            invariant
                i <= rule.selectors@.len(),
                own.len() == rule.selectors@.len(),
                declarations@.len() == rule.declarations@.len(),
                *source_order == start_order + i,
                start_order + own.len() + nested.len() <= u32::MAX,
                self.cascade_data.spec_num_selectors() == start_sel + i,
                start_sel + own.len() + nested.len() <= usize::MAX,
                self.cascade_data.spec_num_declarations() == start_decl + entries_declarations(
                    own.take(i as int),
                ),
                start_decl + entries_declarations(own) + entries_declarations(nested) <= usize::MAX,
                entries_declarations(nested) >= 0,
                forall|k: int|
                    0 <= k < own.len() ==> #[trigger] own[k] == (SheetEntry {
                        selector: rule.selectors@[k].selector,
                        parts: rule.selectors@[k].parts@,
                        specificity: rule.selectors@[k].specificity,
                        declarations: rule.declarations@,
                    }),
                self.source_order == old(self).source_order,
                self.num_rebuilds == old(self).num_rebuilds,
                data_grown_with(old(self).cascade_data, self.cascade_data, self.source_order),
                data_grown_by(
                    old(self).cascade_data,
                    self.cascade_data,
                    own.take(i as int),
                    self.source_order,
                ),
                map_grown_by(old(self).invalidation_map, self.invalidation_map, own.take(i as int)),
                forall|d: int|
                    0 <= d < rule.declarations@.len() ==> cloned(
                        rule.declarations@[d],
                        #[trigger] declarations@[d],
                    ),
            decreases rule.selectors@.len() - i,
        {
            let entry = &rule.selectors[i];
            let ghost before_register = self.invalidation_map;
            self.invalidation_map.register_selector(&entry.parts);
            proof {
                lemma_map_grown_by_one(before_register, self.invalidation_map, own[i as int]);
                lemma_map_grown_by_trans(
                    old(self).invalidation_map,
                    before_register,
                    self.invalidation_map,
                    own.take(i as int),
                    seq![own[i as int]],
                );
            }
            proof {
                assert(own.take(i as int + 1).drop_last() =~= own.take(i as int));
                assert(own.take(i as int + 1) + own.skip(i as int + 1) =~= own);
                lemma_entries_declarations_add(own.take(i as int + 1), own.skip(i as int + 1));
            }
            let bulma_rule = BulmaRule::new(
                entry.selector.clone(),
                clone_parts(&entry.parts),
                entry.specificity,
                share(&declarations),
                self.source_order,
            );
            let ghost before_insert = self.cascade_data;
            self.cascade_data.insert(bulma_rule);
            proof {
                CascadeData::lemma_insert_grows(before_insert, self.cascade_data, bulma_rule);
                CascadeData::lemma_insert_grown_by(
                    before_insert,
                    self.cascade_data,
                    bulma_rule,
                    own[i as int],
                    self.source_order,
                );
                CascadeData::lemma_data_grown_by_trans(
                    old(self).cascade_data,
                    before_insert,
                    self.cascade_data,
                    own.take(i as int),
                    seq![own[i as int]],
                    self.source_order,
                );
                assert(own.take(i as int) + seq![own[i as int]] =~= own.take(i as int + 1));
                CascadeData::lemma_data_grown_trans(
                    old(self).cascade_data,
                    before_insert,
                    self.cascade_data,
                    self.source_order,
                );
            }
            *source_order = *source_order + 1;
            i = i + 1;
        }
        proof {
            assert(own.take(own.len() as int) =~= own);
        }
        let mut j: usize = 0;
        let ghost mid_order = *source_order;
        let ghost mid_sel = self.cascade_data.spec_num_selectors();
        let ghost mid_decl = self.cascade_data.spec_num_declarations();
        let ghost nested_rules = rule.nested_rules@;
        proof {
            assert(nested_rules.take(0) =~= Seq::<Rule<S, D>>::empty());
            assert(own + rules_entries(nested_rules.take(0)) =~= own.take(own.len() as int));
        }
        while j < rule.nested_rules.len()
            invariant
                j <= nested_rules.len(),
                nested_rules == rule.nested_rules@,
                nested == rules_entries(nested_rules),
                *source_order == mid_order + rules_entries(nested_rules.take(j as int)).len(),
                mid_order + nested.len() <= u32::MAX,
                self.cascade_data.spec_num_selectors() == mid_sel + rules_entries(
                    nested_rules.take(j as int),
                ).len(),
                mid_sel + nested.len() <= usize::MAX,
                self.cascade_data.spec_num_declarations() == mid_decl + entries_declarations(
                    rules_entries(nested_rules.take(j as int)),
                ),
                mid_decl + entries_declarations(nested) <= usize::MAX,
                self.source_order == old(self).source_order,
                self.num_rebuilds == old(self).num_rebuilds,
                data_grown_with(old(self).cascade_data, self.cascade_data, self.source_order),
                data_grown_by(
                    old(self).cascade_data,
                    self.cascade_data,
                    own + rules_entries(nested_rules.take(j as int)),
                    self.source_order,
                ),
                map_grown_by(
                    old(self).invalidation_map,
                    self.invalidation_map,
                    own + rules_entries(nested_rules.take(j as int)),
                ),
            decreases nested_rules.len() - j,
        {
            proof {
                let t = nested_rules.take(j as int + 1);
                assert(t.drop_last() =~= nested_rules.take(j as int));
                assert(t.last() == nested_rules[j as int]);
                lemma_rules_entries_prefix(nested_rules, j as int + 1);
                lemma_entries_declarations_add(
                    rules_entries(nested_rules.take(j as int)),
                    rule_entries(nested_rules[j as int]),
                );
                lemma_entries_declarations_add(
                    rules_entries(t),
                    rules_entries(nested_rules.skip(j as int + 1)),
                );
            }
            let ghost before_nested = self.cascade_data;
            let ghost map_before_nested = self.invalidation_map;
            self.add_rule(&rule.nested_rules[j], source_order);
            proof {
                lemma_map_grown_by_trans(
                    old(self).invalidation_map,
                    map_before_nested,
                    self.invalidation_map,
                    own + rules_entries(nested_rules.take(j as int)),
                    rule_entries(nested_rules[j as int]),
                );
                CascadeData::lemma_data_grown_trans(
                    old(self).cascade_data,
                    before_nested,
                    self.cascade_data,
                    self.source_order,
                );
                CascadeData::lemma_data_grown_by_trans(
                    old(self).cascade_data,
                    before_nested,
                    self.cascade_data,
                    own + rules_entries(nested_rules.take(j as int)),
                    rule_entries(nested_rules[j as int]),
                    self.source_order,
                );
                assert(own + rules_entries(nested_rules.take(j as int)) + rule_entries(
                    nested_rules[j as int],
                ) =~= own + rules_entries(nested_rules.take(j as int + 1)));
            }
            j = j + 1;
        }
        proof {
            assert(nested_rules.take(nested_rules.len() as int) =~= nested_rules);
        }
    }

    /// Adds a user-agent style sheet. Each selector, nested ones after their
    /// rule's, becomes a rule at the end of its bucket and has its
    /// dependencies recorded. Its rules get the engine's source order, and
    /// the counter goes on in the bits below the author start with the
    /// author bit kept as it was: they count below the author order only
    /// while no author sheet has been added before.
    pub fn add_ua_stylesheet(&mut self, stylesheet: &Stylesheet<S, D>)
        requires
            (old(self).spec_source_order() & !AUTHOR_SOURCE_ORDER_START) + rules_entries(
                stylesheet.rules@,
            ).len() <= u32::MAX,
            old(self).spec_cascade_data().spec_num_selectors() + rules_entries(
                stylesheet.rules@,
            ).len() <= usize::MAX,
            old(self).spec_cascade_data().spec_num_declarations() + entries_declarations(
                rules_entries(stylesheet.rules@),
            ) <= usize::MAX,
        ensures
            final(self).spec_source_order() == (((old(self).spec_source_order()
                & !AUTHOR_SOURCE_ORDER_START) + rules_entries(stylesheet.rules@).len()) as u32
                | (old(self).spec_source_order() & AUTHOR_SOURCE_ORDER_START)),
            final(self).spec_num_rebuilds() == old(self).spec_num_rebuilds(),
            data_grown_with(
                old(self).spec_cascade_data(),
                final(self).spec_cascade_data(),
                old(self).spec_source_order(),
            ),
            data_grown_by(
                old(self).spec_cascade_data(),
                final(self).spec_cascade_data(),
                rules_entries(stylesheet.rules@),
                old(self).spec_source_order(),
            ),
            map_grown_by(
                old(self).spec_invalidation_map(),
                final(self).spec_invalidation_map(),
                rules_entries(stylesheet.rules@),
            ),
            final(self).spec_cascade_data().spec_num_selectors() == old(
                self,
            ).spec_cascade_data().spec_num_selectors() + rules_entries(stylesheet.rules@).len(),
            final(self).spec_cascade_data().spec_num_declarations() == old(
                self,
            ).spec_cascade_data().spec_num_declarations() + entries_declarations(
                rules_entries(stylesheet.rules@),
            ),
    {
        let mut source_order = self.source_order & !AUTHOR_SOURCE_ORDER_START;
        self.add_rules(&stylesheet.rules, &mut source_order);
        self.source_order = source_order | (self.source_order & AUTHOR_SOURCE_ORDER_START);
    }

    /// Adds an author style sheet. Each selector, nested ones after their
    /// rule's, becomes a rule at the end of its bucket and has its
    /// dependencies recorded; the rules get the engine's source order, which
    /// then moves past them, and the rebuild count goes up by one.
    pub fn add_stylesheet(&mut self, stylesheet: &Stylesheet<S, D>)
        requires
            old(self).spec_source_order() + rules_entries(stylesheet.rules@).len() <= u32::MAX,
            old(self).spec_num_rebuilds() < usize::MAX,
            old(self).spec_cascade_data().spec_num_selectors() + rules_entries(
                stylesheet.rules@,
            ).len() <= usize::MAX,
            old(self).spec_cascade_data().spec_num_declarations() + entries_declarations(
                rules_entries(stylesheet.rules@),
            ) <= usize::MAX,
        ensures
            final(self).spec_source_order() == old(self).spec_source_order() + rules_entries(
                stylesheet.rules@,
            ).len(),
            final(self).spec_num_rebuilds() == old(self).spec_num_rebuilds() + 1,
            data_grown_with(
                old(self).spec_cascade_data(),
                final(self).spec_cascade_data(),
                old(self).spec_source_order(),
            ),
            data_grown_by(
                old(self).spec_cascade_data(),
                final(self).spec_cascade_data(),
                rules_entries(stylesheet.rules@),
                old(self).spec_source_order(),
            ),
            map_grown_by(
                old(self).spec_invalidation_map(),
                final(self).spec_invalidation_map(),
                rules_entries(stylesheet.rules@),
            ),
            final(self).spec_cascade_data().spec_num_selectors() == old(
                self,
            ).spec_cascade_data().spec_num_selectors() + rules_entries(stylesheet.rules@).len(),
            final(self).spec_cascade_data().spec_num_declarations() == old(
                self,
            ).spec_cascade_data().spec_num_declarations() + entries_declarations(
                rules_entries(stylesheet.rules@),
            ),
    {
        let mut source_order = self.source_order;
        self.add_rules(&stylesheet.rules, &mut source_order);
        self.source_order = source_order;
        self.num_rebuilds = self.num_rebuilds + 1;
    }

    fn add_rules(&mut self, rules: &Vec<Rule<S, D>>, source_order: &mut u32)
        requires
            *old(source_order) + rules_entries(rules@).len() <= u32::MAX,
            old(self).cascade_data.spec_num_selectors() + rules_entries(rules@).len() <= usize::MAX,
            old(self).cascade_data.spec_num_declarations() + entries_declarations(
                rules_entries(rules@),
            ) <= usize::MAX,
        ensures
            *final(source_order) == *old(source_order) + rules_entries(rules@).len(),
            final(self).cascade_data.spec_num_selectors() == old(
                self,
            ).cascade_data.spec_num_selectors() + rules_entries(rules@).len(),
            final(self).cascade_data.spec_num_declarations() == old(
                self,
            ).cascade_data.spec_num_declarations() + entries_declarations(rules_entries(rules@)),
            final(self).source_order == old(self).source_order,
            final(self).num_rebuilds == old(self).num_rebuilds,
            data_grown_with(old(self).cascade_data, final(self).cascade_data, old(self).source_order),
            data_grown_by(
                old(self).cascade_data,
                final(self).cascade_data,
                rules_entries(rules@),
                old(self).source_order,
            ),
            map_grown_by(old(self).invalidation_map, final(self).invalidation_map, rules_entries(rules@)),
    {
        let ghost all = rules@;
        let ghost start_order = *source_order;
        let ghost start_sel = self.cascade_data.spec_num_selectors();
        let ghost start_decl = self.cascade_data.spec_num_declarations();
        let mut j: usize = 0;
        proof {
            assert(all.take(0) =~= Seq::<Rule<S, D>>::empty());
            lemma_rules_entries_nonneg(all);
            CascadeData::lemma_data_grown_refl(self.cascade_data, self.source_order);
            CascadeData::lemma_data_grown_by_refl(self.cascade_data, self.source_order);
            lemma_map_grown_by_refl::<S, D>(self.invalidation_map);
            assert(rules_entries(all.take(0)) =~= Seq::<SheetEntry<S, D>>::empty());
        }
        while j < rules.len()
            invariant
                j <= all.len(),
                all == rules@,
                *source_order == start_order + rules_entries(all.take(j as int)).len(),
                start_order + rules_entries(all).len() <= u32::MAX,
                self.cascade_data.spec_num_selectors() == start_sel + rules_entries(
                    all.take(j as int),
                ).len(),
                start_sel + rules_entries(all).len() <= usize::MAX,
                self.cascade_data.spec_num_declarations() == start_decl + entries_declarations(
                    rules_entries(all.take(j as int)),
                ),
                start_decl + entries_declarations(rules_entries(all)) <= usize::MAX,
                self.source_order == old(self).source_order,
                self.num_rebuilds == old(self).num_rebuilds,
                data_grown_with(old(self).cascade_data, self.cascade_data, self.source_order),
                data_grown_by(
                    old(self).cascade_data,
                    self.cascade_data,
                    rules_entries(all.take(j as int)),
                    self.source_order,
                ),
                map_grown_by(
                    old(self).invalidation_map,
                    self.invalidation_map,
                    rules_entries(all.take(j as int)),
                ),
            decreases all.len() - j,
        {
            proof {
                let t = all.take(j as int + 1);
                assert(t.drop_last() =~= all.take(j as int));
                lemma_rules_entries_prefix(all, j as int + 1);
                lemma_entries_declarations_add(
                    rules_entries(all.take(j as int)),
                    rule_entries(all[j as int]),
                );
                lemma_entries_declarations_add(rules_entries(t), rules_entries(all.skip(j as int + 1)));
            }
            let ghost before_rule = self.cascade_data;
            let ghost map_before_rule = self.invalidation_map;
            self.add_rule(&rules[j], source_order);
            proof {
                lemma_map_grown_by_trans(
                    old(self).invalidation_map,
                    map_before_rule,
                    self.invalidation_map,
                    rules_entries(all.take(j as int)),
                    rule_entries(all[j as int]),
                );
                CascadeData::lemma_data_grown_trans(
                    old(self).cascade_data,
                    before_rule,
                    self.cascade_data,
                    self.source_order,
                );
                CascadeData::lemma_data_grown_by_trans(
                    old(self).cascade_data,
                    before_rule,
                    self.cascade_data,
                    rules_entries(all.take(j as int)),
                    rule_entries(all[j as int]),
                    self.source_order,
                );
            }
            j = j + 1;
        }
        proof {
            assert(all.take(all.len() as int) =~= all);
        }
    }
}

proof fn lemma_rules_entries_nonneg<S, D>(rules: Seq<Rule<S, D>>)
    ensures
        entries_declarations(rules_entries(rules)) >= 0,
{
    lemma_entries_declarations_add(Seq::empty(), rules_entries(rules));
    assert(Seq::<SheetEntry<S, D>>::empty() + rules_entries(rules) =~= rules_entries(rules));
}

/// The selectors of the first `j` rules, then those of the rest, make up
/// the selectors of all of them.
proof fn lemma_rules_entries_prefix<S, D>(rules: Seq<Rule<S, D>>, j: int)
    requires
        0 <= j <= rules.len(),
    ensures
        rules_entries(rules) == rules_entries(rules.take(j)) + rules_entries(rules.skip(j)),
        j > 0 ==> rules_entries(rules.take(j)) == rules_entries(rules.take(j - 1)) + rule_entries(
            rules[j - 1],
        ),
    decreases rules.len(),
{
    if j > 0 {
        assert(rules.take(j).drop_last() =~= rules.take(j - 1));
        assert(rules.take(j).last() == rules[j - 1]);
    }
    if rules.len() == 0 {
        assert(rules.take(j) =~= rules);
        assert(rules.skip(j) =~= rules);
    } else if j == rules.len() {
        assert(rules.take(j) =~= rules);
        assert(rules.skip(j) =~= Seq::<Rule<S, D>>::empty());
    } else {
        lemma_rules_entries_prefix(rules.drop_last(), j);
        assert(rules.drop_last().take(j) =~= rules.take(j));
        assert(rules.skip(j).drop_last() =~= rules.drop_last().skip(j));
        assert(rules.skip(j).last() == rules.last());
    }
}

impl<S, D> Default for Bulma<S, D> {
    fn default() -> (b: Self)
        ensures
            b.spec_cascade_data().is_empty_data(),
            b.spec_num_rebuilds() == 0,
            b.spec_source_order() == AUTHOR_SOURCE_ORDER_START,
    {
        Self::new()
    }
}

/// Whether every rule of `d` has the source order `order`.
pub open spec fn rules_have_order<S, D>(d: CascadeData<S, D>, order: u32) -> bool {
    &&& forall|n: Seq<char>, k: int|
        0 <= k < d.id_rules(n).len() ==> (#[trigger] d.id_rules(n)[k]).source_order == order
    &&& forall|n: Seq<char>, k: int|
        0 <= k < d.class_rules(n).len() ==> (#[trigger] d.class_rules(n)[k]).source_order == order
    &&& forall|n: Seq<char>, k: int|
        0 <= k < d.tag_rules(n).len() ==> (#[trigger] d.tag_rules(n)[k]).source_order == order
    &&& forall|k: int|
        0 <= k < d.universal().len() ==> (#[trigger] d.universal()[k]).source_order == order
}

/// On a new engine, the rules of a first user-agent style sheet all get
/// the start of the author order, and the order that the next author
/// sheet's rules get is no lower: author rules never sort before them.
pub proof fn lemma_author_rules_not_before_user_agent<S, D>(
    fresh: Bulma<S, D>,
    with_ua: Bulma<S, D>,
    ua_selectors: int,
)
    requires
        fresh.spec_cascade_data().is_empty_data(),
        fresh.spec_source_order() == AUTHOR_SOURCE_ORDER_START,
        0 <= ua_selectors <= u32::MAX,
        with_ua.spec_source_order() == (((fresh.spec_source_order() & !AUTHOR_SOURCE_ORDER_START)
            + ua_selectors) as u32 | (fresh.spec_source_order() & AUTHOR_SOURCE_ORDER_START)),
        data_grown_with(
            fresh.spec_cascade_data(),
            with_ua.spec_cascade_data(),
            fresh.spec_source_order(),
        ),
    ensures
        rules_have_order(with_ua.spec_cascade_data(), AUTHOR_SOURCE_ORDER_START),
        with_ua.spec_source_order() >= AUTHOR_SOURCE_ORDER_START,
{
    let a = fresh.spec_cascade_data();
    let b = with_ua.spec_cascade_data();
    let x: u32 = ((fresh.spec_source_order() & !AUTHOR_SOURCE_ORDER_START) + ua_selectors) as u32;
    assert(x | 1_000_000u32 >= 1_000_000u32) by (bit_vector);
    assert(1_000_000u32 & 1_000_000u32 == 1_000_000u32) by (bit_vector);
    assert forall|n: Seq<char>, k: int|
        0 <= k < b.id_rules(n).len() implies (#[trigger] b.id_rules(n)[k]).source_order
        == AUTHOR_SOURCE_ORDER_START by {
        assert(!a.has_id_bucket(n));
        assert(a.id_rules(n).len() == 0);
        assert(grown_with(a.id_rules(n), b.id_rules(n), fresh.spec_source_order()));
    }
    assert forall|n: Seq<char>, k: int|
        0 <= k < b.class_rules(n).len() implies (#[trigger] b.class_rules(n)[k]).source_order
        == AUTHOR_SOURCE_ORDER_START by {
        assert(!a.has_class_bucket(n));
        assert(a.class_rules(n).len() == 0);
        assert(grown_with(a.class_rules(n), b.class_rules(n), fresh.spec_source_order()));
    }
    assert forall|n: Seq<char>, k: int|
        0 <= k < b.tag_rules(n).len() implies (#[trigger] b.tag_rules(n)[k]).source_order
        == AUTHOR_SOURCE_ORDER_START by {
        assert(!a.has_tag_bucket(n));
        assert(a.tag_rules(n).len() == 0);
        assert(grown_with(a.tag_rules(n), b.tag_rules(n), fresh.spec_source_order()));
    }
}

} // verus!
