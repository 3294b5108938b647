use vstd::prelude::*;

use crate::resolution::{
    chain, failed_ok, holds_final, holds_outcome, keeps_inherited, lemma_chain_push,
    lemma_chain_to_visited_fails, lemma_cycle_fails, lemma_failed_use, lemma_fails_alone,
    lemma_fewer_than_declarations, lemma_outcome_fewer, lemma_progressed_trans,
    lemma_outcome_alone, lemma_progress_at, lemma_progressed_trans_same, lemma_state_fail,
    lemma_state_insert, lemma_state_remove,
    lemma_resolved_value_substitutes, lemma_uses_map, lemma_uses_map_same, outcome, progressed,
    refers, resolution_state, substitutes_to_itself, uses_map,
};
use crate::strings::str_equals;
use crate::unresolved::{
    agree_on_references, same_unresolved, lemma_substitute_same_vars, lemma_substitute_without_references,
    SubstituteError, UnresolvedValue,
};
use vstd::utf8::encode_utf8;

verus! {

/// The map that a list of entries describes, later entries winning.
pub open spec fn entries_map(e: Seq<(String, String)>) -> Map<Seq<char>, Seq<char>>
    decreases e.len(),
{
    if e.len() == 0 {
        Map::empty()
    } else {
        entries_map(e.drop_last()).insert(e.last().0@, e.last().1@)
    }
}

/// Whether no two entries share a name.
pub open spec fn distinct_names(e: Seq<(String, String)>) -> bool {
    forall|i: int, j: int| 0 <= i < j < e.len() ==> (#[trigger] e[i]).0@ != (#[trigger] e[j]).0@
}

proof fn lemma_entries_map_at(e: Seq<(String, String)>, i: int)
    requires
        distinct_names(e),
        0 <= i < e.len(),
    ensures
        entries_map(e).contains_key(e[i].0@),
        entries_map(e)[e[i].0@] == e[i].1@,
    decreases e.len(),
{
    if i < e.len() - 1 {
        lemma_entries_map_at(e.drop_last(), i);
        assert(e[i] == e.drop_last()[i]);
        assert(e.last() == e[e.len() - 1]);
    }
}

proof fn lemma_entries_map_absent(e: Seq<(String, String)>, k: Seq<char>)
    requires
        forall|i: int| 0 <= i < e.len() ==> (#[trigger] e[i]).0@ != k,
    ensures
        !entries_map(e).contains_key(k),
    decreases e.len(),
{
    if e.len() > 0 {
        assert(e.last() == e[e.len() - 1]);
        lemma_entries_map_absent(e.drop_last(), k);
    }
}

proof fn lemma_entries_map_keys(e: Seq<(String, String)>, k: Seq<char>)
    ensures
        entries_map(e).contains_key(k) ==> exists|i: int| 0 <= i < e.len() && (#[trigger] e[i]).0@ == k,
    decreases e.len(),
{
    if e.len() > 0 {
        lemma_entries_map_keys(e.drop_last(), k);
        if entries_map(e.drop_last()).contains_key(k) {
            let i = choose|i: int| 0 <= i < e.drop_last().len() && (#[trigger] e.drop_last()[i]).0@ == k;
            assert(e[i] == e.drop_last()[i]);
        }
        assert(e[e.len() - 1] == e.last());
    }
}

proof fn lemma_entries_map_len(e: Seq<(String, String)>)
    requires
        distinct_names(e),
    ensures
        entries_map(e).dom().finite(),
        entries_map(e).dom().len() == e.len(),
    decreases e.len(),
{
    if e.len() > 0 {
        let d = e.drop_last();
        assert forall|i: int, j: int| 0 <= i < j < d.len() implies (#[trigger] d[i]).0@ != (
        #[trigger] d[j]).0@ by {
            assert(d[i] == e[i] && d[j] == e[j]);
        }
        lemma_entries_map_len(d);
        assert forall|i: int| 0 <= i < d.len() implies (#[trigger] d[i]).0@ != e.last().0@ by {
            assert(d[i] == e[i]);
            assert(e.last() == e[e.len() - 1]);
        }
        lemma_entries_map_absent(d, e.last().0@);
    }
}

proof fn lemma_entries_map_update(e: Seq<(String, String)>, i: int, v: String)
    requires
        distinct_names(e),
        0 <= i < e.len(),
    ensures
        entries_map(e.update(i, (e[i].0, v))) == entries_map(e).insert(e[i].0@, v@),
        distinct_names(e.update(i, (e[i].0, v))),
{
    let u = e.update(i, (e[i].0, v));
    assert forall|a: int, b: int| 0 <= a < b < u.len() implies (#[trigger] u[a]).0@ != (
    #[trigger] u[b]).0@ by {
        assert(u[a].0@ == e[a].0@ && u[b].0@ == e[b].0@);
    }
    assert forall|k: Seq<char>| #[trigger] entries_map(u).contains_key(k) == entries_map(e).insert(
        e[i].0@,
        v@,
    ).contains_key(k) by {
        lemma_entries_map_keys(u, k);
        lemma_entries_map_keys(e, k);
        if entries_map(e).contains_key(k) {
            let j = choose|j: int| 0 <= j < e.len() && (#[trigger] e[j]).0@ == k;
            assert(u[j].0@ == k);
            lemma_entries_map_at(u, j);
        }
        if entries_map(u).contains_key(k) {
            let j = choose|j: int| 0 <= j < u.len() && (#[trigger] u[j]).0@ == k;
            assert(e[j].0@ == k);
            lemma_entries_map_at(e, j);
        }
        if k == e[i].0@ {
            lemma_entries_map_at(u, i);
        }
    }
    assert forall|k: Seq<char>| #[trigger] entries_map(u).contains_key(k) implies entries_map(u)[k]
        == entries_map(e).insert(e[i].0@, v@)[k] by {
        lemma_entries_map_keys(u, k);
        let j = choose|j: int| 0 <= j < u.len() && (#[trigger] u[j]).0@ == k;
        lemma_entries_map_at(u, j);
        if j != i {
            lemma_entries_map_at(e, j);
            assert(u[j] == e[j]);
        }
    }
    assert(entries_map(u) =~= entries_map(e).insert(e[i].0@, v@));
}

proof fn lemma_entries_map_remove(e: Seq<(String, String)>, i: int)
    requires
        distinct_names(e),
        0 <= i < e.len(),
    ensures
        entries_map(e.remove(i)) == entries_map(e).remove(e[i].0@),
        distinct_names(e.remove(i)),
{
    let u = e.remove(i);
    assert forall|a: int, b: int| 0 <= a < b < u.len() implies (#[trigger] u[a]).0@ != (
    #[trigger] u[b]).0@ by {
        let a2 = if a < i { a } else { a + 1 };
        let b2 = if b < i { b } else { b + 1 };
        assert(u[a] == e[a2] && u[b] == e[b2]);
    }
    assert forall|k: Seq<char>| #[trigger] entries_map(u).contains_key(k) == entries_map(e).remove(
        e[i].0@,
    ).contains_key(k) by {
        lemma_entries_map_keys(u, k);
        lemma_entries_map_keys(e, k);
        if entries_map(u).contains_key(k) {
            let j = choose|j: int| 0 <= j < u.len() && (#[trigger] u[j]).0@ == k;
            let j2 = if j < i { j } else { j + 1 };
            assert(u[j] == e[j2]);
            lemma_entries_map_at(e, j2);
        }
        if entries_map(e).contains_key(k) && k != e[i].0@ {
            let j = choose|j: int| 0 <= j < e.len() && (#[trigger] e[j]).0@ == k;
            let j2 = if j < i { j } else { j - 1 };
            assert(u[j2] == e[j]);
            lemma_entries_map_at(u, j2);
        }
        if k == e[i].0@ {
            assert forall|j: int| 0 <= j < u.len() implies (#[trigger] u[j]).0@ != k by {
                let j2 = if j < i { j } else { j + 1 };
                assert(u[j] == e[j2]);
            }
            lemma_entries_map_absent(u, k);
        }
    }
    assert forall|k: Seq<char>| #[trigger] entries_map(u).contains_key(k) implies entries_map(u)[k]
        == entries_map(e).remove(e[i].0@)[k] by {
        lemma_entries_map_keys(u, k);
        let j = choose|j: int| 0 <= j < u.len() && (#[trigger] u[j]).0@ == k;
        let j2 = if j < i { j } else { j + 1 };
        assert(u[j] == e[j2]);
        lemma_entries_map_at(u, j);
        lemma_entries_map_at(e, j2);
    }
    assert(entries_map(u) =~= entries_map(e).remove(e[i].0@));
}

/// The values of custom properties, by name (without the leading `--`).
#[derive(Debug)]
pub struct CustomPropertiesMap {
    values: Vec<(String, String)>,
}

impl View for CustomPropertiesMap {
    type V = Map<Seq<char>, Seq<char>>;

    open spec fn view(&self) -> Map<Seq<char>, Seq<char>> {
        self.spec_map()
    }
}

impl CustomPropertiesMap {
    pub closed spec fn spec_map(&self) -> Map<Seq<char>, Seq<char>> {
        entries_map(self.values@)
    }

    /// Whether no two entries share a name.
    pub closed spec fn wf(&self) -> bool {
        distinct_names(self.values@)
    }

    pub fn new() -> (m: Self)
        ensures
            m@ == Map::<Seq<char>, Seq<char>>::empty(),
            m.wf(),
    {
        CustomPropertiesMap { values: Vec::new() }
    }

    /// The position of the entry named `name`, if any.
    fn find(&self, name: &str) -> (r: Option<usize>)
        ensures
            r matches Some(i) ==> i < self.values@.len() && self.values@[i as int].0@ == name@,
            r is None ==> forall|i: int|
                0 <= i < self.values@.len() ==> (#[trigger] self.values@[i]).0@ != name@,
    {
        let mut i: usize = 0;
        while i < self.values.len()
            invariant
                i <= self.values@.len(),
                forall|j: int| 0 <= j < i ==> (#[trigger] self.values@[j]).0@ != name@,
            decreases self.values@.len() - i,
        {
            if str_equals(self.values[i].0.as_str(), name) {
                return Some(i);
            }
            i = i + 1;
        }
        None
    }

    /// The value of the custom property `name`, if it has one.
    pub fn get(&self, name: &str) -> (r: Option<&str>)
        requires
            self.wf(),
        ensures
            r is Some <==> self@.contains_key(name@),
            r matches Some(v) ==> v@ == self@[name@],
    {
        match self.find(name) {
            Some(i) => {
                proof {
                    lemma_entries_map_at(self.values@, i as int);
                }
                Some(self.values[i].1.as_str())
            },
            None => {
                proof {
                    lemma_entries_map_absent(self.values@, name@);
                }
                None
            },
        }
    }

    pub fn is_empty(&self) -> (r: bool)
        requires
            self.wf(),
        ensures
            r == (self@.dom().len() == 0),
    {
        proof {
            lemma_entries_map_len(self.values@);
        }
        self.values.len() == 0
    }

    /// The number of custom properties that have a value.
    pub fn len(&self) -> (r: usize)
        requires
            self.wf(),
        ensures
            r == self@.dom().len(),
            self@.dom().finite(),
    {
        proof {
            lemma_entries_map_len(self.values@);
        }
        self.values.len()
    }

    /// Gives `name` the value `value`.
    pub fn insert(&mut self, name: String, value: String)
        requires
            old(self).wf(),
        ensures
            final(self).wf(),
            final(self)@ == old(self)@.insert(name@, value@),
    {
        match self.find(name.as_str()) {
            Some(i) => {
                let ghost e = self.values@;
                let (key, _) = self.values.remove(i);
                self.values.insert(i, (key, value));
                proof {
                    assert(self.values@ =~= e.update(i as int, (e[i as int].0, value)));
                    lemma_entries_map_update(e, i as int, value);
                }
            },
            None => {
                let ghost e = self.values@;
                self.values.push((name, value));
                proof {
                    assert(self.values@.drop_last() =~= e);
                    assert forall|a: int, b: int| 0 <= a < b < self.values@.len() implies (
                    #[trigger] self.values@[a]).0@ != (#[trigger] self.values@[b]).0@ by {
                        if b < e.len() {
                            assert(self.values@[a] == e[a] && self.values@[b] == e[b]);
                        } else {
                            assert(self.values@[a] == e[a]);
                        }
                    }
                }
            },
        }
    }

    /// Takes away the value of `name`, if it has one.
    pub fn remove(&mut self, name: &str)
        requires
            old(self).wf(),
        ensures
            final(self).wf(),
            final(self)@ == old(self)@.remove(name@),
    {
        match self.find(name) {
            Some(i) => {
                let ghost e = self.values@;
                self.values.remove(i);
                proof {
                    lemma_entries_map_remove(e, i as int);
                }
            },
            None => {
                proof {
                    lemma_entries_map_absent(self.values@, name@);
                    assert(self@ =~= self@.remove(name@));
                }
            },
        }
    }

    /// Whether `name` has a value.
    pub fn contains_key(&self, name: &str) -> (r: bool)
        requires
            self.wf(),
        ensures
            r == self@.contains_key(name@),
    {
        self.get(name).is_some()
    }
}

impl Clone for CustomPropertiesMap {
    fn clone(&self) -> (r: Self)
        ensures
            r@ == self@,
            self.wf() ==> r.wf(),
    {
        let mut values: Vec<(String, String)> = Vec::new();
        let mut i: usize = 0;
        while i < self.values.len()
            invariant
                i <= self.values@.len(),
                values@ == self.values@.take(i as int),
            decreases self.values@.len() - i,
        {
            let (k, v) = &self.values[i];
            values.push((k.clone(), v.clone()));
            proof {
                assert(values@ =~= self.values@.take(i as int + 1));
            }
            i = i + 1;
        }
        proof {
            assert(self.values@.take(self.values@.len() as int) =~= self.values@);
        }
        CustomPropertiesMap { values }
    }
}

impl Default for CustomPropertiesMap {
    fn default() -> (m: Self)
        ensures
            m@ == Map::<Seq<char>, Seq<char>>::empty(),
            m.wf(),
    {
        Self::new()
    }
}

/// The value of a custom-property declaration.
#[derive(Debug)]
pub enum CustomValue {
    /// A value without `var()`.
    Resolved(String),
    /// A value with `var()`s to replace.
    Unresolved(UnresolvedValue),
    /// `inherit`: keep the parent's value.
    Inherit,
    /// `initial`: no value.
    Initial,
}

impl Clone for CustomValue {
    fn clone(&self) -> (r: Self)
        ensures
            match (r, *self) {
                (CustomValue::Resolved(a), CustomValue::Resolved(b)) => a == b,
                (CustomValue::Unresolved(a), CustomValue::Unresolved(b)) => same_unresolved(a, b),
                (CustomValue::Inherit, CustomValue::Inherit) => true,
                (CustomValue::Initial, CustomValue::Initial) => true,
                _ => false,
            },
    {
        match self {
            CustomValue::Resolved(s) => CustomValue::Resolved(s.clone()),
            CustomValue::Unresolved(u) => CustomValue::Unresolved(u.clone()),
            CustomValue::Inherit => CustomValue::Inherit,
            CustomValue::Initial => CustomValue::Initial,
        }
    }
}

/// Why a custom property got no value.
#[derive(Debug, Clone, PartialEq, Eq)]
pub enum ResolutionError {
    /// Its value depends on itself.
    Cycle(String),
    /// It uses a property without a value and without a fallback.
    Undefined(String),
    Substitution(SubstituteError),
}

/// The value declared last for `name`, if any.
pub open spec fn declared_value(decls: Seq<(String, CustomValue)>, name: Seq<char>) -> Option<
    CustomValue,
>
    decreases decls.len(),
{
    if decls.len() == 0 {
        None
    } else if decls.last().0@ == name {
        Some(decls.last().1)
    } else {
        declared_value(decls.drop_last(), name)
    }
}

/// The texts of a list of strings.
pub open spec fn name_views(v: Seq<String>) -> Seq<Seq<char>> {
    v.map_values(|s: String| s@)
}

/// The names of a list of entries.
pub open spec fn pending_names(p: Seq<(String, CustomValue)>) -> Seq<Seq<char>> {
    p.map_values(|e: (String, CustomValue)| e.0@)
}

/// Whether the values to be substituted fit their text.
pub open spec fn values_wf(p: Seq<(String, CustomValue)>) -> bool {
    forall|k: int|
        0 <= k < p.len() ==> ((#[trigger] p[k]).1 matches CustomValue::Unresolved(u) ==> u.wf())
}

/// A distinct list inside another distinct list that misses one of its
/// items is shorter.
proof fn lemma_strict_sub_len(r: Seq<Seq<char>>, k: Seq<Seq<char>>, x: Seq<char>)
    requires
        r.no_duplicates(),
        k.no_duplicates(),
        forall|i: int| 0 <= i < r.len() ==> k.contains(#[trigger] r[i]),
        k.contains(x),
        !r.contains(x),
    ensures
        r.len() < k.len(),
{
    r.unique_seq_to_set();
    k.unique_seq_to_set();
    let ks = k.to_set().remove(x);
    assert(r.to_set().subset_of(ks)) by {
        assert forall|y: Seq<char>| r.to_set().contains(y) implies ks.contains(y) by {
            let i = choose|i: int| 0 <= i < r.len() && r[i] == y;
            assert(k.contains(r[i]));
        }
    }
    vstd::set_lib::lemma_len_subset(r.to_set(), ks);
}

pub proof fn lemma_declared_found(p: Seq<(String, CustomValue)>, n: Seq<char>)
    requires
        declared_value(p, n) is Some,
    ensures
        exists|k: int| 0 <= k < p.len() && (#[trigger] p[k]).0@ == n && Some(p[k].1) == declared_value(p, n),
        pending_names(p).contains(n),
    decreases p.len(),
{
    if p.last().0@ == n {
        assert(p[p.len() - 1] == p.last());
        assert(pending_names(p)[p.len() - 1] == n);
    } else {
        lemma_declared_found(p.drop_last(), n);
        let k = choose|k: int| 0 <= k < p.drop_last().len() && (#[trigger] p.drop_last()[k]).0@ == n
            && Some(p.drop_last()[k].1) == declared_value(p.drop_last(), n);
        assert(p[k] == p.drop_last()[k]);
        assert(pending_names(p)[k] == n);
    }
}

pub proof fn lemma_declared_at(p: Seq<(String, CustomValue)>, j: int)
    requires
        pending_names(p).no_duplicates(),
        0 <= j < p.len(),
    ensures
        declared_value(p, p[j].0@) == Some(p[j].1),
    decreases p.len(),
{
    if j < p.len() - 1 {
        assert(pending_names(p)[j] != pending_names(p)[p.len() - 1]);
        assert(p.last() == p[p.len() - 1]);
        let d = p.drop_last();
        assert(pending_names(d) =~= pending_names(p).drop_last());
        assert(d[j] == p[j]);
        lemma_declared_at(d, j);
    }
}

proof fn lemma_declared_wf(p: Seq<(String, CustomValue)>, n: Seq<char>)
    requires
        values_wf(p),
        declared_value(p, n) is Some,
    ensures
        declared_value(p, n) matches Some(CustomValue::Unresolved(u)) ==> u.wf(),
{
    lemma_declared_found(p, n);
    let k = choose|k: int| 0 <= k < p.len() && (#[trigger] p[k]).0@ == n && Some(p[k].1) == declared_value(p, n);
    assert(values_wf(p) ==> ((p[k]).1 matches CustomValue::Unresolved(u) ==> u.wf()));
}

/// Whether `name` is among `names`.
fn contains_name(names: &Vec<String>, name: &String) -> (r: bool)
    ensures
        r == name_views(names@).contains(name@),
{
    let mut i: usize = 0;
    while i < names.len()
        invariant
            i <= names@.len(),
            forall|j: int| 0 <= j < i ==> (#[trigger] names@[j])@ != name@,
        decreases names@.len() - i,
    {
        if names[i] == *name {
            proof {
                assert(name_views(names@)[i as int] == name@);
            }
            return true;
        }
        i = i + 1;
    }
    proof {
        if name_views(names@).contains(name@) {
            let j = choose|j: int| 0 <= j < names@.len() && #[trigger] name_views(names@)[j] == name@;
            assert(names@[j]@ == name@);
        }
    }
    false
}

/// The position of the pending entry named `name`, if any.
fn find_pending(pending: &Vec<(String, CustomValue)>, name: &String) -> (r: Option<usize>)
    ensures
        r matches Some(j) ==> j < pending@.len() && pending@[j as int].0@ == name@,
        r is None ==> forall|j: int| 0 <= j < pending@.len() ==> (#[trigger] pending@[j]).0@ != name@,
{
    let mut i: usize = 0;
    while i < pending.len()
        invariant
            i <= pending@.len(),
            forall|j: int| 0 <= j < i ==> (#[trigger] pending@[j]).0@ != name@,
        decreases pending@.len() - i,
    {
        if pending[i].0 == *name {
            return Some(i);
        }
        i = i + 1;
    }
    None
}

/// Resolves the custom property `name`, whose declared value is `value`,
/// into `resolved`: first the declared properties that it uses and that
/// were not resolved yet, then its own value. `resolving` holds the
/// properties being resolved further up, by which a cycle is found;
/// `failed` the properties whose resolution failed, which fail their users
/// too.
fn resolve_property(
    name: &String,
    value: &CustomValue,
    pending: &Vec<(String, CustomValue)>,
    resolved: &mut CustomPropertiesMap,
    resolving: &mut Vec<String>,
    failed: &mut Vec<String>,
    inherited: Option<&CustomPropertiesMap>,
    decls: Ghost<Seq<(String, CustomValue)>>,
) -> (r: Result<(), ResolutionError>)
    requires
        forall|n: Seq<char>| #[trigger] declared_value(pending@, n) == declared_value(decls@, n),
        pending_names(pending@).no_duplicates(),
        values_wf(pending@),
        declared_value(pending@, name@) == Some(*value),
        old(resolved).wf(),
        inherited matches Some(m) ==> m.wf(),
        name_views(old(resolving)@).no_duplicates(),
        chain(decls@, name_views(old(resolving)@).push(name@)),
        resolution_state(decls@, base_map(inherited), old(resolved)@, name_views(old(failed)@)),
        old(resolving)@.len() > 0 ==> !name_views(old(failed)@).contains(name@),
    ensures
        final(resolved).wf(),
        final(resolving)@ == old(resolving)@,
        resolution_state(decls@, base_map(inherited), final(resolved)@, name_views(final(failed)@)),
        progressed(
            old(resolved)@,
            name_views(old(failed)@),
            final(resolved)@,
            name_views(final(failed)@),
            name@,
        ),
        r is Ok <==> outcome(decls@, base_map(inherited), name@, name_views(old(resolving)@)) is Some,
        r is Ok ==> holds_outcome(
            final(resolved)@,
            name@,
            outcome(decls@, base_map(inherited), name@, Seq::empty()),
        ) && outcome(decls@, base_map(inherited), name@, Seq::empty()) is Some && !name_views(
            final(failed)@,
        ).contains(name@),
        r is Err ==> name_views(final(failed)@).contains(name@) && holds_final(
            decls@,
            base_map(inherited),
            final(resolved)@,
            name@,
        ),
    decreases pending@.len() - old(resolving)@.len(),
{
    let ghost r0 = resolved@;
    let ghost f0 = name_views(failed@);
    let ghost base = base_map(inherited);
    let ghost names0 = name_views(resolving@);
    let ghost p = decls@;
    let ghost empty = Seq::<Seq<char>>::empty();
    proof {
        lemma_declared_found(pending@, name@);
        lemma_declared_wf(pending@, name@);
        assert(declared_value(p, name@) == Some(*value));
        assert forall|i: int| 0 <= i < names0.len() implies declared_value(p, #[trigger] names0[i]) is Some by {
            let sn = names0.push(name@);
            assert(sn[i] == names0[i]);
            assert(refers(p, sn[i], sn[i + 1]));
        }
        assert(!empty.contains(name@));
    }
    match value {
        CustomValue::Initial => {
            resolved.remove(name.as_str());
            proof {
                assert(outcome(p, base, name@, empty) == Some::<Option<Seq<char>>>(None));
                assert(!f0.contains(name@)) by {
                    if f0.contains(name@) {
                        let i = choose|i: int| 0 <= i < f0.len() && f0[i] == name@;
                        assert(failed_ok(p, base, r0, f0[i]));
                    }
                }
                assert(!r0.contains_key(name@));
                lemma_state_remove(p, base, r0, f0, name@);
                lemma_progress_at(r0, f0, resolved@, f0, name@);
            }
            return Ok(());
        },
        CustomValue::Inherit => {
            proof {
                assert(!f0.contains(name@)) by {
                    if f0.contains(name@) {
                        let i = choose|i: int| 0 <= i < f0.len() && f0[i] == name@;
                        assert(failed_ok(p, base, r0, f0[i]));
                    }
                }
                lemma_progress_at(r0, f0, resolved@, f0, name@);
            }
            return Ok(());
        },
        _ => {},
    }
    if contains_name(resolving, name) {
        let ghost fr = failed@;
        failed.push(name.clone());
        resolved.remove(name.as_str());
        proof {
            let i = choose|i: int| 0 <= i < names0.len() && #[trigger] names0[i] == name@;
            assert(names0.contains(name@));
            assert(name_views(failed@) =~= f0.push(name@));
            lemma_fails_alone(p, base, name@, names0);
            // the property is on a cycle: what it uses fails with it alone on the stack
            let c = names0.push(name@).subrange(i, names0.len() as int + 1);
            assert(c[0] == name@);
            assert(c.last() == name@);
            assert forall|a: int, b: int| 0 <= a && b == a + 1 && b < c.len() implies #[trigger] refers(p, c[a], c[b]) by {
                let sn = names0.push(name@);
                assert(c[a] == sn[i + a]);
                assert(c[b] == sn[i + b]);
                assert(refers(p, sn[i + a], sn[i + b]));
            }
            lemma_cycle_fails(p, base, c, empty);
            if keeps_inherited(p, base, name@) {
                let u = declared_value(p, name@)->0->Unresolved_0;
                let one = empty.push(name@);
                assert(refers(p, c[0], c[1]));
                let k0 = choose|k: int| 0 <= k < u.references@.len() && (#[trigger] u.references@[k]).name@ == c[1];
                let rest = c.drop_first();
                assert forall|a: int, b: int| 0 <= a && b == a + 1 && b < rest.len() implies #[trigger] refers(p, rest[a], rest[b]) by {
                    assert(refers(p, c[a + 1], c[b + 1]));
                }
                assert(one.contains(rest.last())) by {
                    assert(one[0] == name@);
                }
                lemma_chain_to_visited_fails(p, base, rest, one);
                lemma_uses_map(p, base, u.references@, u.references@.len() as int, one);
                assert(outcome(p, base, u.references@[k0].name@, one) is None);
            }
            lemma_state_fail(p, base, r0, f0, name@, resolved@);
            assert(!r0.contains_key(name@) || f0.contains(name@)) by {
                if r0.contains_key(name@) && !f0.contains(name@) {
                    assert(outcome(p, base, name@, empty) == Some(Some(r0[name@])));
                }
            }
            lemma_progress_at(r0, f0, resolved@, name_views(failed@), name@);
            assert(name_views(failed@)[f0.len() as int] == name@);
            assert(!keeps_inherited(p, base, name@));
            assert(holds_final(p, base, resolved@, name@));
        }
        return Err(ResolutionError::Cycle(name.clone()));
    }
    proof {
        lemma_fewer_than_declarations(p, names0, name@);
        assert forall|i: int| 0 <= i < names0.len() implies pending_names(pending@).contains(
            #[trigger] names0[i],
        ) by {
            lemma_declared_found(pending@, names0[i]);
        }
        lemma_strict_sub_len(names0, pending_names(pending@), name@);
    }
    let ghost stack0 = resolving@;
    let pushed = name.clone();
    resolving.push(pushed);
    proof {
        assert(name_views(resolving@) =~= names0.push(name@));
    }
    let ghost sp = names0.push(name@);
    let result = match value {
        CustomValue::Resolved(text) => {
            resolved.insert(name.clone(), text.clone());
            proof {
                assert(outcome(p, base, name@, empty) == Some(Some(text@)));
                assert(!f0.contains(name@)) by {
                    if f0.contains(name@) {
                        let i = choose|i: int| 0 <= i < f0.len() && f0[i] == name@;
                        assert(failed_ok(p, base, r0, f0[i]));
                    }
                }
                lemma_state_insert(p, base, r0, f0, name@, text@);
                if r0.contains_key(name@) && !f0.contains(name@) {
                    assert(outcome(p, base, name@, empty) == Some(Some(r0[name@])));
                }
                lemma_progress_at(r0, f0, resolved@, f0, name@);
            }
            Ok(())
        },
        CustomValue::Unresolved(unresolved) => {
            let mut i: usize = 0;
            let mut failure: Option<ResolutionError> = None;
            while i < unresolved.references.len()
                invariant_except_break
                    failure is None,
                invariant
                    i <= unresolved.references@.len(),
                    *value == CustomValue::Unresolved(*unresolved),
                    unresolved.wf(),
                    pending_names(pending@).no_duplicates(),
                    values_wf(pending@),
                    forall|n: Seq<char>| #[trigger] declared_value(pending@, n) == declared_value(p, n),
                    declared_value(p, name@) == Some(*value),
                    resolved.wf(),
                    inherited matches Some(m) ==> m.wf(),
                    base == base_map(inherited),
                    p == decls@,
                    resolving@ == stack0.push(pushed),
                    pushed@ == name@,
                    name_views(resolving@) == sp,
                    sp == names0.push(name@),
                    sp.no_duplicates(),
                    chain(p, sp),
                    names0.len() < p.len(),
                    !names0.contains(name@),
                    old(resolving)@ == stack0,
                    names0 == name_views(stack0),
                    resolution_state(p, base, resolved@, name_views(failed@)),
                    progressed(r0, f0, resolved@, name_views(failed@), name@),
                    f0.contains(name@) ==> names0.len() == 0,
                    stack0.len() < pending@.len(),
                    failure is None ==> forall|j: int|
                        0 <= j < i ==> outcome(
                            p,
                            base,
                            (#[trigger] unresolved.references@[j]).name@,
                            sp,
                        ) is Some && holds_outcome(
                            resolved@,
                            unresolved.references@[j].name@,
                            outcome(p, base, unresolved.references@[j].name@, sp),
                        ),
                    failure is Some ==> exists|j: int|
                        0 <= j < unresolved.references@.len() && declared_value(
                            p,
                            (#[trigger] unresolved.references@[j]).name@,
                        ) is Some && outcome(p, base, unresolved.references@[j].name@, sp) is None,
                ensures
                    failure is None ==> forall|j: int|
                        0 <= j < unresolved.references@.len() ==> outcome(
                            p,
                            base,
                            (#[trigger] unresolved.references@[j]).name@,
                            sp,
                        ) is Some && holds_outcome(
                            resolved@,
                            unresolved.references@[j].name@,
                            outcome(p, base, unresolved.references@[j].name@, sp),
                        ),
                decreases unresolved.references@.len() - i,
            {
                let reference = &unresolved.references[i];
                let ghost d = reference.name@;
                let ghost before0 = resolved@;
                let ghost fb0 = name_views(failed@);
                proof {
                    assert(unresolved.references@[i as int] == *reference);
                    assert(refers(p, name@, d));
                    assert(sp.last() == name@);
                    lemma_chain_push(p, sp, d);
                }
                match find_pending(pending, &reference.name) {
                    None => {
                        proof {
                            if declared_value(pending@, d) is Some {
                                lemma_declared_found(pending@, d);
                            }
                            assert(agrees_at(resolved@, base, d));
                        }
                    },
                    Some(j) => {
                        let (dep_name, dep_value) = &pending[j];
                        proof {
                            lemma_declared_at(pending@, j as int);
                            assert(dep_name@ == d);
                        }
                        let is_inherit = match dep_value {
                            CustomValue::Inherit => true,
                            _ => false,
                        };
                        if is_inherit {
                            proof {
                                assert(agrees_at(resolved@, base, d));
                            }
                        } else if contains_name(failed, dep_name) {
                            proof {
                                let k = choose|k: int| 0 <= k < name_views(failed@).len() && #[trigger] name_views(failed@)[k] == d;
                                assert(failed_ok(p, base, resolved@, name_views(failed@)[k]));
                                lemma_outcome_alone(p, base, d, sp);
                                assert(outcome(p, base, unresolved.references@[i as int].name@, sp) is None);
                            }
                            failure = Some(ResolutionError::Undefined(dep_name.clone()));
                            break;
                        } else if resolved.contains_key(dep_name.as_str()) {
                            proof {
                                lemma_fails_alone(p, base, d, sp);
                                lemma_outcome_alone(p, base, d, sp);
                            }
                        } else {
                            let res = resolve_property(
                                dep_name,
                                dep_value,
                                pending,
                                resolved,
                                resolving,
                                failed,
                                inherited,
                                Ghost(p),
                            );
                            proof {
                                lemma_progressed_trans(r0, f0, before0, fb0, resolved@, name_views(failed@), name@, d);
                            }
                            match res {
                                Err(e) => {
                                    proof {
                                        assert(outcome(p, base, unresolved.references@[i as int].name@, sp) is None);
                                    }
                                    failure = Some(e);
                                    break;
                                },
                                Ok(()) => {
                                    proof {
                                        lemma_outcome_alone(p, base, d, sp);
                                    }
                                },
                            }
                        }
                    },
                }
                proof {
                    assert forall|j: int| 0 <= j < i + 1 implies outcome(
                        p,
                        base,
                        (#[trigger] unresolved.references@[j]).name@,
                        sp,
                    ) is Some && holds_outcome(
                        resolved@,
                        unresolved.references@[j].name@,
                        outcome(p, base, unresolved.references@[j].name@, sp),
                    ) by {
                        if j < i {
                            let x = unresolved.references@[j].name@;
                            assert(declared_value(pending@, x) == declared_value(p, x));
                            lemma_outcome_alone(p, base, x, sp);
                            if before0.contains_key(x) && !fb0.contains(x) {
                                assert(resolved@.contains_key(x));
                            }
                            if fb0.contains(x) {
                                let k = choose|k: int| 0 <= k < fb0.len() && fb0[k] == x;
                                assert(failed_ok(p, base, before0, fb0[k]));
                            }
                            if resolved@.contains_key(x) && declared_value(p, x) is Some && !(declared_value(p, x)->0 is Inherit) && name_views(failed@).contains(x) {
                                let k = choose|k: int| 0 <= k < name_views(failed@).len() && name_views(failed@)[k] == x;
                                assert(failed_ok(p, base, resolved@, name_views(failed@)[k]));
                            }
                        }
                    }
                }
                i = i + 1;
            }
            if let Some(e) = failure {
                let ghost rb = resolved@;
                let ghost fb = name_views(failed@);
                failed.push(name.clone());
                resolved.remove(name.as_str());
                proof {
                    let refs = unresolved.references@;
                    lemma_uses_map(p, base, refs, refs.len() as int, sp);
                    assert(outcome(p, base, name@, names0) is None);
                    lemma_fails_alone(p, base, name@, names0);
                    let j = choose|j: int| 0 <= j < refs.len() && declared_value(p, (#[trigger] refs[j]).name@) is Some && outcome(p, base, refs[j].name@, sp) is None;
                    lemma_failed_use(p, base, name@, names0, *unresolved, j);
                    assert(!keeps_inherited(p, base, name@));
                    assert(name_views(failed@) =~= fb.push(name@));
                    lemma_state_fail(p, base, rb, fb, name@, resolved@);
                    assert(!rb.contains_key(name@) || fb.contains(name@)) by {
                        if rb.contains_key(name@) && !fb.contains(name@) {
                            assert(outcome(p, base, name@, empty) == Some(Some(rb[name@])));
                        }
                    }
                    lemma_progress_at(rb, fb, resolved@, name_views(failed@), name@);
                    lemma_progressed_trans_same(r0, f0, rb, fb, resolved@, name_views(failed@), name@);
                    assert(name_views(failed@)[fb.len() as int] == name@);
                    assert(holds_final(p, base, resolved@, name@));
                }
                Err(e)
            } else {
                proof {
                    let refs = unresolved.references@;
                    lemma_uses_map(p, base, refs, refs.len() as int, sp);
                    let m = uses_map(p, base, refs, refs.len() as int, sp)->0;
                    assert forall|k: int| 0 <= k < refs.len() implies {
                        let y = (#[trigger] refs[k]).name@;
                        &&& resolved@.contains_key(y) == m.contains_key(y)
                        &&& resolved@.contains_key(y) ==> resolved@[y] == m[y]
                    } by {
                        let y = refs[k].name@;
                        assert(holds_outcome(resolved@, y, outcome(p, base, y, sp)));
                        assert(holds_outcome(m, y, outcome(p, base, y, sp)));
                    }
                    assert(agree_on_references(*unresolved, resolved@, m));
                    lemma_substitute_same_vars(
                        *unresolved,
                        resolved@,
                        m,
                        0,
                        encode_utf8(unresolved.css@).len() as int,
                        0,
                        Seq::empty(),
                    );
                    // over a stack with only `name`, the same map
                    let one = empty.push(name@);
                    assert forall|k: int| 0 <= k < refs.len() implies outcome(
                        p,
                        base,
                        (#[trigger] refs[k]).name@,
                        one,
                    ) == outcome(p, base, refs[k].name@, sp) by {
                        assert forall|x: Seq<char>| one.contains(x) implies sp.contains(x) by {
                            assert(one[0] == name@);
                            assert(sp[sp.len() - 1] == name@);
                        }
                        lemma_outcome_fewer(p, base, refs[k].name@, one, sp);
                    }
                    lemma_uses_map_same(p, base, refs, refs.len() as int, one, sp);
                }
                match unresolved.substitute(resolved) {
                    Ok(text) => {
                        let ghost rb = resolved@;
                        resolved.insert(name.clone(), text);
                        proof {
                            assert(outcome(p, base, name@, names0) == Some(Some(resolved@[name@])));
                            lemma_outcome_alone(p, base, name@, names0);
                            lemma_state_insert(p, base, rb, name_views(failed@), name@, resolved@[name@]);
                            if rb.contains_key(name@) && !name_views(failed@).contains(name@) {
                                assert(outcome(p, base, name@, empty) == Some(Some(rb[name@])));
                            }
                            lemma_progress_at(rb, name_views(failed@), resolved@, name_views(failed@), name@);
                            lemma_progressed_trans_same(r0, f0, rb, name_views(failed@), resolved@, name_views(failed@), name@);
                            assert(!f0.contains(name@)) by {
                                if f0.contains(name@) {
                                    let k = choose|k: int| 0 <= k < f0.len() && f0[k] == name@;
                                    assert(failed_ok(p, base, r0, f0[k]));
                                }
                            }
                        }
                        Ok(())
                    },
                    Err(e) => {
                        let keep = match inherited {
                            Some(m) => m.get(name.as_str()),
                            None => None,
                        };
                        let ghost rb = resolved@;
                        let ghost fb = name_views(failed@);
                        failed.push(name.clone());
                        match keep {
                            Some(v) => {
                                resolved.insert(name.clone(), v.to_string());
                            },
                            None => {
                                resolved.remove(name.as_str());
                            },
                        }
                        proof {
                            assert(keep is Some <==> base.contains_key(name@));
                            assert(outcome(p, base, name@, names0) is None);
                            lemma_fails_alone(p, base, name@, names0);
                            assert(keeps_inherited(p, base, name@) <==> base.contains_key(name@));
                            assert(name_views(failed@) =~= fb.push(name@));
                            lemma_state_fail(p, base, rb, fb, name@, resolved@);
                            assert(!rb.contains_key(name@) || fb.contains(name@)) by {
                                if rb.contains_key(name@) && !fb.contains(name@) {
                                    assert(outcome(p, base, name@, empty) == Some(Some(rb[name@])));
                                }
                            }
                            lemma_progress_at(rb, fb, resolved@, name_views(failed@), name@);
                            lemma_progressed_trans_same(r0, f0, rb, fb, resolved@, name_views(failed@), name@);
                            assert(name_views(failed@)[fb.len() as int] == name@);
                            assert(holds_final(p, base, resolved@, name@));
                        }
                        Err(ResolutionError::Substitution(e))
                    },
                }
            }
        },
        _ => Ok(()),
    };
    resolving.pop();
    result
}

/// Whether a declared value can be resolved: the `var()`s of a value to
/// substitute fit its text.
pub open spec fn value_wf(v: CustomValue) -> bool {
    v matches CustomValue::Unresolved(u) ==> u.wf()
}

/// The map a resolution starts from: the inherited values, if any.
pub open spec fn base_map(inherited: Option<&CustomPropertiesMap>) -> Map<Seq<char>, Seq<char>> {
    match inherited {
        Some(m) => m@,
        None => Map::empty(),
    }
}

/// Whether `m` agrees with `base` on `n`.
pub open spec fn agrees_at(m: Map<Seq<char>, Seq<char>>, base: Map<Seq<char>, Seq<char>>, n: Seq<char>) -> bool {
    m.contains_key(n) == base.contains_key(n) && (m.contains_key(n) ==> m[n] == base[n])
}

/// Records `value` as the value declared for `name`, replacing an earlier
/// one in its place.
fn insert_pending(pending: &mut Vec<(String, CustomValue)>, name: String, value: CustomValue)
    requires
        pending_names(old(pending)@).no_duplicates(),
        values_wf(old(pending)@),
        value_wf(value),
    ensures
        pending_names(final(pending)@).no_duplicates(),
        values_wf(final(pending)@),
        forall|n: Seq<char>|
            #[trigger] declared_value(final(pending)@, n) == if n == name@ {
                Some(value)
            } else {
                declared_value(old(pending)@, n)
            },
{
    let ghost p0 = pending@;
    match find_pending(pending, &name) {
        Some(j) => {
            let (key, _) = pending.remove(j);
            pending.insert(j, (key, value));
            proof {
                let p1 = pending@;
                assert(p1 =~= p0.update(j as int, (p0[j as int].0, value)));
                assert(pending_names(p1) =~= pending_names(p0));
                assert forall|k: int| 0 <= k < p1.len() implies ((#[trigger] p1[k]).1 matches CustomValue::Unresolved(u) ==> u.wf()) by {
                    if k != j {
                        assert(p1[k] == p0[k]);
                    }
                }
                assert forall|n: Seq<char>| #[trigger] declared_value(p1, n) == if n == name@ {
                    Some(value)
                } else {
                    declared_value(p0, n)
                } by {
                    lemma_declared_update(p0, j as int, value, n);
                }
            }
        },
        None => {
            pending.push((name, value));
            proof {
                let p1 = pending@;
                assert(p1.drop_last() =~= p0);
                assert(pending_names(p1) =~= pending_names(p0).push(name@));
                assert(!pending_names(p0).contains(name@)) by {
                    if pending_names(p0).contains(name@) {
                        let k = choose|k: int| 0 <= k < p0.len() && #[trigger] pending_names(p0)[k] == name@;
                        assert(p0[k].0@ == name@);
                    }
                }
                assert forall|k: int| 0 <= k < p1.len() implies ((#[trigger] p1[k]).1 matches CustomValue::Unresolved(u) ==> u.wf()) by {
                    if k < p0.len() {
                        assert(p1[k] == p0[k]);
                    }
                }
            }
        },
    }
}

proof fn lemma_declared_update(p: Seq<(String, CustomValue)>, j: int, v: CustomValue, n: Seq<char>)
    requires
        0 <= j < p.len(),
        pending_names(p).no_duplicates(),
    ensures
        declared_value(p.update(j, (p[j].0, v)), n) == if n == p[j].0@ {
            Some(v)
        } else {
            declared_value(p, n)
        },
    decreases p.len(),
{
    let u = p.update(j, (p[j].0, v));
    if j == p.len() - 1 {
        assert(u.drop_last() =~= p.drop_last());
        if n == p[j].0@ {
        } else {
            assert(u.last().0@ == p.last().0@);
        }
    } else {
        assert(u.last() == p.last());
        assert(u.drop_last() =~= p.drop_last().update(j, (p[j].0, v)));
        assert(pending_names(p.drop_last()) =~= pending_names(p).drop_last());
        assert(p.drop_last()[j] == p[j]);
        lemma_declared_update(p.drop_last(), j, v, n);
        if n == p[j].0@ {
            assert(pending_names(p)[j] != pending_names(p)[p.len() - 1]);
            assert(p.last() == p[p.len() - 1]);
        }
    }
}

/// Collects custom-property declarations in cascade order, then resolves
/// them against the inherited values.
pub struct CustomPropertiesResolver<'a> {
    inherited: Option<&'a CustomPropertiesMap>,
    declarations: Vec<(String, CustomValue)>,
}

impl<'a> CustomPropertiesResolver<'a> {
    pub closed spec fn spec_inherited(&self) -> Option<&'a CustomPropertiesMap> {
        self.inherited
    }

    /// The declarations so far, in the order they were added.
    pub closed spec fn spec_declarations(&self) -> Seq<(String, CustomValue)> {
        self.declarations@
    }

    /// Whether the inherited values and the declarations can be resolved.
    pub open spec fn wf(&self) -> bool {
        &&& (self.spec_inherited() matches Some(m) ==> m.wf())
        &&& forall|k: int|
            0 <= k < self.spec_declarations().len() ==> value_wf(
                (#[trigger] self.spec_declarations()[k]).1,
            )
    }

    /// A resolver with no declarations yet, inheriting `inherited`.
    pub fn new(inherited: Option<&'a CustomPropertiesMap>) -> (r: Self)
        requires
            inherited matches Some(m) ==> m.wf(),
        ensures
            r.spec_inherited() == inherited,
            r.spec_declarations() == Seq::<(String, CustomValue)>::empty(),
            r.wf(),
    {
        CustomPropertiesResolver { inherited, declarations: Vec::new() }
    }

    /// Declares `value` for the custom property `name`; a later
    /// declaration of the same name wins.
    pub fn add(&mut self, name: String, value: CustomValue)
        requires
            old(self).wf(),
            value_wf(value),
        ensures
            final(self).wf(),
            final(self).spec_inherited() == old(self).spec_inherited(),
            final(self).spec_declarations() == old(self).spec_declarations().push((name, value)),
    {
        self.declarations.push((name, value));
        proof {
            let d = self.declarations@;
            assert forall|k: int| 0 <= k < d.len() implies value_wf((#[trigger] d[k]).1) by {
                if k < d.len() - 1 {
                    assert(d[k] == old(self).declarations@[k]);
                    assert(value_wf(old(self).spec_declarations()[k].1));
                } else {
                    assert(d[k] == (name, value));
                }
            }
        }
    }

    /// The values of the custom properties: the inherited ones, with each
    /// declared property's last value applied. A value given outright is
    /// taken as it is; `initial` leaves no value; `inherit` keeps the
    /// inherited one; a value with `var()`s gets them replaced, the
    /// properties it uses resolved first, and gets no value where a cycle
    /// or a missing property without fallback stops it (unless it had an
    /// inherited value, which it then keeps). With no declarations the
    /// inherited values come back as they are.
    ///
    /// Each declared property ends as `holds_final` says, whatever the
    /// order of the declarations: a declared value takes the place of an
    /// inherited one, also for the properties that use it; properties on a
    /// cycle, and those that use a property that fails, get no value; one
    /// whose own substitution fails keeps its inherited value or gets none;
    /// and each other value with `var()`s is its text substituted with the
    /// values of the result itself.
    pub fn build(self) -> (r: CustomPropertiesMap)
        requires
            self.wf(),
        ensures
            r.wf(),
            self.spec_declarations().len() == 0 ==> r@ == base_map(self.spec_inherited()),
            forall|n: Seq<char>|
                declared_value(self.spec_declarations(), n) is None ==> #[trigger] agrees_at(
                    r@,
                    base_map(self.spec_inherited()),
                    n,
                ),
            forall|n: Seq<char>|
                #[trigger] declared_value(self.spec_declarations(), n) is Some ==> holds_final(
                    self.spec_declarations(),
                    base_map(self.spec_inherited()),
                    r@,
                    n,
                ),
            forall|n: Seq<char>|
                !keeps_inherited(self.spec_declarations(), base_map(self.spec_inherited()), n)
                    ==> #[trigger] substitutes_to_itself(self.spec_declarations(), r@, n),
    {
        let ghost base = base_map(self.inherited);
        let ghost decls = self.declarations@;
        if self.declarations.len() == 0 {
            return match self.inherited {
                Some(m) => m.clone(),
                None => CustomPropertiesMap::new(),
            };
        }
        let mut values = match self.inherited {
            Some(m) => m.clone(),
            None => CustomPropertiesMap::new(),
        };
        let inherited = self.inherited;
        let mut declarations = self.declarations;
        let mut pending: Vec<(String, CustomValue)> = Vec::new();
        let ghost mut taken: int = 0;
        proof {
            assert(pending_names(pending@) =~= Seq::<Seq<char>>::empty());
        }
        while declarations.len() > 0
            invariant
                0 <= taken <= decls.len(),
                declarations@ == decls.subrange(taken, decls.len() as int),
                forall|k: int| 0 <= k < decls.len() ==> value_wf(#[trigger] decls[k].1),
                pending_names(pending@).no_duplicates(),
                values_wf(pending@),
                forall|n: Seq<char>|
                    #[trigger] declared_value(pending@, n) == declared_value(decls.take(taken), n),
            decreases declarations@.len(),
        {
            let (name, value) = declarations.remove(0);
            proof {
                assert(decls[taken] == (name, value));
            }
            insert_pending(&mut pending, name, value);
            proof {
                let t = decls.take(taken + 1);
                assert(t.drop_last() =~= decls.take(taken));
                assert(t.last() == (name, value));
                taken = taken + 1;
                assert(declarations@ =~= decls.subrange(taken, decls.len() as int));
            }
        }
        proof {
            assert(decls.take(taken) =~= decls);
        }
        // Declared values take the place of inherited ones: clear them first.
        let mut c: usize = 0;
        while c < pending.len()
            invariant
                c <= pending@.len(),
                values.wf(),
                forall|n: Seq<char>| #[trigger] declared_value(pending@, n) == declared_value(decls, n),
                pending_names(pending@).no_duplicates(),
                forall|n: Seq<char>|
                    #[trigger] declared_value(decls, n) is None ==> agrees_at(values@, base, n),
                forall|n: Seq<char>|
                    #[trigger] declared_value(decls, n) matches Some(CustomValue::Inherit) ==> agrees_at(
                        values@,
                        base,
                        n,
                    ),
                forall|j: int|
                    0 <= j < c ==> !((#[trigger] pending@[j]).1 is Inherit) ==> !values@.contains_key(
                        pending@[j].0@,
                    ),
                forall|n: Seq<char>|
                    (#[trigger] declared_value(decls, n) matches Some(v) && !(v is Inherit))
                        && values@.contains_key(n) ==> values@[n] == base[n],
            decreases pending@.len() - c,
        {
            let is_inherit = match &pending[c].1 {
                CustomValue::Inherit => true,
                _ => false,
            };
            if !is_inherit {
                let ghost before = values@;
                values.remove(pending[c].0.as_str());
                proof {
                    lemma_declared_at(pending@, c as int);
                }
            }
            c = c + 1;
        }
        let mut resolving: Vec<String> = Vec::new();
        let mut failed: Vec<String> = Vec::new();
        let mut i: usize = 0;
        proof {
            assert(name_views(failed@) =~= Seq::<Seq<char>>::empty());
            assert forall|x: Seq<char>|
                #[trigger] declared_value(decls, x) matches Some(v) && !(v is Inherit)
                    && values@.contains_key(x) implies false by {
                lemma_declared_found(pending@, x);
                let k = choose|k: int| 0 <= k < pending@.len() && (#[trigger] pending@[k]).0@ == x
                    && Some(pending@[k].1) == declared_value(pending@, x);
            }
        }
        while i < pending.len()
            invariant
                i <= pending@.len(),
                pending_names(pending@).no_duplicates(),
                values_wf(pending@),
                forall|n: Seq<char>| #[trigger] declared_value(pending@, n) == declared_value(decls, n),
                values.wf(),
                inherited matches Some(m) ==> m.wf(),
                base == base_map(inherited),
                resolving@ == Seq::<String>::empty(),
                resolution_state(decls, base, values@, name_views(failed@)),
                forall|j: int|
                    0 <= j < i ==> holds_final(decls, base, values@, (#[trigger] pending@[j]).0@),
                forall|j: int|
                    0 <= j < i ==> !name_views(failed@).contains((#[trigger] pending@[j]).0@)
                        ==> outcome(decls, base, pending@[j].0@, Seq::empty()) is Some,
            decreases pending@.len() - i,
        {
            proof {
                lemma_declared_at(pending@, i as int);
                assert(name_views(resolving@) =~= Seq::<Seq<char>>::empty());
                let one = name_views(resolving@).push(pending@[i as int].0@);
                assert(one.len() == 1);
                assert(chain(decls, one));
            }
            let ghost before = values@;
            let ghost fb = name_views(failed@);
            let res = resolve_property(
                &pending[i].0,
                &pending[i].1,
                &pending,
                &mut values,
                &mut resolving,
                &mut failed,
                inherited,
                Ghost(decls),
            );
            proof {
                let xi = pending@[i as int].0@;
                let fa = name_views(failed@);
                assert forall|j: int| 0 <= j < i + 1 implies holds_final(
                    decls,
                    base,
                    values@,
                    (#[trigger] pending@[j]).0@,
                ) && (!fa.contains(pending@[j].0@) ==> outcome(decls, base, pending@[j].0@, Seq::empty()) is Some) by {
                    let x = pending@[j].0@;
                    lemma_declared_at(pending@, j);
                    if j < i {
                        assert(pending_names(pending@)[j] != pending_names(pending@)[i as int]);
                        assert(x != xi);
                        assert(holds_final(decls, base, before, x));
                        if fb.contains(x) {
                            assert(fa.contains(x)) by {
                                let k = choose|k: int| 0 <= k < fb.len() && fb[k] == x;
                                assert(fa.contains(fb[k]));
                            }
                        } else {
                            let o = outcome(decls, base, x, Seq::empty());
                            if keeps_inherited(decls, base, x) {
                                assert(o is None);
                            }
                            if values@.contains_key(x) && !before.contains_key(x) {
                                if fa.contains(x) {
                                    let k = choose|k: int| 0 <= k < fa.len() && fa[k] == x;
                                    assert(failed_ok(decls, base, values@, fa[k]));
                                }
                            }
                            if fa.contains(x) {
                                let k = choose|k: int| 0 <= k < fa.len() && fa[k] == x;
                                assert(failed_ok(decls, base, values@, fa[k]));
                            }
                        }
                    } else {
                        if res is Ok {
                            if keeps_inherited(decls, base, x) {
                                assert(outcome(decls, base, x, Seq::empty()) is None);
                            }
                        }
                    }
                }
            }
            i = i + 1;
        }
        proof {
            assert forall|n: Seq<char>| #[trigger] declared_value(decls, n) is Some implies holds_final(
                decls,
                base,
                values@,
                n,
            ) by {
                lemma_declared_found(pending@, n);
                let k = choose|k: int| 0 <= k < pending@.len() && (#[trigger] pending@[k]).0@ == n
                    && Some(pending@[k].1) == declared_value(pending@, n);
            }
            assert forall|x: Seq<char>| #[trigger] holds_final(decls, base, values@, x) by {
                if declared_value(decls, x) is None {
                    assert(agrees_at(values@, base, x));
                } else {
                    assert(declared_value(decls, x) is Some);
                }
            }
            assert forall|n: Seq<char>|
                !keeps_inherited(decls, base, n) implies #[trigger] substitutes_to_itself(
                decls,
                values@,
                n,
            ) by {
                if declared_value(decls, n) is Some && declared_value(decls, n)->0 is Unresolved
                    && values@.contains_key(n) {
                    let u = declared_value(decls, n)->0->Unresolved_0;
                    lemma_declared_wf(pending@, n);
                    assert(holds_final(decls, base, values@, n));
                    lemma_resolved_value_substitutes(decls, base, values@, n, u);
                }
            }
        }
        values
    }
}

} // verus!
