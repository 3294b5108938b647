use vstd::prelude::*;

use crate::restyle::{
    bits_include, RestyleHint, RESTYLE_DESCENDANTS, RESTYLE_LATER_SIBLINGS, RESTYLE_SELF,
};
use crate::selector::{pseudo_class_to_state, spec_pseudo_class_state, Combinator, SelectorPart};
use crate::sheet::SheetEntry;
use crate::state::ElementState;
use crate::assoc::{find_named, has_name, lemma_named_values_has_name, named_values, push_named};

verus! {

/// Where, relative to the element that a selector styles, a simple
/// selector applies.
#[derive(Debug, Clone, Copy, PartialEq, Eq, Structural)]
pub enum DependencyLocation {
    Subject,
    Ancestor,
    PreviousSibling,
}

impl DependencyLocation {
    pub open spec fn spec_restyle_bits(self) -> u16 {
        match self {
            DependencyLocation::Subject => RESTYLE_SELF,
            DependencyLocation::Ancestor => RESTYLE_DESCENDANTS,
            DependencyLocation::PreviousSibling => RESTYLE_LATER_SIBLINGS,
        }
    }

    /// What must be restyled when something at this location changes.
    pub fn to_restyle_hint(self) -> (h: RestyleHint)
        ensures
            h@ == self.spec_restyle_bits(),
    {
        match self {
            DependencyLocation::Subject => RestyleHint::restyle_self(),
            DependencyLocation::Ancestor => RestyleHint::restyle_descendants(),
            DependencyLocation::PreviousSibling => RestyleHint::restyle_later_siblings(),
        }
    }
}

/// A place in some selector where a state, attribute, class or id is tested.
#[derive(Debug, Clone, Copy, PartialEq, Eq, Structural)]
pub struct Dependency {
    pub location: DependencyLocation,
}

/// The restyle flags of a sequence of dependencies, all together.
pub open spec fn deps_hint(deps: Seq<Dependency>) -> u16
    decreases deps.len(),
{
    if deps.len() == 0 {
        0
    } else {
        deps_hint(deps.drop_last()) | deps.last().location.spec_restyle_bits()
    }
}

/// The restyle flags for a change of the states `changed`: those of every
/// entry whose states meet them.
pub open spec fn state_hint(table: Seq<(ElementState, Vec<Dependency>)>, changed: u8) -> u16
    decreases table.len(),
{
    if table.len() == 0 {
        0
    } else {
        let rest = state_hint(table.drop_last(), changed);
        if changed & table.last().0@ != 0 {
            rest | deps_hint(table.last().1@)
        } else {
            rest
        }
    }
}

/// The dependencies recorded under the states `state`.
pub open spec fn state_deps(table: Seq<(ElementState, Vec<Dependency>)>, state: u8) -> Seq<
    Dependency,
>
    decreases table.len(),
{
    if table.len() == 0 {
        Seq::empty()
    } else if table.last().0@ == state {
        table.last().1@
    } else {
        state_deps(table.drop_last(), state)
    }
}

/// Where a selector's part `i` applies: at the subject until the first
/// combinator, then at ancestors after a child or descendant combinator and
/// at previous siblings after a sibling combinator.
pub open spec fn location_at(parts: Seq<SelectorPart>, i: int) -> DependencyLocation
    decreases i,
{
    if i <= 0 {
        DependencyLocation::Subject
    } else {
        let before = location_at(parts, i - 1);
        match parts[i - 1] {
            SelectorPart::Combinator(c) => match c {
                Combinator::Child | Combinator::Descendant => DependencyLocation::Ancestor,
                Combinator::NextSibling | Combinator::LaterSibling => {
                    DependencyLocation::PreviousSibling
                },
                Combinator::Other => before,
            },
            _ => before,
        }
    }
}

/// Which kind of name a part tests.
pub enum NameKind {
    Id,
    Class,
    Attribute,
}

/// The name that part `p` tests, if it tests one of kind `kind`.
pub open spec fn part_name(p: SelectorPart, kind: NameKind) -> Option<Seq<char>> {
    match (p, kind) {
        (SelectorPart::Id(n), NameKind::Id) => Some(n@),
        (SelectorPart::Class(n), NameKind::Class) => Some(n@),
        (SelectorPart::Attribute(n), NameKind::Attribute) => Some(n@),
        _ => None,
    }
}

/// The dependencies on `name` (of the given kind) that the first `i` parts
/// of a selector add, in order.
pub open spec fn name_deps_in(parts: Seq<SelectorPart>, kind: NameKind, name: Seq<char>, i: int) -> Seq<
    Dependency,
>
    decreases i,
{
    if i <= 0 {
        Seq::empty()
    } else {
        let before = name_deps_in(parts, kind, name, i - 1);
        if part_name(parts[i - 1], kind) == Some(name) {
            before.push(Dependency { location: location_at(parts, i - 1) })
        } else {
            before
        }
    }
}

/// The dependencies on the states `state` that the first `i` parts of a
/// selector add, in order (structural pseudo-classes add none).
pub open spec fn state_deps_in(parts: Seq<SelectorPart>, state: u8, i: int) -> Seq<Dependency>
    decreases i,
{
    if i <= 0 {
        Seq::empty()
    } else {
        let before = state_deps_in(parts, state, i - 1);
        match parts[i - 1] {
            SelectorPart::PseudoClass(p) => {
                let s = spec_pseudo_class_state(p);
                if s != 0 && s == state {
                    before.push(Dependency { location: location_at(parts, i - 1) })
                } else {
                    before
                }
            },
            _ => before,
        }
    }
}

/// The states that a part tests: those of its pseudo-class, if it is one.
pub open spec fn part_state(p: SelectorPart) -> u8 {
    match p {
        SelectorPart::PseudoClass(pseudo) => spec_pseudo_class_state(pseudo),
        _ => 0,
    }
}

/// Every name of kind `kind` that a part of `parts` tests is in `table`,
/// and a change of it restyles where the part stands.
pub open spec fn names_registered(
    table: Seq<(String, Vec<Dependency>)>,
    parts: Seq<SelectorPart>,
    kind: NameKind,
) -> bool {
    forall|k: int|
        0 <= k < parts.len() && (#[trigger] part_name(parts[k], kind)) is Some ==> {
            let n = part_name(parts[k], kind)->0;
            &&& has_name(table, n)
            &&& bits_include(
                deps_hint(named_values(table, n)),
                location_at(parts, k).spec_restyle_bits(),
            )
        }
}

/// Every state that a part of `parts` tests is in `table`, and a change
/// that meets it restyles where the part stands.
pub open spec fn states_registered(
    table: Seq<(ElementState, Vec<Dependency>)>,
    parts: Seq<SelectorPart>,
) -> bool {
    &&& forall|k: int|
        0 <= k < parts.len() && #[trigger] part_state(parts[k]) != 0 ==> exists|i: int|
            0 <= i < table.len() && (#[trigger] table[i]).0@ == part_state(parts[k])
    &&& forall|k: int, changed: u8|
        0 <= k < parts.len() && #[trigger] part_state(parts[k]) != 0 && changed & part_state(
            parts[k],
        ) != 0 ==> bits_include(
            #[trigger] state_hint(table, changed),
            location_at(parts, k).spec_restyle_bits(),
        )
}

/// Records, for each state, attribute, class and id that selectors test,
/// where in the selectors it is tested.
pub struct InvalidationMap {
    pub state: Vec<(ElementState, Vec<Dependency>)>,
    pub attribute: Vec<(String, Vec<Dependency>)>,
    pub class: Vec<(String, Vec<Dependency>)>,
    pub id: Vec<(String, Vec<Dependency>)>,
}

impl Default for InvalidationMap {
    fn default() -> (m: Self)
        ensures
            m.state@.len() == 0,
            m.attribute@.len() == 0,
            m.class@.len() == 0,
            m.id@.len() == 0,
    {
        Self::new()
    }
}

/// Whether every recorded state has some dependency.
pub open spec fn state_table_wf(table: Seq<(ElementState, Vec<Dependency>)>) -> bool {
    forall|i: int| 0 <= i < table.len() ==> (#[trigger] table[i]).1@.len() > 0
}

/// Adds `dep` under the states `state`.
fn add_state(table: &mut Vec<(ElementState, Vec<Dependency>)>, state: ElementState, dep: Dependency)
    ensures
        state_table_wf(old(table)@) ==> state_table_wf(final(table)@),
        forall|s: u8|
            #[trigger] state_deps(final(table)@, s) == if s == state@ {
                state_deps(old(table)@, s).push(dep)
            } else {
                state_deps(old(table)@, s)
            },
        forall|changed: u8|
            #[trigger] state_hint(final(table)@, changed) == if changed & state@ != 0 {
                state_hint(old(table)@, changed) | dep.location.spec_restyle_bits()
            } else {
                state_hint(old(table)@, changed)
            },
{
    let ghost old_t = table@;
    let mut j = table.len();
    while j > 0
        invariant
            j <= table@.len(),
            table@ == old_t,
            old_t == old(table)@,
            forall|k: int| j <= k < table@.len() ==> table@[k].0@ != state@,
        decreases j,
    {
        if table[j - 1].0.bits == state.bits {
            let ghost i = (j - 1) as int;
            let (key, mut deps) = table.remove(j - 1);
            proof {
                assert(key == old_t[i].0);
                assert(deps == old_t[i].1);
            }
            deps.push(dep);
            table.insert(j - 1, (key, deps));
            proof {
                assert(table@ =~= old_t.update(i, (key, deps)));
                assert(table@[i].1@ == old_t[i].1@.push(dep));
                if state_table_wf(old_t) {
                    assert forall|k: int| 0 <= k < table@.len() implies (#[trigger] table@[k]).1@.len() > 0 by {
                        if k != i {
                            assert(table@[k] == old_t[k]);
                        }
                    }
                }
                assert forall|s: u8| #[trigger]
                    state_deps(table@, s) == if s == state@ {
                        state_deps(old_t, s).push(dep)
                    } else {
                        state_deps(old_t, s)
                    } by {
                    lemma_state_deps_update_at(old_t, table@, (j - 1) as int, state@, dep, s);
                }
                assert forall|changed: u8| #[trigger]
                    state_hint(table@, changed) == if changed & state@ != 0 {
                        state_hint(old_t, changed) | dep.location.spec_restyle_bits()
                    } else {
                        state_hint(old_t, changed)
                    } by {
                    lemma_state_hint_update_at(old_t, table@, (j - 1) as int, state@, dep, changed);
                }
            }
            return ;
        }
        j = j - 1;
    }
    let mut deps: Vec<Dependency> = Vec::new();
    deps.push(dep);
    table.push((state, deps));
    proof {
        assert(table@.drop_last() =~= old_t);
        if state_table_wf(old_t) {
            assert forall|k: int| 0 <= k < table@.len() implies (#[trigger] table@[k]).1@.len() > 0 by {
                if k < old_t.len() {
                    assert(table@[k] == old_t[k]);
                }
            }
        }
        lemma_state_deps_absent(old_t, state@);
        assert(deps@ =~= Seq::<Dependency>::empty().push(dep));
        assert forall|changed: u8| #[trigger]
            state_hint(table@, changed) == if changed & state@ != 0 {
                state_hint(old_t, changed) | dep.location.spec_restyle_bits()
            } else {
                state_hint(old_t, changed)
            } by {
            lemma_deps_hint_single(dep);
        }
    }
}

proof fn lemma_deps_hint_single(dep: Dependency)
    ensures
        deps_hint(seq![dep]) == dep.location.spec_restyle_bits(),
{
    let s = seq![dep];
    assert(s.drop_last() =~= Seq::<Dependency>::empty());
    assert(deps_hint(Seq::<Dependency>::empty()) == 0);
    assert(s.last() == dep);
    let b = dep.location.spec_restyle_bits();
    assert(0u16 | b == b) by (bit_vector);
}

proof fn lemma_state_deps_absent(t: Seq<(ElementState, Vec<Dependency>)>, state: u8)
    requires
        forall|k: int| 0 <= k < t.len() ==> t[k].0@ != state,
    ensures
        state_deps(t, state) == Seq::<Dependency>::empty(),
    decreases t.len(),
{
    if t.len() > 0 {
        lemma_state_deps_absent(t.drop_last(), state);
    }
}

proof fn lemma_state_deps_update_at(
    t: Seq<(ElementState, Vec<Dependency>)>,
    u: Seq<(ElementState, Vec<Dependency>)>,
    j: int,
    state: u8,
    dep: Dependency,
    s: u8,
)
    requires
        0 <= j < t.len(),
        u.len() == t.len(),
        t[j].0@ == state,
        u[j].0@ == state,
        u[j].1@ == t[j].1@.push(dep),
        forall|k: int| 0 <= k < t.len() && k != j ==> u[k] == t[k],
        forall|k: int| j < k < t.len() ==> t[k].0@ != state,
    ensures
        state_deps(u, s) == if s == state {
            state_deps(t, s).push(dep)
        } else {
            state_deps(t, s)
        },
    decreases t.len(),
{
    if j == t.len() - 1 {
        if s != state {
            assert(u.drop_last() =~= t.drop_last());
        }
    } else {
        assert(u.last() == t.last());
        lemma_state_deps_update_at(t.drop_last(), u.drop_last(), j, state, dep, s);
    }
}

proof fn lemma_deps_hint_push(deps: Seq<Dependency>, dep: Dependency)
    ensures
        deps_hint(deps.push(dep)) == deps_hint(deps) | dep.location.spec_restyle_bits(),
{
    assert(deps.push(dep).drop_last() =~= deps);
}

proof fn lemma_state_hint_update_at(
    t: Seq<(ElementState, Vec<Dependency>)>,
    u: Seq<(ElementState, Vec<Dependency>)>,
    j: int,
    state: u8,
    dep: Dependency,
    changed: u8,
)
    requires
        0 <= j < t.len(),
        u.len() == t.len(),
        t[j].0@ == state,
        u[j].0@ == state,
        u[j].1@ == t[j].1@.push(dep),
        forall|k: int| 0 <= k < t.len() && k != j ==> u[k] == t[k],
    ensures
        state_hint(u, changed) == if changed & state != 0 {
            state_hint(t, changed) | dep.location.spec_restyle_bits()
        } else {
            state_hint(t, changed)
        },
    decreases t.len(),
{
    let b = dep.location.spec_restyle_bits();
    if j == t.len() - 1 {
        assert(u.drop_last() =~= t.drop_last());
        lemma_deps_hint_push(t[j].1@, dep);
        let r = state_hint(t.drop_last(), changed);
        let d = deps_hint(t[j].1@);
        assert((r | (d | b)) == ((r | d) | b)) by (bit_vector);
    } else {
        assert(u.last() == t.last());
        lemma_state_hint_update_at(t.drop_last(), u.drop_last(), j, state, dep, changed);
        let r = state_hint(t.drop_last(), changed);
        let d = deps_hint(t.last().1@);
        assert(((r | b) | d) == ((r | d) | b)) by (bit_vector);
    }
}

/// Every dependency in `deps` has its flags in `deps_hint(deps)`.
proof fn lemma_deps_hint_has(deps: Seq<Dependency>, k: int)
    requires
        0 <= k < deps.len(),
    ensures
        bits_include(deps_hint(deps), deps[k].location.spec_restyle_bits()),
    decreases deps.len(),
{
    let r = deps_hint(deps.drop_last());
    let l = deps.last().location.spec_restyle_bits();
    let b = deps[k].location.spec_restyle_bits();
    if k == deps.len() - 1 {
        assert((r | l) & l == l) by (bit_vector);
    } else {
        lemma_deps_hint_has(deps.drop_last(), k);
        assert(r & b == b ==> (r | l) & b == b) by (bit_vector);
    }
}

/// A part that tests `name` adds a dependency at its location.
proof fn lemma_name_deps_in_has(parts: Seq<SelectorPart>, kind: NameKind, name: Seq<char>, i: int, k: int)
    requires
        0 <= k < i <= parts.len(),
        part_name(parts[k], kind) == Some(name),
    ensures
        name_deps_in(parts, kind, name, i).contains(Dependency { location: location_at(parts, k) }),
    decreases i,
{
    let d = Dependency { location: location_at(parts, k) };
    let before = name_deps_in(parts, kind, name, i - 1);
    if k == i - 1 {
        assert(before.push(d)[before.len() as int] == d);
    } else {
        lemma_name_deps_in_has(parts, kind, name, i - 1, k);
        if part_name(parts[i - 1], kind) == Some(name) {
            let j = choose|j: int| 0 <= j < before.len() && before[j] == d;
            assert(before.push(Dependency { location: location_at(parts, i - 1) })[j] == d);
        }
    }
}

/// A pseudo-class part that tests the states `state` adds a dependency at
/// its location.
proof fn lemma_state_deps_in_has(parts: Seq<SelectorPart>, state: u8, i: int, k: int)
    requires
        0 <= k < i <= parts.len(),
        parts[k] matches SelectorPart::PseudoClass(p) && spec_pseudo_class_state(p) == state,
        state != 0,
    ensures
        state_deps_in(parts, state, i).contains(Dependency { location: location_at(parts, k) }),
    decreases i,
{
    let d = Dependency { location: location_at(parts, k) };
    let before = state_deps_in(parts, state, i - 1);
    if k == i - 1 {
        assert(before.push(d)[before.len() as int] == d);
    } else {
        lemma_state_deps_in_has(parts, state, i - 1, k);
        let j = choose|j: int| 0 <= j < before.len() && before[j] == d;
        assert(before.push(Dependency { location: location_at(parts, i - 1) })[j] == d);
    }
}

/// A dependency recorded under the states `state` has its flags in the
/// hint for every change that meets `state`; and an entry has those states.
proof fn lemma_state_deps_hint_has(
    t: Seq<(ElementState, Vec<Dependency>)>,
    state: u8,
    changed: u8,
    d: Dependency,
)
    requires
        state_deps(t, state).contains(d),
        changed & state != 0,
    ensures
        bits_include(state_hint(t, changed), d.location.spec_restyle_bits()),
        exists|i: int| 0 <= i < t.len() && (#[trigger] t[i]).0@ == state,
    decreases t.len(),
{
    let r = state_hint(t.drop_last(), changed);
    let b = d.location.spec_restyle_bits();
    if t.last().0@ == state {
        let deps = t.last().1@;
        let k = choose|k: int| 0 <= k < deps.len() && deps[k] == d;
        lemma_deps_hint_has(deps, k);
        let h = deps_hint(deps);
        assert(h & b == b ==> (r | h) & b == b) by (bit_vector);
        assert(t[t.len() - 1].0@ == state);
    } else {
        lemma_state_deps_hint_has(t.drop_last(), state, changed, d);
        let i = choose|i: int| 0 <= i < t.drop_last().len() && (#[trigger] t.drop_last()[i]).0@ == state;
        assert(t[i].0@ == state);
        if changed & t.last().0@ != 0 {
            let h = deps_hint(t.last().1@);
            assert(r & b == b ==> (r | h) & b == b) by (bit_vector);
        }
    }
}

/// The restyle hint for a change of the dependencies under one name.
fn hint_of(deps: &Vec<Dependency>) -> (h: RestyleHint)
    ensures
        h@ == deps_hint(deps@),
{
    let mut hint = RestyleHint::empty();
    let mut i: usize = 0;
    assert(deps@.take(0) =~= Seq::<Dependency>::empty());
    while i < deps.len()
        invariant
            i <= deps@.len(),
            hint@ == deps_hint(deps@.take(i as int)),
        decreases deps@.len() - i,
    {
        assert(deps@.take(i as int + 1).drop_last() =~= deps@.take(i as int));
        hint.insert(deps[i].location.to_restyle_hint());
        i = i + 1;
    }
    assert(deps@.take(deps@.len() as int) =~= deps@);
    hint
}

proof fn lemma_names_registered(
    t: Seq<(String, Vec<Dependency>)>,
    u: Seq<(String, Vec<Dependency>)>,
    parts: Seq<SelectorPart>,
    kind: NameKind,
)
    requires
        forall|n: Seq<char>|
            #[trigger] named_values(u, n) == named_values(t, n) + name_deps_in(
                parts,
                kind,
                n,
                parts.len() as int,
            ),
    ensures
        names_registered(u, parts, kind),
{
    assert forall|k: int|
        0 <= k < parts.len() && (#[trigger] part_name(parts[k], kind)) is Some implies {
            let n = part_name(parts[k], kind)->0;
            &&& has_name(u, n)
            &&& bits_include(
                deps_hint(named_values(u, n)),
                location_at(parts, k).spec_restyle_bits(),
            )
        } by {
        let n = part_name(parts[k], kind)->0;
        let d = Dependency { location: location_at(parts, k) };
        let added = name_deps_in(parts, kind, n, parts.len() as int);
        lemma_name_deps_in_has(parts, kind, n, parts.len() as int, k);
        let j = choose|j: int| 0 <= j < added.len() && added[j] == d;
        let all = named_values(u, n);
        assert(all[named_values(t, n).len() + j] == d);
        lemma_deps_hint_has(all, named_values(t, n).len() + j);
        lemma_named_values_has_name(u, n);
    }
}

proof fn lemma_states_registered(
    t: Seq<(ElementState, Vec<Dependency>)>,
    u: Seq<(ElementState, Vec<Dependency>)>,
    parts: Seq<SelectorPart>,
)
    requires
        forall|s: u8|
            #[trigger] state_deps(u, s) == state_deps(t, s) + state_deps_in(
                parts,
                s,
                parts.len() as int,
            ),
    ensures
        states_registered(u, parts),
{
    assert forall|k: int, changed: u8|
        0 <= k < parts.len() && #[trigger] part_state(parts[k]) != 0 && changed & part_state(
            parts[k],
        ) != 0 implies bits_include(
        #[trigger] state_hint(u, changed),
        location_at(parts, k).spec_restyle_bits(),
    ) && exists|i: int| 0 <= i < u.len() && (#[trigger] u[i]).0@ == part_state(parts[k]) by {
        lemma_state_registered_at(t, u, parts, k, changed);
    }
    assert forall|k: int| 0 <= k < parts.len() && #[trigger] part_state(parts[k]) != 0 implies exists|i: int|
        0 <= i < u.len() && (#[trigger] u[i]).0@ == part_state(parts[k]) by {
        let s = part_state(parts[k]);
        assert(s & s != 0) by (bit_vector)
            requires
                s != 0,
        ;
        lemma_state_registered_at(t, u, parts, k, s);
    }
}

proof fn lemma_state_registered_at(
    t: Seq<(ElementState, Vec<Dependency>)>,
    u: Seq<(ElementState, Vec<Dependency>)>,
    parts: Seq<SelectorPart>,
    k: int,
    changed: u8,
)
    requires
        forall|s: u8|
            #[trigger] state_deps(u, s) == state_deps(t, s) + state_deps_in(
                parts,
                s,
                parts.len() as int,
            ),
        0 <= k < parts.len(),
        part_state(parts[k]) != 0,
        changed & part_state(parts[k]) != 0,
    ensures
        bits_include(state_hint(u, changed), location_at(parts, k).spec_restyle_bits()),
        exists|i: int| 0 <= i < u.len() && (#[trigger] u[i]).0@ == part_state(parts[k]),
{
    let s = part_state(parts[k]);
    let d = Dependency { location: location_at(parts, k) };
    let added = state_deps_in(parts, s, parts.len() as int);
    lemma_state_deps_in_has(parts, s, parts.len() as int, k);
    let j = choose|j: int| 0 <= j < added.len() && added[j] == d;
    let all = state_deps(u, s);
    assert(all[state_deps(t, s).len() + j] == d);
    lemma_state_deps_hint_has(u, s, changed, d);
}

impl InvalidationMap {
    /// Whether every recorded state has some dependency: what the
    /// functions below keep.
    pub open spec fn wf(&self) -> bool {
        state_table_wf(self.state@)
    }

    pub fn new() -> (m: Self)
        ensures
            m.wf(),
            m.state@.len() == 0,
            m.attribute@.len() == 0,
            m.class@.len() == 0,
            m.id@.len() == 0,
    {
        InvalidationMap {
            state: Vec::new(),
            attribute: Vec::new(),
            class: Vec::new(),
            id: Vec::new(),
        }
    }

    /// Forgets every dependency.
    pub fn clear(&mut self)
        ensures
            final(self).wf(),
            final(self).state@.len() == 0,
            final(self).attribute@.len() == 0,
            final(self).class@.len() == 0,
            final(self).id@.len() == 0,
    {
        self.state.clear();
        self.attribute.clear();
        self.class.clear();
        self.id.clear();
    }

    /// Records the dependencies of a selector, given as its parts from the
    /// subject outwards.
    pub fn register_selector(&mut self, parts: &Vec<SelectorPart>)
        ensures
            forall|n: Seq<char>|
                #[trigger] named_values(final(self).class@, n) == named_values(old(self).class@, n)
                    + name_deps_in(parts@, NameKind::Class, n, parts@.len() as int),
            forall|n: Seq<char>|
                #[trigger] named_values(final(self).id@, n) == named_values(old(self).id@, n)
                    + name_deps_in(parts@, NameKind::Id, n, parts@.len() as int),
            forall|n: Seq<char>|
                #[trigger] named_values(final(self).attribute@, n) == named_values(
                    old(self).attribute@,
                    n,
                ) + name_deps_in(parts@, NameKind::Attribute, n, parts@.len() as int),
            forall|s: u8|
                #[trigger] state_deps(final(self).state@, s) == state_deps(old(self).state@, s)
                    + state_deps_in(parts@, s, parts@.len() as int),
            names_registered(final(self).class@, parts@, NameKind::Class),
            names_registered(final(self).id@, parts@, NameKind::Id),
            names_registered(final(self).attribute@, parts@, NameKind::Attribute),
            states_registered(final(self).state@, parts@),
            old(self).wf() ==> final(self).wf(),
    {
        let ghost old_self = *self;
        let mut location = DependencyLocation::Subject;
        let mut i: usize = 0;
        while i < parts.len()
            invariant
                i <= parts@.len(),
                location == location_at(parts@, i as int),
                forall|n: Seq<char>|
                    #[trigger] named_values(self.class@, n) == named_values(old_self.class@, n)
                        + name_deps_in(parts@, NameKind::Class, n, i as int),
                forall|n: Seq<char>|
                    #[trigger] named_values(self.id@, n) == named_values(old_self.id@, n)
                        + name_deps_in(parts@, NameKind::Id, n, i as int),
                forall|n: Seq<char>|
                    #[trigger] named_values(self.attribute@, n) == named_values(
                        old_self.attribute@,
                        n,
                    ) + name_deps_in(parts@, NameKind::Attribute, n, i as int),
                forall|s: u8|
                    #[trigger] state_deps(self.state@, s) == state_deps(old_self.state@, s)
                        + state_deps_in(parts@, s, i as int),
                old_self.wf() ==> self.wf(),
            decreases parts@.len() - i,
        {
            let dep = Dependency { location };
            let ghost before = *self;
            match &parts[i] {
                SelectorPart::Id(name) => {
                    push_named(&mut self.id, name, dep);
                },
                SelectorPart::Class(name) => {
                    push_named(&mut self.class, name, dep);
                },
                SelectorPart::Attribute(name) => {
                    push_named(&mut self.attribute, name, dep);
                },
                SelectorPart::PseudoClass(pseudo) => {
                    let state = pseudo_class_to_state(pseudo);
                    if !state.is_empty() {
                        add_state(&mut self.state, state, dep);
                    }
                },
                SelectorPart::Combinator(combinator) => {
                    location =
                        match combinator {
                            Combinator::Child | Combinator::Descendant => {
                                DependencyLocation::Ancestor
                            },
                            Combinator::NextSibling | Combinator::LaterSibling => {
                                DependencyLocation::PreviousSibling
                            },
                            Combinator::Other => location,
                        };
                },
                _ => {},
            }
            i = i + 1;
            proof {
                let ii = i as int;
                assert forall|n: Seq<char>| #[trigger]
                    named_values(self.class@, n) == named_values(old_self.class@, n) + name_deps_in(
                        parts@,
                        NameKind::Class,
                        n,
                        ii,
                    ) by {
                    assert(named_values(old_self.class@, n) + name_deps_in(
                        parts@,
                        NameKind::Class,
                        n,
                        ii - 1,
                    ).push(dep) =~= (named_values(old_self.class@, n) + name_deps_in(
                        parts@,
                        NameKind::Class,
                        n,
                        ii - 1,
                    )).push(dep));
                }
                assert forall|n: Seq<char>| #[trigger]
                    named_values(self.id@, n) == named_values(old_self.id@, n) + name_deps_in(
                        parts@,
                        NameKind::Id,
                        n,
                        ii,
                    ) by {
                    assert(named_values(old_self.id@, n) + name_deps_in(
                        parts@,
                        NameKind::Id,
                        n,
                        ii - 1,
                    ).push(dep) =~= (named_values(old_self.id@, n) + name_deps_in(
                        parts@,
                        NameKind::Id,
                        n,
                        ii - 1,
                    )).push(dep));
                }
                assert forall|n: Seq<char>| #[trigger]
                    named_values(self.attribute@, n) == named_values(old_self.attribute@, n)
                        + name_deps_in(parts@, NameKind::Attribute, n, ii) by {
                    assert(named_values(old_self.attribute@, n) + name_deps_in(
                        parts@,
                        NameKind::Attribute,
                        n,
                        ii - 1,
                    ).push(dep) =~= (named_values(old_self.attribute@, n) + name_deps_in(
                        parts@,
                        NameKind::Attribute,
                        n,
                        ii - 1,
                    )).push(dep));
                }
                assert forall|s: u8| #[trigger]
                    state_deps(self.state@, s) == state_deps(old_self.state@, s) + state_deps_in(
                        parts@,
                        s,
                        ii,
                    ) by {
                    assert(state_deps(old_self.state@, s) + state_deps_in(parts@, s, ii - 1).push(
                        dep,
                    ) =~= (state_deps(old_self.state@, s) + state_deps_in(parts@, s, ii - 1)).push(
                        dep,
                    ));
                }
            }
        }
        proof {
            lemma_names_registered(old_self.class@, self.class@, parts@, NameKind::Class);
            lemma_names_registered(old_self.id@, self.id@, parts@, NameKind::Id);
            lemma_names_registered(old_self.attribute@, self.attribute@, parts@, NameKind::Attribute);
            lemma_states_registered(old_self.state@, self.state@, parts@);
        }
    }

    /// The restyle hint for a change of element state from `old` to `new`:
    /// the flags of every dependency on a state that changed.
    pub fn restyle_hint_for_state_change(&self, old: ElementState, new: ElementState) -> (h:
        RestyleHint)
        ensures
            h@ == state_hint(self.state@, old@ ^ new@),
            h@ == state_hint(self.state@, new@ ^ old@),
            old@ == new@ ==> h@ == 0,
            h@ & !(RESTYLE_SELF | RESTYLE_DESCENDANTS | RESTYLE_LATER_SIBLINGS) == 0,
            self.wf() ==> (h@ == 0 <==> !exists|i: int|
                0 <= i < self.state@.len() && (#[trigger] self.state@[i]).0@ & (old@ ^ new@) != 0),
    {
        let changed = old.symmetric_difference(new);
        let mut hint = RestyleHint::empty();
        let mut i: usize = 0;
        assert(self.state@.take(0) =~= Seq::<(ElementState, Vec<Dependency>)>::empty());
        while i < self.state.len()
            invariant
                i <= self.state@.len(),
                hint@ == state_hint(self.state@.take(i as int), changed@),
            decreases self.state@.len() - i,
        {
            assert(self.state@.take(i as int + 1).drop_last() =~= self.state@.take(i as int));
            let entry = &self.state[i];
            if changed.intersects(entry.0) {
                let h = hint_of(&entry.1);
                hint = hint.union(h);
            }
            i = i + 1;
        }
        assert(self.state@.take(self.state@.len() as int) =~= self.state@);
        proof {
            lemma_state_change_hint(*self, old, new);
        }
        hint
    }

    /// The restyle hint for a change of the named attribute.
    pub fn restyle_hint_for_attribute_change(&self, attribute: &String) -> (h: RestyleHint)
        ensures
            h@ == deps_hint(named_values(self.attribute@, attribute@)),
    {
        match find_named(&self.attribute, attribute) {
            Some(deps) => hint_of(deps),
            None => RestyleHint::empty(),
        }
    }

    /// The restyle hint for a class being added or removed.
    pub fn restyle_hint_for_class_change(&self, class: &String) -> (h: RestyleHint)
        ensures
            h@ == deps_hint(named_values(self.class@, class@)),
    {
        match find_named(&self.class, class) {
            Some(deps) => hint_of(deps),
            None => RestyleHint::empty(),
        }
    }

    /// The restyle hint for a change of the id.
    pub fn restyle_hint_for_id_change(&self, id: &String) -> (h: RestyleHint)
        ensures
            h@ == deps_hint(named_values(self.id@, id@)),
    {
        match find_named(&self.id, id) {
            Some(deps) => hint_of(deps),
            None => RestyleHint::empty(),
        }
    }

    /// Whether some selector tests a state that `state` shares.
    pub fn has_state_dependency(&self, state: ElementState) -> (r: bool)
        ensures
            r == exists|i: int|
                0 <= i < self.state@.len() && (#[trigger] self.state@[i]).0@ & state@ != 0,
    {
        let mut i: usize = 0;
        while i < self.state.len()
            invariant
                i <= self.state@.len(),
                forall|k: int| 0 <= k < i ==> (#[trigger] self.state@[k]).0@ & state@ == 0,
            decreases self.state@.len() - i,
        {
            if self.state[i].0.intersects(state) {
                return true;
            }
            i = i + 1;
        }
        false
    }

    /// Whether some selector tests the attribute.
    pub fn has_attribute_dependency(&self, attribute: &String) -> (r: bool)
        ensures
            r == has_name(self.attribute@, attribute@),
    {
        find_named(&self.attribute, attribute).is_some()
    }

    /// Whether some selector tests the class.
    pub fn has_class_dependency(&self, class: &String) -> (r: bool)
        ensures
            r == has_name(self.class@, class@),
    {
        find_named(&self.class, class).is_some()
    }

    /// Whether some selector tests the id.
    pub fn has_id_dependency(&self, id: &String) -> (r: bool)
        ensures
            r == has_name(self.id@, id@),
    {
        find_named(&self.id, id).is_some()
    }
}


/// The dependencies on the name `n`, of kind `kind`, that the selectors of
/// `es` record, in order.
pub open spec fn entries_name_deps<S, D>(
    es: Seq<SheetEntry<S, D>>,
    kind: NameKind,
    n: Seq<char>,
) -> Seq<Dependency>
    decreases es.len(),
{
    if es.len() == 0 {
        Seq::empty()
    } else {
        entries_name_deps(es.drop_last(), kind, n) + name_deps_in(
            es.last().parts,
            kind,
            n,
            es.last().parts.len() as int,
        )
    }
}

/// The dependencies under the states `s` that the selectors of `es`
/// record, in order.
pub open spec fn entries_state_deps<S, D>(es: Seq<SheetEntry<S, D>>, s: u8) -> Seq<Dependency>
    decreases es.len(),
{
    if es.len() == 0 {
        Seq::empty()
    } else {
        entries_state_deps(es.drop_last(), s) + state_deps_in(
            es.last().parts,
            s,
            es.last().parts.len() as int,
        )
    }
}

/// Whether `b` is `a` with the dependencies of the selectors of `es`
/// recorded after those it had.
pub open spec fn map_grown_by<S, D>(
    a: InvalidationMap,
    b: InvalidationMap,
    es: Seq<SheetEntry<S, D>>,
) -> bool {
    &&& forall|n: Seq<char>|
        #[trigger] named_values(b.class@, n) == named_values(a.class@, n) + entries_name_deps(
            es,
            NameKind::Class,
            n,
        )
    &&& forall|n: Seq<char>|
        #[trigger] named_values(b.id@, n) == named_values(a.id@, n) + entries_name_deps(
            es,
            NameKind::Id,
            n,
        )
    &&& forall|n: Seq<char>|
        #[trigger] named_values(b.attribute@, n) == named_values(a.attribute@, n)
            + entries_name_deps(es, NameKind::Attribute, n)
    &&& forall|s: u8|
        #[trigger] state_deps(b.state@, s) == state_deps(a.state@, s) + entries_state_deps(es, s)
}

proof fn lemma_entries_deps_add<S, D>(a: Seq<SheetEntry<S, D>>, b: Seq<SheetEntry<S, D>>)
    ensures
        forall|kind: NameKind, n: Seq<char>|
            #[trigger] entries_name_deps(a + b, kind, n) == entries_name_deps(a, kind, n)
                + entries_name_deps(b, kind, n),
        forall|s: u8|
            #[trigger] entries_state_deps(a + b, s) == entries_state_deps(a, s)
                + entries_state_deps(b, s),
    decreases b.len(),
{
    if b.len() == 0 {
        assert(a + b =~= a);
        assert forall|kind: NameKind, n: Seq<char>|
            #[trigger] entries_name_deps(a + b, kind, n) == entries_name_deps(a, kind, n)
                + entries_name_deps(b, kind, n) by {
            assert(entries_name_deps(a, kind, n) + entries_name_deps(b, kind, n)
                =~= entries_name_deps(a, kind, n));
        }
        assert forall|s: u8|
            #[trigger] entries_state_deps(a + b, s) == entries_state_deps(a, s)
                + entries_state_deps(b, s) by {
            assert(entries_state_deps(a, s) + entries_state_deps(b, s) =~= entries_state_deps(a, s));
        }
    } else {
        assert((a + b).drop_last() =~= a + b.drop_last());
        assert((a + b).last() == b.last());
        lemma_entries_deps_add(a, b.drop_last());
        assert forall|kind: NameKind, n: Seq<char>|
            #[trigger] entries_name_deps(a + b, kind, n) == entries_name_deps(a, kind, n)
                + entries_name_deps(b, kind, n) by {
            let x = entries_name_deps(a, kind, n);
            let y = entries_name_deps(b.drop_last(), kind, n);
            let z = name_deps_in(b.last().parts, kind, n, b.last().parts.len() as int);
            assert(entries_name_deps(a + b.drop_last(), kind, n) == x + y);
            assert((x + y) + z =~= x + (y + z));
        }
        assert forall|s: u8|
            #[trigger] entries_state_deps(a + b, s) == entries_state_deps(a, s)
                + entries_state_deps(b, s) by {
            let x = entries_state_deps(a, s);
            let y = entries_state_deps(b.drop_last(), s);
            let z = state_deps_in(b.last().parts, s, b.last().parts.len() as int);
            assert(entries_state_deps(a + b.drop_last(), s) == x + y);
            assert((x + y) + z =~= x + (y + z));
        }
    }
}

/// Recording no selector leaves a map as it was.
pub proof fn lemma_map_grown_by_refl<S, D>(a: InvalidationMap)
    ensures
        map_grown_by(a, a, Seq::<SheetEntry<S, D>>::empty()),
{
    assert forall|n: Seq<char>| #[trigger] named_values(a.class@, n) == named_values(a.class@, n)
        + entries_name_deps(Seq::<SheetEntry<S, D>>::empty(), NameKind::Class, n) by {
        assert(named_values(a.class@, n) + Seq::<Dependency>::empty() =~= named_values(a.class@, n));
    }
    assert forall|n: Seq<char>| #[trigger] named_values(a.id@, n) == named_values(a.id@, n)
        + entries_name_deps(Seq::<SheetEntry<S, D>>::empty(), NameKind::Id, n) by {
        assert(named_values(a.id@, n) + Seq::<Dependency>::empty() =~= named_values(a.id@, n));
    }
    assert forall|n: Seq<char>| #[trigger] named_values(a.attribute@, n) == named_values(
        a.attribute@,
        n,
    ) + entries_name_deps(Seq::<SheetEntry<S, D>>::empty(), NameKind::Attribute, n) by {
        assert(named_values(a.attribute@, n) + Seq::<Dependency>::empty() =~= named_values(
            a.attribute@,
            n,
        ));
    }
    assert forall|s: u8| #[trigger] state_deps(a.state@, s) == state_deps(a.state@, s)
        + entries_state_deps(Seq::<SheetEntry<S, D>>::empty(), s) by {
        assert(state_deps(a.state@, s) + Seq::<Dependency>::empty() =~= state_deps(a.state@, s));
    }
}

/// Recording the selectors of `e1`, then those of `e2`, records those of
/// both.
pub proof fn lemma_map_grown_by_trans<S, D>(
    a: InvalidationMap,
    b: InvalidationMap,
    c: InvalidationMap,
    e1: Seq<SheetEntry<S, D>>,
    e2: Seq<SheetEntry<S, D>>,
)
    requires
        map_grown_by(a, b, e1),
        map_grown_by(b, c, e2),
    ensures
        map_grown_by(a, c, e1 + e2),
{
    lemma_entries_deps_add(e1, e2);
    assert forall|n: Seq<char>| #[trigger] named_values(c.class@, n) == named_values(a.class@, n)
        + entries_name_deps(e1 + e2, NameKind::Class, n) by {
        assert(named_values(b.class@, n) == named_values(a.class@, n) + entries_name_deps(
            e1,
            NameKind::Class,
            n,
        ));
        assert(named_values(a.class@, n) + entries_name_deps(e1, NameKind::Class, n)
            + entries_name_deps(e2, NameKind::Class, n) =~= named_values(a.class@, n) + (
        entries_name_deps(e1, NameKind::Class, n) + entries_name_deps(e2, NameKind::Class, n)));
    }
    assert forall|n: Seq<char>| #[trigger] named_values(c.id@, n) == named_values(a.id@, n)
        + entries_name_deps(e1 + e2, NameKind::Id, n) by {
        assert(named_values(b.id@, n) == named_values(a.id@, n) + entries_name_deps(
            e1,
            NameKind::Id,
            n,
        ));
        assert(named_values(a.id@, n) + entries_name_deps(e1, NameKind::Id, n)
            + entries_name_deps(e2, NameKind::Id, n) =~= named_values(a.id@, n) + (
        entries_name_deps(e1, NameKind::Id, n) + entries_name_deps(e2, NameKind::Id, n)));
    }
    assert forall|n: Seq<char>| #[trigger] named_values(c.attribute@, n) == named_values(
        a.attribute@,
        n,
    ) + entries_name_deps(e1 + e2, NameKind::Attribute, n) by {
        assert(named_values(b.attribute@, n) == named_values(a.attribute@, n) + entries_name_deps(
            e1,
            NameKind::Attribute,
            n,
        ));
        assert(named_values(a.attribute@, n) + entries_name_deps(e1, NameKind::Attribute, n)
            + entries_name_deps(e2, NameKind::Attribute, n) =~= named_values(a.attribute@, n) + (
        entries_name_deps(e1, NameKind::Attribute, n) + entries_name_deps(
            e2,
            NameKind::Attribute,
            n,
        )));
    }
    assert forall|s: u8| #[trigger] state_deps(c.state@, s) == state_deps(a.state@, s)
        + entries_state_deps(e1 + e2, s) by {
        assert(state_deps(b.state@, s) == state_deps(a.state@, s) + entries_state_deps(e1, s));
        assert(state_deps(a.state@, s) + entries_state_deps(e1, s) + entries_state_deps(e2, s)
            =~= state_deps(a.state@, s) + (entries_state_deps(e1, s) + entries_state_deps(e2, s)));
    }
}

/// Registering the selector of one entry records its dependencies.
pub proof fn lemma_map_grown_by_one<S, D>(a: InvalidationMap, b: InvalidationMap, e: SheetEntry<S, D>)
    requires
        forall|n: Seq<char>|
            #[trigger] named_values(b.class@, n) == named_values(a.class@, n) + name_deps_in(
                e.parts,
                NameKind::Class,
                n,
                e.parts.len() as int,
            ),
        forall|n: Seq<char>|
            #[trigger] named_values(b.id@, n) == named_values(a.id@, n) + name_deps_in(
                e.parts,
                NameKind::Id,
                n,
                e.parts.len() as int,
            ),
        forall|n: Seq<char>|
            #[trigger] named_values(b.attribute@, n) == named_values(a.attribute@, n)
                + name_deps_in(e.parts, NameKind::Attribute, n, e.parts.len() as int),
        forall|s: u8|
            #[trigger] state_deps(b.state@, s) == state_deps(a.state@, s) + state_deps_in(
                e.parts,
                s,
                e.parts.len() as int,
            ),
    ensures
        map_grown_by(a, b, seq![e]),
{
    let one = seq![e];
    assert(one.drop_last() =~= Seq::<SheetEntry<S, D>>::empty());
    assert(one.last() == e);
    assert forall|kind: NameKind, n: Seq<char>| #[trigger] entries_name_deps(one, kind, n)
        == name_deps_in(e.parts, kind, n, e.parts.len() as int) by {
        assert(entries_name_deps(one.drop_last(), kind, n) == Seq::<Dependency>::empty());
        assert(Seq::<Dependency>::empty() + name_deps_in(e.parts, kind, n, e.parts.len() as int)
            =~= name_deps_in(e.parts, kind, n, e.parts.len() as int));
    }
    assert forall|s: u8| #[trigger] entries_state_deps(one, s) == state_deps_in(
        e.parts,
        s,
        e.parts.len() as int,
    ) by {
        assert(entries_state_deps(one.drop_last(), s) == Seq::<Dependency>::empty());
        assert(Seq::<Dependency>::empty() + state_deps_in(e.parts, s, e.parts.len() as int)
            =~= state_deps_in(e.parts, s, e.parts.len() as int));
    }
    assert forall|n: Seq<char>| #[trigger] named_values(b.class@, n) == named_values(a.class@, n)
        + entries_name_deps(one, NameKind::Class, n) by {
        assert(entries_name_deps(one, NameKind::Class, n) == name_deps_in(
            e.parts,
            NameKind::Class,
            n,
            e.parts.len() as int,
        ));
    }
    assert forall|n: Seq<char>| #[trigger] named_values(b.id@, n) == named_values(a.id@, n)
        + entries_name_deps(one, NameKind::Id, n) by {
        assert(entries_name_deps(one, NameKind::Id, n) == name_deps_in(
            e.parts,
            NameKind::Id,
            n,
            e.parts.len() as int,
        ));
    }
    assert forall|n: Seq<char>| #[trigger] named_values(b.attribute@, n) == named_values(
        a.attribute@,
        n,
    ) + entries_name_deps(one, NameKind::Attribute, n) by {
        assert(entries_name_deps(one, NameKind::Attribute, n) == name_deps_in(
            e.parts,
            NameKind::Attribute,
            n,
            e.parts.len() as int,
        ));
    }
    assert forall|s: u8| #[trigger] state_deps(b.state@, s) == state_deps(a.state@, s)
        + entries_state_deps(one, s) by {
        assert(entries_state_deps(one, s) == state_deps_in(e.parts, s, e.parts.len() as int));
    }
}


proof fn lemma_entries_name_deps_has<S, D>(
    es: Seq<SheetEntry<S, D>>,
    kind: NameKind,
    n: Seq<char>,
    k: int,
    d: Dependency,
)
    requires
        0 <= k < es.len(),
        name_deps_in(es[k].parts, kind, n, es[k].parts.len() as int).contains(d),
    ensures
        entries_name_deps(es, kind, n).contains(d),
    decreases es.len(),
{
    let before = entries_name_deps(es.drop_last(), kind, n);
    let last = name_deps_in(es.last().parts, kind, n, es.last().parts.len() as int);
    if k == es.len() - 1 {
        let j = choose|j: int| 0 <= j < last.len() && last[j] == d;
        assert((before + last)[before.len() + j] == d);
    } else {
        assert(es.drop_last()[k] == es[k]);
        lemma_entries_name_deps_has(es.drop_last(), kind, n, k, d);
        let j = choose|j: int| 0 <= j < before.len() && before[j] == d;
        assert((before + last)[j] == d);
    }
}

proof fn lemma_entries_state_deps_has<S, D>(es: Seq<SheetEntry<S, D>>, s: u8, k: int, d: Dependency)
    requires
        0 <= k < es.len(),
        state_deps_in(es[k].parts, s, es[k].parts.len() as int).contains(d),
    ensures
        entries_state_deps(es, s).contains(d),
    decreases es.len(),
{
    let before = entries_state_deps(es.drop_last(), s);
    let last = state_deps_in(es.last().parts, s, es.last().parts.len() as int);
    if k == es.len() - 1 {
        let j = choose|j: int| 0 <= j < last.len() && last[j] == d;
        assert((before + last)[before.len() + j] == d);
    } else {
        assert(es.drop_last()[k] == es[k]);
        lemma_entries_state_deps_has(es.drop_last(), s, k, d);
        let j = choose|j: int| 0 <= j < before.len() && before[j] == d;
        assert((before + last)[j] == d);
    }
}

proof fn lemma_names_recorded<S, D>(
    t: Seq<(String, Vec<Dependency>)>,
    u: Seq<(String, Vec<Dependency>)>,
    es: Seq<SheetEntry<S, D>>,
    kind: NameKind,
    k: int,
)
    requires
        0 <= k < es.len(),
        forall|n: Seq<char>|
            #[trigger] named_values(u, n) == named_values(t, n) + entries_name_deps(es, kind, n),
    ensures
        names_registered(u, es[k].parts, kind),
{
    let parts = es[k].parts;
    assert forall|i: int|
        0 <= i < parts.len() && (#[trigger] part_name(parts[i], kind)) is Some implies {
            let n = part_name(parts[i], kind)->0;
            &&& has_name(u, n)
            &&& bits_include(
                deps_hint(named_values(u, n)),
                location_at(parts, i).spec_restyle_bits(),
            )
        } by {
        let n = part_name(parts[i], kind)->0;
        let d = Dependency { location: location_at(parts, i) };
        lemma_name_deps_in_has(parts, kind, n, parts.len() as int, i);
        lemma_entries_name_deps_has(es, kind, n, k, d);
        let added = entries_name_deps(es, kind, n);
        let j = choose|j: int| 0 <= j < added.len() && added[j] == d;
        let all = named_values(u, n);
        assert(all[named_values(t, n).len() + j] == d);
        lemma_deps_hint_has(all, named_values(t, n).len() + j);
        lemma_named_values_has_name(u, n);
    }
}

proof fn lemma_states_recorded<S, D>(
    t: Seq<(ElementState, Vec<Dependency>)>,
    u: Seq<(ElementState, Vec<Dependency>)>,
    es: Seq<SheetEntry<S, D>>,
    k: int,
)
    requires
        0 <= k < es.len(),
        forall|s: u8| #[trigger] state_deps(u, s) == state_deps(t, s) + entries_state_deps(es, s),
    ensures
        states_registered(u, es[k].parts),
{
    let parts = es[k].parts;
    assert forall|i: int, changed: u8|
        0 <= i < parts.len() && #[trigger] part_state(parts[i]) != 0 && changed & part_state(
            parts[i],
        ) != 0 implies bits_include(
        #[trigger] state_hint(u, changed),
        location_at(parts, i).spec_restyle_bits(),
    ) && exists|x: int| 0 <= x < u.len() && (#[trigger] u[x]).0@ == part_state(parts[i]) by {
        lemma_state_recorded_at(t, u, es, k, i, changed);
    }
    assert forall|i: int| 0 <= i < parts.len() && #[trigger] part_state(parts[i]) != 0 implies exists|x: int|
        0 <= x < u.len() && (#[trigger] u[x]).0@ == part_state(parts[i]) by {
        let s = part_state(parts[i]);
        assert(s & s != 0) by (bit_vector)
            requires
                s != 0,
        ;
        lemma_state_recorded_at(t, u, es, k, i, s);
    }
}

proof fn lemma_state_recorded_at<S, D>(
    t: Seq<(ElementState, Vec<Dependency>)>,
    u: Seq<(ElementState, Vec<Dependency>)>,
    es: Seq<SheetEntry<S, D>>,
    k: int,
    i: int,
    changed: u8,
)
    requires
        0 <= k < es.len(),
        forall|s: u8| #[trigger] state_deps(u, s) == state_deps(t, s) + entries_state_deps(es, s),
        0 <= i < es[k].parts.len(),
        part_state(es[k].parts[i]) != 0,
        changed & part_state(es[k].parts[i]) != 0,
    ensures
        bits_include(state_hint(u, changed), location_at(es[k].parts, i).spec_restyle_bits()),
        exists|x: int| 0 <= x < u.len() && (#[trigger] u[x]).0@ == part_state(es[k].parts[i]),
{
    let parts = es[k].parts;
    let s = part_state(parts[i]);
    let d = Dependency { location: location_at(parts, i) };
    lemma_state_deps_in_has(parts, s, parts.len() as int, i);
    lemma_entries_state_deps_has(es, s, k, d);
    let added = entries_state_deps(es, s);
    let j = choose|j: int| 0 <= j < added.len() && added[j] == d;
    let all = state_deps(u, s);
    assert(all[state_deps(t, s).len() + j] == d);
    lemma_state_deps_hint_has(u, s, changed, d);
}

/// Once the selectors of `es` are recorded, every class, id and attribute
/// that one of them tests is a dependency whose change restyles at least
/// where it stands in the selector; and so is every state that one of its
/// pseudo-classes tests.
pub proof fn lemma_recorded_selectors_invalidate<S, D>(
    a: InvalidationMap,
    b: InvalidationMap,
    es: Seq<SheetEntry<S, D>>,
    k: int,
)
    requires
        map_grown_by(a, b, es),
        0 <= k < es.len(),
    ensures
        names_registered(b.class@, es[k].parts, NameKind::Class),
        names_registered(b.id@, es[k].parts, NameKind::Id),
        names_registered(b.attribute@, es[k].parts, NameKind::Attribute),
        states_registered(b.state@, es[k].parts),
{
    lemma_names_recorded(a.class@, b.class@, es, NameKind::Class, k);
    lemma_names_recorded(a.id@, b.id@, es, NameKind::Id, k);
    lemma_names_recorded(a.attribute@, b.attribute@, es, NameKind::Attribute, k);
    lemma_states_recorded(a.state@, b.state@, es, k);
}

proof fn lemma_deps_hint_bits(deps: Seq<Dependency>)
    ensures
        deps_hint(deps) & 0xfff8u16 == 0,
        deps.len() > 0 ==> deps_hint(deps) != 0,
    decreases deps.len(),
{
    if deps.len() > 0 {
        lemma_deps_hint_bits(deps.drop_last());
        let a = deps_hint(deps.drop_last());
        let b = deps.last().location.spec_restyle_bits();
        assert(b == 1 || b == 2 || b == 4);
        assert(a & 0xfff8u16 == 0 && (b == 1 || b == 2 || b == 4) ==> (a | b) & 0xfff8u16 == 0
            && (a | b) != 0) by (bit_vector);
    } else {
        assert(0u16 & 0xfff8u16 == 0) by (bit_vector);
    }
}

proof fn lemma_state_hint_facts(table: Seq<(ElementState, Vec<Dependency>)>, changed: u8)
    ensures
        state_hint(table, changed) & 0xfff8u16 == 0,
        changed == 0 ==> state_hint(table, changed) == 0,
        (forall|i: int| 0 <= i < table.len() ==> (#[trigger] table[i]).1@.len() > 0) ==> (
        state_hint(table, changed) == 0 <==> !exists|i: int|
            0 <= i < table.len() && (#[trigger] table[i]).0@ & changed != 0),
    decreases table.len(),
{
    if table.len() > 0 {
        let t = table.drop_last();
        lemma_state_hint_facts(t, changed);
        lemma_deps_hint_bits(table.last().1@);
        let a = state_hint(t, changed);
        let b = deps_hint(table.last().1@);
        let s = table.last().0@;
        assert(a & 0xfff8u16 == 0 && b & 0xfff8u16 == 0 ==> (a | b) & 0xfff8u16 == 0) by (bit_vector);
        assert((a | b) == 0 <==> a == 0 && b == 0) by (bit_vector);
        assert(changed & s == s & changed) by (bit_vector);
        assert(changed == 0 ==> changed & s == 0) by (bit_vector);
        if forall|i: int| 0 <= i < table.len() ==> (#[trigger] table[i]).1@.len() > 0 {
            assert forall|i: int| 0 <= i < t.len() implies (#[trigger] t[i]).1@.len() > 0 by {
                assert(t[i] == table[i]);
            }
            assert(table.last() == table[table.len() - 1]);
            if exists|i: int| 0 <= i < table.len() && (#[trigger] table[i]).0@ & changed != 0 {
                let i = choose|i: int| 0 <= i < table.len() && (#[trigger] table[i]).0@ & changed != 0;
                if i < t.len() {
                    assert(t[i] == table[i]);
                }
            }
            if exists|i: int| 0 <= i < t.len() && (#[trigger] t[i]).0@ & changed != 0 {
                let i = choose|i: int| 0 <= i < t.len() && (#[trigger] t[i]).0@ & changed != 0;
                assert(t[i] == table[i]);
            }
        }
    } else {
        assert(0u16 & 0xfff8u16 == 0) by (bit_vector);
    }
}

/// The restyle hint of a change of states: it does not depend on which of
/// the two states is the old one; no change gives no hint; it only ever
/// asks to restyle the element, its descendants or its later siblings; and,
/// for a map that `wf` holds of (every recorded state has some
/// dependency, as `new`, `clear` and `register_selector` keep), it is empty
/// exactly when no recorded state is among those that changed, that is
/// when `has_state_dependency` of the change is false.
pub proof fn lemma_state_change_hint(m: InvalidationMap, old: ElementState, new: ElementState)
    ensures
        state_hint(m.state@, old@ ^ new@) == state_hint(m.state@, new@ ^ old@),
        state_hint(m.state@, old@ ^ old@) == 0,
        state_hint(m.state@, old@ ^ new@) & !(RESTYLE_SELF | RESTYLE_DESCENDANTS
            | RESTYLE_LATER_SIBLINGS) == 0,
        m.wf() ==> (state_hint(m.state@, old@ ^ new@) == 0 <==> !exists|i: int|
            0 <= i < m.state@.len() && (#[trigger] m.state@[i]).0@ & (old@ ^ new@) != 0),
{
    let a = old@;
    let b = new@;
    assert(a ^ b == b ^ a) by (bit_vector);
    assert(a ^ a == 0) by (bit_vector);
    assert(!(1u16 | 2u16 | 4u16) == 0xfff8u16) by (bit_vector);
    lemma_state_hint_facts(m.state@, a ^ b);
    lemma_state_hint_facts(m.state@, a ^ a);
}

} // verus!
