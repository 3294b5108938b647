use vstd::prelude::*;

use crate::custom::{agrees_at, declared_value, lemma_declared_found, pending_names, CustomValue};
use crate::unresolved::{
    agree_on_references, lemma_substitute_same_vars, UnresolvedValue, VarReference,
};
use vstd::utf8::encode_utf8;

verus! {

/// What `m` holds at `n`, if anything.
pub open spec fn map_get(m: Map<Seq<char>, Seq<char>>, n: Seq<char>) -> Option<Seq<char>> {
    if m.contains_key(n) {
        Some(m[n])
    } else {
        None
    }
}

/// Whether the property `a` uses the property `b`: the value declared last
/// for `a` is one to substitute, with a `var()` that names `b`.
pub open spec fn refers(p: Seq<(String, CustomValue)>, a: Seq<char>, b: Seq<char>) -> bool {
    match declared_value(p, a) {
        Some(CustomValue::Unresolved(u)) => exists|k: int|
            0 <= k < u.references@.len() && (#[trigger] u.references@[k]).name@ == b,
        _ => false,
    }
}

/// Whether each property in `c` uses the one after it.
pub open spec fn chain(p: Seq<(String, CustomValue)>, c: Seq<Seq<char>>) -> bool {
    forall|i: int, j: int| 0 <= i && j == i + 1 && j < c.len() ==> #[trigger] refers(p, c[i], c[j])
}

/// What resolving the custom property `n` gives, while the properties in
/// `s` are being resolved further up (each of them uses the next, the last
/// one uses `n`): `None` where it fails, else the value that it leaves, if
/// any.
///
/// A property without a declared value keeps what `base` has; `initial`
/// leaves nothing; `inherit` keeps what `base` has; a value given outright
/// is taken. A value with `var()`s fails where its property is already
/// being resolved (a cycle), where a property that it uses fails, or where
/// its substitution fails; else it is its text with the values of the
/// properties that it uses substituted.
pub open spec fn outcome(
    p: Seq<(String, CustomValue)>,
    base: Map<Seq<char>, Seq<char>>,
    n: Seq<char>,
    s: Seq<Seq<char>>,
) -> Option<Option<Seq<char>>>
    decreases p.len() - s.len(), 1int, 0int,
{
    match declared_value(p, n) {
        None => Some(map_get(base, n)),
        Some(CustomValue::Initial) => Some(None),
        Some(CustomValue::Inherit) => Some(map_get(base, n)),
        Some(CustomValue::Resolved(t)) => if s.contains(n) {
            None
        } else {
            Some(Some(t@))
        },
        Some(CustomValue::Unresolved(u)) => if s.contains(n) || s.len() >= p.len() {
            None
        } else {
            match uses_map(p, base, u.references@, u.references@.len() as int, s.push(n)) {
                None => None,
                Some(m) => match u.spec_substitute_range(m, 0, encode_utf8(u.css@).len() as int) {
                    Ok(t) => Some(Some(t)),
                    Err(_) => None,
                },
            }
        },
    }
}

/// `base` with the properties named by `refs[..k]` set to what resolving
/// them gives while the properties in `s` are being resolved; `None` where
/// one of them fails.
pub open spec fn uses_map(
    p: Seq<(String, CustomValue)>,
    base: Map<Seq<char>, Seq<char>>,
    refs: Seq<VarReference>,
    k: int,
    s: Seq<Seq<char>>,
) -> Option<Map<Seq<char>, Seq<char>>>
    decreases p.len() - s.len() + 1, 0int, k,
{
    if s.len() > p.len() {
        None
    } else if k <= 0 {
        Some(base)
    } else {
        match uses_map(p, base, refs, k - 1, s) {
            None => None,
            Some(m) => match outcome(p, base, refs[k - 1].name@, s) {
                None => None,
                Some(None) => Some(m.remove(refs[k - 1].name@)),
                Some(Some(v)) => Some(m.insert(refs[k - 1].name@, v)),
            },
        }
    }
}

/// Whether `m` holds at `n` what the outcome `o` leaves: its value, or
/// nothing where it leaves none or fails.
pub open spec fn holds_outcome(
    m: Map<Seq<char>, Seq<char>>,
    n: Seq<char>,
    o: Option<Option<Seq<char>>>,
) -> bool {
    match o {
        Some(Some(v)) => m.contains_key(n) && m[n] == v,
        _ => !m.contains_key(n),
    }
}

/// Whether, where the value declared last for `n` is one to substitute and
/// `m` holds a value at `n`, that value is the declared text with the
/// `var()`s replaced by what `m` itself holds.
pub open spec fn substitutes_to_itself(
    p: Seq<(String, CustomValue)>,
    m: Map<Seq<char>, Seq<char>>,
    n: Seq<char>,
) -> bool {
    match declared_value(p, n) {
        Some(CustomValue::Unresolved(u)) => m.contains_key(n) ==> u.spec_substitute_range(
            m,
            0,
            encode_utf8(u.css@).len() as int,
        ) == Ok::<Seq<char>, Seq<char>>(m[n]),
        _ => true,
    }
}

/// Whether the declared value of `n` is one to substitute whose properties
/// all resolve but whose substitution fails, while `base` has a value for
/// `n`: a resolution then leaves that value.
pub open spec fn keeps_inherited(
    p: Seq<(String, CustomValue)>,
    base: Map<Seq<char>, Seq<char>>,
    n: Seq<char>,
) -> bool {
    &&& base.contains_key(n)
    &&& declared_value(p, n) matches Some(CustomValue::Unresolved(u))
    &&& uses_map(p, base, u.references@, u.references@.len() as int, Seq::empty().push(n)) matches Some(m)
    &&& u.spec_substitute_range(m, 0, encode_utf8(u.css@).len() as int) is Err
}

/// Whether `m` holds at `n` what a resolution leaves there: what the
/// outcome of resolving `n` alone leaves, except that a property that
/// `keeps_inherited` keeps what `base` has.
pub open spec fn holds_final(
    p: Seq<(String, CustomValue)>,
    base: Map<Seq<char>, Seq<char>>,
    m: Map<Seq<char>, Seq<char>>,
    n: Seq<char>,
) -> bool {
    if keeps_inherited(p, base, n) {
        agrees_at(m, base, n)
    } else {
        holds_outcome(m, n, outcome(p, base, n, Seq::empty()))
    }
}

/// The values that `uses_map` sets: it is `Some` exactly where none of the
/// properties fails, and then holds what each of them gives.
pub proof fn lemma_uses_map(
    p: Seq<(String, CustomValue)>,
    base: Map<Seq<char>, Seq<char>>,
    refs: Seq<VarReference>,
    k: int,
    s: Seq<Seq<char>>,
)
    requires
        s.len() <= p.len(),
        0 <= k <= refs.len(),
    ensures
        uses_map(p, base, refs, k, s) is Some <==> forall|j: int|
            0 <= j < k ==> outcome(p, base, (#[trigger] refs[j]).name@, s) is Some,
        uses_map(p, base, refs, k, s) matches Some(m) ==> forall|j: int|
            0 <= j < k ==> holds_outcome(
                m,
                (#[trigger] refs[j]).name@,
                outcome(p, base, refs[j].name@, s),
            ),
    decreases k,
{
    if k > 0 {
        lemma_uses_map(p, base, refs, k - 1, s);
        let n = refs[k - 1].name@;
        if uses_map(p, base, refs, k, s) is Some {
            let m = uses_map(p, base, refs, k, s)->0;
            assert forall|j: int| 0 <= j < k implies holds_outcome(
                m,
                (#[trigger] refs[j]).name@,
                outcome(p, base, refs[j].name@, s),
            ) by {
                if j < k - 1 {
                    assert(outcome(p, base, refs[j].name@, s) is Some);
                }
            }
        } else {
            if uses_map(p, base, refs, k - 1, s) is Some {
                assert(outcome(p, base, refs[k - 1].name@, s) is None);
            } else {
                let j = choose|j: int|
                    0 <= j < k - 1 && !(outcome(p, base, (#[trigger] refs[j]).name@, s) is Some);
                assert(0 <= j < k && !(outcome(p, base, refs[j].name@, s) is Some));
            }
        }
    }
}

/// `uses_map` depends only on what the properties that it sets give.
pub proof fn lemma_uses_map_same(
    p: Seq<(String, CustomValue)>,
    base: Map<Seq<char>, Seq<char>>,
    refs: Seq<VarReference>,
    k: int,
    s1: Seq<Seq<char>>,
    s2: Seq<Seq<char>>,
)
    requires
        s1.len() <= p.len(),
        s2.len() <= p.len(),
        0 <= k <= refs.len(),
        forall|j: int|
            0 <= j < k ==> outcome(p, base, (#[trigger] refs[j]).name@, s1) == outcome(
                p,
                base,
                refs[j].name@,
                s2,
            ),
    ensures
        uses_map(p, base, refs, k, s1) == uses_map(p, base, refs, k, s2),
    decreases k,
{
    if k > 0 {
        lemma_uses_map_same(p, base, refs, k - 1, s1, s2);
        assert(outcome(p, base, refs[k - 1].name@, s1) == outcome(p, base, refs[k - 1].name@, s2));
    }
}

/// Resolving a property while fewer properties are being resolved further
/// up gives the same, where it succeeds with more.
pub proof fn lemma_outcome_fewer(
    p: Seq<(String, CustomValue)>,
    base: Map<Seq<char>, Seq<char>>,
    d: Seq<char>,
    v: Seq<Seq<char>>,
    w: Seq<Seq<char>>,
)
    requires
        forall|x: Seq<char>| v.contains(x) ==> w.contains(x),
        v.len() <= w.len(),
    ensures
        outcome(p, base, d, w) is Some ==> outcome(p, base, d, v) == outcome(p, base, d, w),
    decreases p.len() - w.len(),
{
    if outcome(p, base, d, w) is Some {
        match declared_value(p, d) {
            Some(CustomValue::Unresolved(u)) => {
                let refs = u.references@;
                let k = refs.len() as int;
                let v2 = v.push(d);
                let w2 = w.push(d);
                assert(!w.contains(d));
                assert(!v.contains(d));
                lemma_uses_map(p, base, refs, k, w2);
                assert forall|j: int| 0 <= j < k implies outcome(
                    p,
                    base,
                    (#[trigger] refs[j]).name@,
                    v2,
                ) == outcome(p, base, refs[j].name@, w2) by {
                    assert forall|x: Seq<char>| v2.contains(x) implies w2.contains(x) by {
                        if x != d {
                            let i = choose|i: int| 0 <= i < v2.len() && v2[i] == x;
                            assert(v.contains(x));
                            let i2 = choose|i2: int| 0 <= i2 < w.len() && w[i2] == x;
                            assert(w2[i2] == x);
                        } else {
                            assert(w2[w.len() as int] == d);
                        }
                    }
                    lemma_outcome_fewer(p, base, refs[j].name@, v2, w2);
                }
                lemma_uses_map_same(p, base, refs, k, v2, w2);
            },
            Some(CustomValue::Resolved(t)) => {
                if v.contains(d) {
                    let i = choose|i: int| 0 <= i < v.len() && v[i] == d;
                    assert(w.contains(d));
                }
            },
            _ => {},
        }
    }
}

/// A property that uses, through a chain, a property that is being
/// resolved further up fails.
pub proof fn lemma_chain_to_visited_fails(
    p: Seq<(String, CustomValue)>,
    base: Map<Seq<char>, Seq<char>>,
    c: Seq<Seq<char>>,
    v: Seq<Seq<char>>,
)
    requires
        c.len() >= 1,
        chain(p, c),
        v.contains(c.last()),
        declared_value(p, c.last()) matches Some(CustomValue::Unresolved(_)),
    ensures
        outcome(p, base, c[0], v) is None,
    decreases c.len(),
{
    if c.len() > 1 {
        assert(refers(p, c[0], c[1]));
        let u = declared_value(p, c[0])->0->Unresolved_0;
        if !v.contains(c[0]) && v.len() < p.len() {
            let refs = u.references@;
            let k0 = choose|k: int| 0 <= k < refs.len() && (#[trigger] refs[k]).name@ == c[1];
            let rest = c.drop_first();
            assert forall|i: int, j: int| 0 <= i && j == i + 1 && j < rest.len() implies #[trigger] refers(
                p,
                rest[i],
                rest[j],
            ) by {
                assert(refers(p, c[i + 1], c[j + 1]));
            }
            let v2 = v.push(c[0]);
            assert(v2.contains(rest.last())) by {
                let i = choose|i: int| 0 <= i < v.len() && v[i] == c.last();
                assert(v2[i] == c.last());
            }
            lemma_chain_to_visited_fails(p, base, rest, v2);
            lemma_uses_map(p, base, refs, refs.len() as int, v2);
            assert(outcome(p, base, refs[k0].name@, v2) is None);
        }
    }
}

/// A property on a cycle of properties that use one another fails,
/// whatever is being resolved further up.
pub proof fn lemma_cycle_fails(
    p: Seq<(String, CustomValue)>,
    base: Map<Seq<char>, Seq<char>>,
    c: Seq<Seq<char>>,
    s: Seq<Seq<char>>,
)
    requires
        c.len() >= 2,
        chain(p, c),
        c[0] == c.last(),
    ensures
        outcome(p, base, c[0], s) is None,
{
    assert(refers(p, c[0], c[1]));
    let u = declared_value(p, c[0])->0->Unresolved_0;
    if !s.contains(c[0]) && s.len() < p.len() {
        let refs = u.references@;
        let k0 = choose|k: int| 0 <= k < refs.len() && (#[trigger] refs[k]).name@ == c[1];
        let rest = c.drop_first();
        assert forall|i: int, j: int| 0 <= i && j == i + 1 && j < rest.len() implies #[trigger] refers(
            p,
            rest[i],
            rest[j],
        ) by {
            assert(refers(p, c[i + 1], c[j + 1]));
        }
        let s2 = s.push(c[0]);
        assert(s2[s.len() as int] == c[0]);
        assert(rest.last() == c[0]);
        lemma_chain_to_visited_fails(p, base, rest, s2);
        lemma_uses_map(p, base, refs, refs.len() as int, s2);
        assert(outcome(p, base, refs[k0].name@, s2) is None);
    }
}

/// A list of distinct declared names that misses one declared name is
/// shorter than the list of declarations.
pub proof fn lemma_fewer_than_declarations(
    p: Seq<(String, CustomValue)>,
    r: Seq<Seq<char>>,
    x: Seq<char>,
)
    requires
        r.no_duplicates(),
        forall|i: int| 0 <= i < r.len() ==> declared_value(p, #[trigger] r[i]) is Some,
        declared_value(p, x) is Some,
        !r.contains(x),
    ensures
        r.len() < p.len(),
{
    let k = pending_names(p);
    r.unique_seq_to_set();
    k.lemma_cardinality_of_set();
    lemma_declared_found(p, x);
    let ks = k.to_set().remove(x);
    assert(r.to_set().subset_of(ks)) by {
        assert forall|y: Seq<char>| r.to_set().contains(y) implies ks.contains(y) by {
            let i = choose|i: int| 0 <= i < r.len() && r[i] == y;
            lemma_declared_found(p, r[i]);
        }
    }
    vstd::set_lib::lemma_len_subset(r.to_set(), ks);
}

/// Where resolving a property fails while a chain of properties that use
/// one another down to it is being resolved, it fails alone too: it is on
/// a cycle, or what makes it fail does not depend on the chain.
pub proof fn lemma_fails_alone(
    p: Seq<(String, CustomValue)>,
    base: Map<Seq<char>, Seq<char>>,
    d: Seq<char>,
    s: Seq<Seq<char>>,
)
    requires
        chain(p, s.push(d)),
        s.no_duplicates(),
        declared_value(p, d) is Some,
    ensures
        outcome(p, base, d, s) is None ==> outcome(p, base, d, Seq::empty()) is None,
    decreases p.len() - s.len(),
{
    let sd = s.push(d);
    assert forall|i: int| 0 <= i < s.len() implies declared_value(p, #[trigger] s[i]) is Some by {
        assert(sd[i] == s[i]);
        assert(refers(p, sd[i], sd[i + 1]));
    }
    if outcome(p, base, d, s) is None {
        if s.contains(d) {
            let i = choose|i: int| 0 <= i < s.len() && s[i] == d;
            let c = sd.subrange(i, sd.len() as int);
            assert(c[0] == d);
            assert(c.last() == d);
            assert forall|a: int, b: int| 0 <= a && b == a + 1 && b < c.len() implies #[trigger] refers(p, c[a], c[b]) by {
                assert(c[a] == sd[i + a]);
                assert(c[b] == sd[i + b]);
                assert(refers(p, sd[i + a], sd[i + b]));
            }
            lemma_cycle_fails(p, base, c, Seq::empty());
        } else {
            lemma_fewer_than_declarations(p, s, d);
            match declared_value(p, d) {
                Some(CustomValue::Unresolved(u)) => {
                    let refs = u.references@;
                    let k = refs.len() as int;
                    let one = Seq::<Seq<char>>::empty().push(d);
                    assert(!Seq::<Seq<char>>::empty().contains(d));
                    assert(sd.no_duplicates());
                    lemma_uses_map(p, base, refs, k, sd);
                    lemma_uses_map(p, base, refs, k, one);
                    assert(sd[s.len() as int] == d);
                    assert forall|x: Seq<char>| one.contains(x) implies sd.contains(x) by {
                        assert(one[0] == d);
                    }
                    if uses_map(p, base, refs, k, sd) is None {
                        let j = choose|j: int|
                            0 <= j < k && !(outcome(p, base, (#[trigger] refs[j]).name@, sd) is Some);
                        let y = refs[j].name@;
                        assert(declared_value(p, y) is Some);
                        assert(refers(p, d, y));
                        let sdy = sd.push(y);
                        assert forall|a: int, b: int| 0 <= a && b == a + 1 && b < sdy.len() implies #[trigger] refers(
                            p,
                            sdy[a],
                            sdy[b],
                        ) by {
                            if b < sd.len() {
                                assert(sdy[a] == sd[a] && sdy[b] == sd[b]);
                                assert(refers(p, sd[a], sd[b]));
                            } else {
                                assert(sdy[a] == d && sdy[b] == y);
                            }
                        }
                        lemma_fails_alone(p, base, y, sd);
                        lemma_outcome_fewer(p, base, y, Seq::empty(), one);
                        assert(outcome(p, base, refs[j].name@, one) is None);
                    } else {
                        assert forall|j: int| 0 <= j < k implies outcome(
                            p,
                            base,
                            (#[trigger] refs[j]).name@,
                            one,
                        ) == outcome(p, base, refs[j].name@, sd) by {
                            lemma_outcome_fewer(p, base, refs[j].name@, one, sd);
                        }
                        lemma_uses_map_same(p, base, refs, k, one, sd);
                    }
                },
                Some(CustomValue::Resolved(t)) => {},
                _ => {},
            }
        }
    }
}

/// A property that resolves to a value holds its text with the `var()`s
/// replaced by what any map that holds every property's outcome has.
pub proof fn lemma_resolved_value_substitutes(
    p: Seq<(String, CustomValue)>,
    base: Map<Seq<char>, Seq<char>>,
    m: Map<Seq<char>, Seq<char>>,
    n: Seq<char>,
    u: UnresolvedValue,
)
    requires
        u.wf(),
        declared_value(p, n) == Some(CustomValue::Unresolved(u)),
        forall|x: Seq<char>| #[trigger] holds_final(p, base, m, x),
        outcome(p, base, n, Seq::empty()) is Some,
    ensures
        m.contains_key(n),
        u.spec_substitute_range(m, 0, encode_utf8(u.css@).len() as int) == Ok::<
            Seq<char>,
            Seq<char>,
        >(m[n]),
{
    let refs = u.references@;
    let k = refs.len() as int;
    let one = Seq::<Seq<char>>::empty().push(n);
    assert(!Seq::<Seq<char>>::empty().contains(n));
    assert(holds_final(p, base, m, n));
    lemma_uses_map(p, base, refs, k, one);
    let mm = uses_map(p, base, refs, k, one)->0;
    assert forall|j: int| 0 <= j < k implies {
        let y = (#[trigger] refs[j]).name@;
        &&& m.contains_key(y) == mm.contains_key(y)
        &&& m.contains_key(y) ==> m[y] == mm[y]
    } by {
        let y = refs[j].name@;
        lemma_outcome_fewer(p, base, y, Seq::empty(), one);
        assert(holds_final(p, base, m, y));
        if keeps_inherited(p, base, y) {
            assert(outcome(p, base, y, Seq::empty()) is None);
        }
        assert(holds_outcome(m, y, outcome(p, base, y, Seq::empty())));
        assert(holds_outcome(mm, y, outcome(p, base, y, one)));
    }
    assert(agree_on_references(u, m, mm));
    lemma_substitute_same_vars(u, m, mm, 0, encode_utf8(u.css@).len() as int, 0, Seq::empty());
}

/// A chain grows by a property that its last one uses.
pub proof fn lemma_chain_push(p: Seq<(String, CustomValue)>, c: Seq<Seq<char>>, x: Seq<char>)
    requires
        chain(p, c),
        c.len() >= 1,
        refers(p, c.last(), x),
    ensures
        chain(p, c.push(x)),
{
    let cx = c.push(x);
    assert forall|a: int, b: int| 0 <= a && b == a + 1 && b < cx.len() implies #[trigger] refers(
        p,
        cx[a],
        cx[b],
    ) by {
        if b < c.len() {
            assert(cx[a] == c[a] && cx[b] == c[b]);
            assert(refers(p, c[a], c[b]));
        } else {
            assert(cx[a] == c.last() && cx[b] == x);
        }
    }
}

/// Whether `f` failed as a resolution records it: a property declared
/// other than `inherit` whose resolution fails, and which holds in `m`
/// nothing or, where it keeps its inherited value, that value.
pub open spec fn failed_ok(
    p: Seq<(String, CustomValue)>,
    base: Map<Seq<char>, Seq<char>>,
    m: Map<Seq<char>, Seq<char>>,
    x: Seq<char>,
) -> bool {
    &&& declared_value(p, x) matches Some(v) && !(v is Inherit)
    &&& outcome(p, base, x, Seq::empty()) is None
    &&& m.contains_key(x) ==> keeps_inherited(p, base, x) && m[x] == base[x]
}

/// Whether a map `m` and the properties `f` that failed are as a
/// resolution leaves them at any point: properties not declared, or
/// declared `inherit`, hold what `base` has; each failed one is as
/// `failed_ok` says; and each other declared property with a value holds
/// what resolving it alone gives.
pub open spec fn resolution_state(
    p: Seq<(String, CustomValue)>,
    base: Map<Seq<char>, Seq<char>>,
    m: Map<Seq<char>, Seq<char>>,
    f: Seq<Seq<char>>,
) -> bool {
    &&& forall|x: Seq<char>| #[trigger] declared_value(p, x) is None ==> agrees_at(m, base, x)
    &&& forall|x: Seq<char>|
        #[trigger] declared_value(p, x) matches Some(CustomValue::Inherit) ==> agrees_at(m, base, x)
    &&& forall|i: int| 0 <= i < f.len() ==> #[trigger] failed_ok(p, base, m, f[i])
    &&& forall|x: Seq<char>|
        #[trigger] declared_value(p, x) matches Some(v) && !(v is Inherit) && !f.contains(x)
            && m.contains_key(x) ==> outcome(p, base, x, Seq::empty()) == Some(Some(m[x]))
}

/// Whether a step of a resolution from `a` (with the failed properties
/// `fa`) to `b` (with `fb`) keeps what it found: failures stay, values of
/// properties that did not fail stay, and failed properties other than
/// `name` keep what they hold.
pub open spec fn progressed(
    a: Map<Seq<char>, Seq<char>>,
    fa: Seq<Seq<char>>,
    b: Map<Seq<char>, Seq<char>>,
    fb: Seq<Seq<char>>,
    name: Seq<char>,
) -> bool {
    &&& forall|i: int| 0 <= i < fa.len() ==> fb.contains(#[trigger] fa[i])
    &&& forall|x: Seq<char>|
        #[trigger] a.contains_key(x) && !fa.contains(x) ==> b.contains_key(x) && b[x] == a[x]
            && !fb.contains(x)
    &&& forall|x: Seq<char>|
        #[trigger] fa.contains(x) && x != name ==> b.contains_key(x) == a.contains_key(x) && (
        b.contains_key(x) ==> b[x] == a[x])
}

/// Two steps of a resolution, the second for a property `d` that had not
/// failed, make a step.
pub proof fn lemma_progressed_trans(
    a: Map<Seq<char>, Seq<char>>,
    fa: Seq<Seq<char>>,
    c: Map<Seq<char>, Seq<char>>,
    fc: Seq<Seq<char>>,
    b: Map<Seq<char>, Seq<char>>,
    fb: Seq<Seq<char>>,
    name: Seq<char>,
    d: Seq<char>,
)
    requires
        progressed(a, fa, c, fc, name),
        progressed(c, fc, b, fb, d),
        !fc.contains(d),
    ensures
        progressed(a, fa, b, fb, name),
{
    assert forall|i: int| 0 <= i < fa.len() implies fb.contains(#[trigger] fa[i]) by {
        assert(fc.contains(fa[i]));
        let j = choose|j: int| 0 <= j < fc.len() && fc[j] == fa[i];
        assert(fb.contains(fc[j]));
    }
    assert forall|x: Seq<char>| #[trigger] a.contains_key(x) && !fa.contains(x) implies b.contains_key(x)
        && b[x] == a[x] && !fb.contains(x) by {
        assert(c.contains_key(x) && !fc.contains(x));
    }
    assert forall|x: Seq<char>| #[trigger] fa.contains(x) && x != name implies b.contains_key(x)
        == a.contains_key(x) && (b.contains_key(x) ==> b[x] == a[x]) by {
        let i = choose|i: int| 0 <= i < fa.len() && fa[i] == x;
        assert(fc.contains(fa[i]));
        assert(x != d);
    }
}

/// A property that fails leaves its users unable to substitute it: what
/// `uses_map` gives over a stack with only `n` fails where a property
/// that `n` uses fails under a chain down to it.
pub proof fn lemma_failed_use(
    p: Seq<(String, CustomValue)>,
    base: Map<Seq<char>, Seq<char>>,
    n: Seq<char>,
    s: Seq<Seq<char>>,
    u: UnresolvedValue,
    j: int,
)
    requires
        declared_value(p, n) == Some(CustomValue::Unresolved(u)),
        chain(p, s.push(n)),
        s.push(n).no_duplicates(),
        0 <= j < u.references@.len(),
        declared_value(p, u.references@[j].name@) is Some,
        outcome(p, base, u.references@[j].name@, s.push(n)) is None,
        s.push(n).len() <= p.len(),
    ensures
        uses_map(p, base, u.references@, u.references@.len() as int, Seq::empty().push(n)) is None,
{
    let y = u.references@[j].name@;
    let sn = s.push(n);
    assert(refers(p, n, y));
    assert(sn.last() == n);
    lemma_chain_push(p, sn, y);
    lemma_fails_alone(p, base, y, sn);
    let one = Seq::<Seq<char>>::empty().push(n);
    lemma_outcome_fewer(p, base, y, Seq::empty(), one);
    lemma_uses_map(p, base, u.references@, u.references@.len() as int, one);
}

/// Resolving a property alone gives what resolving it under any stack
/// gives, where that succeeds.
pub proof fn lemma_outcome_alone(
    p: Seq<(String, CustomValue)>,
    base: Map<Seq<char>, Seq<char>>,
    d: Seq<char>,
    w: Seq<Seq<char>>,
)
    ensures
        outcome(p, base, d, w) is Some ==> outcome(p, base, d, Seq::empty()) == outcome(p, base, d, w),
{
    assert forall|x: Seq<char>| Seq::<Seq<char>>::empty().contains(x) implies w.contains(x) by {}
    lemma_outcome_fewer(p, base, d, Seq::empty(), w);
}

/// Taking away the value of a property declared other than `inherit`
/// keeps a resolution's state.
pub proof fn lemma_state_remove(
    p: Seq<(String, CustomValue)>,
    base: Map<Seq<char>, Seq<char>>,
    m: Map<Seq<char>, Seq<char>>,
    f: Seq<Seq<char>>,
    name: Seq<char>,
)
    requires
        resolution_state(p, base, m, f),
        declared_value(p, name) matches Some(v) && !(v is Inherit),
    ensures
        resolution_state(p, base, m.remove(name), f),
{
    let b = m.remove(name);
    assert forall|x: Seq<char>| #[trigger] declared_value(p, x) is None implies agrees_at(b, base, x) by {
        assert(x != name);
    }
    assert forall|x: Seq<char>|
        #[trigger] declared_value(p, x) matches Some(CustomValue::Inherit) implies agrees_at(b, base, x) by {
        assert(x != name);
    }
    assert forall|i: int| 0 <= i < f.len() implies #[trigger] failed_ok(p, base, b, f[i]) by {
        assert(failed_ok(p, base, m, f[i]));
    }
}

/// Recording the failure of `name` (declared other than `inherit`, its
/// resolution failing), with nothing at `name` or, where it keeps its
/// inherited value, that value, keeps a resolution's state.
pub proof fn lemma_state_fail(
    p: Seq<(String, CustomValue)>,
    base: Map<Seq<char>, Seq<char>>,
    m: Map<Seq<char>, Seq<char>>,
    f: Seq<Seq<char>>,
    name: Seq<char>,
    b: Map<Seq<char>, Seq<char>>,
)
    requires
        resolution_state(p, base, m, f),
        declared_value(p, name) matches Some(v) && !(v is Inherit),
        outcome(p, base, name, Seq::empty()) is None,
        b == m.remove(name) || (keeps_inherited(p, base, name) && b == m.insert(name, base[name])),
    ensures
        resolution_state(p, base, b, f.push(name)),
        failed_ok(p, base, b, name),
{
    let fp = f.push(name);
    assert forall|x: Seq<char>| #[trigger] declared_value(p, x) is None implies agrees_at(b, base, x) by {
        assert(x != name);
    }
    assert forall|x: Seq<char>|
        #[trigger] declared_value(p, x) matches Some(CustomValue::Inherit) implies agrees_at(b, base, x) by {
        assert(x != name);
    }
    assert forall|i: int| 0 <= i < fp.len() implies #[trigger] failed_ok(p, base, b, fp[i]) by {
        if i < f.len() {
            assert(fp[i] == f[i]);
            assert(failed_ok(p, base, m, f[i]));
        }
    }
    assert forall|x: Seq<char>|
        #[trigger] declared_value(p, x) matches Some(v) && !(v is Inherit) && !fp.contains(x)
            && b.contains_key(x) implies outcome(p, base, x, Seq::empty()) == Some(Some(b[x])) by {
        assert(x != name) by {
            assert(fp[f.len() as int] == name);
        }
        assert(!f.contains(x)) by {
            if f.contains(x) {
                let i = choose|i: int| 0 <= i < f.len() && f[i] == x;
                assert(fp[i] == x);
            }
        }
    }
}

/// Giving `name` what resolving it alone gives keeps a resolution's state.
pub proof fn lemma_state_insert(
    p: Seq<(String, CustomValue)>,
    base: Map<Seq<char>, Seq<char>>,
    m: Map<Seq<char>, Seq<char>>,
    f: Seq<Seq<char>>,
    name: Seq<char>,
    t: Seq<char>,
)
    requires
        resolution_state(p, base, m, f),
        declared_value(p, name) matches Some(v) && !(v is Inherit),
        outcome(p, base, name, Seq::empty()) == Some(Some(t)),
    ensures
        resolution_state(p, base, m.insert(name, t), f),
        !f.contains(name),
{
    let b = m.insert(name, t);
    assert(!f.contains(name)) by {
        if f.contains(name) {
            let i = choose|i: int| 0 <= i < f.len() && f[i] == name;
            assert(failed_ok(p, base, m, f[i]));
        }
    }
    assert forall|x: Seq<char>| #[trigger] declared_value(p, x) is None implies agrees_at(b, base, x) by {
        assert(x != name);
    }
    assert forall|x: Seq<char>|
        #[trigger] declared_value(p, x) matches Some(CustomValue::Inherit) implies agrees_at(b, base, x) by {
        assert(x != name);
    }
    assert forall|i: int| 0 <= i < f.len() implies #[trigger] failed_ok(p, base, b, f[i]) by {
        assert(failed_ok(p, base, m, f[i]));
        assert(f[i] != name);
    }
}

/// A step that changes `a` at `name` alone, and adds at most `name` to the
/// failed properties, is a step of a resolution where a value at `name`
/// that had not failed stays.
pub proof fn lemma_progress_at(
    a: Map<Seq<char>, Seq<char>>,
    fa: Seq<Seq<char>>,
    b: Map<Seq<char>, Seq<char>>,
    fb: Seq<Seq<char>>,
    name: Seq<char>,
)
    requires
        forall|x: Seq<char>| x != name ==> (#[trigger] b.contains_key(x) == a.contains_key(x) && (
        b.contains_key(x) ==> b[x] == a[x])),
        fb == fa || fb == fa.push(name),
        a.contains_key(name) && !fa.contains(name) ==> b.contains_key(name) && b[name] == a[name]
            && !fb.contains(name),
    ensures
        progressed(a, fa, b, fb, name),
{
    assert forall|i: int| 0 <= i < fa.len() implies fb.contains(#[trigger] fa[i]) by {
        if fb != fa {
            assert(fb[i] == fa[i]);
        }
    }
    assert forall|x: Seq<char>| #[trigger] a.contains_key(x) && !fa.contains(x) implies b.contains_key(x)
        && b[x] == a[x] && !fb.contains(x) by {
        if x != name {
            assert(b.contains_key(x) == a.contains_key(x));
            assert(b[x] == a[x]);
        }
        if x != name && fb != fa {
            assert(!fb.contains(x)) by {
                if fb.contains(x) {
                    let i = choose|i: int| 0 <= i < fb.len() && fb[i] == x;
                    if i < fa.len() {
                        assert(fa[i] == x);
                    }
                }
            }
        }
    }
}

/// Two steps of a resolution for the same property make a step.
pub proof fn lemma_progressed_trans_same(
    a: Map<Seq<char>, Seq<char>>,
    fa: Seq<Seq<char>>,
    c: Map<Seq<char>, Seq<char>>,
    fc: Seq<Seq<char>>,
    b: Map<Seq<char>, Seq<char>>,
    fb: Seq<Seq<char>>,
    name: Seq<char>,
)
    requires
        progressed(a, fa, c, fc, name),
        progressed(c, fc, b, fb, name),
    ensures
        progressed(a, fa, b, fb, name),
{
    assert forall|i: int| 0 <= i < fa.len() implies fb.contains(#[trigger] fa[i]) by {
        assert(fc.contains(fa[i]));
        let j = choose|j: int| 0 <= j < fc.len() && fc[j] == fa[i];
        assert(fb.contains(fc[j]));
    }
    assert forall|x: Seq<char>| #[trigger] a.contains_key(x) && !fa.contains(x) implies b.contains_key(x)
        && b[x] == a[x] && !fb.contains(x) by {
        assert(c.contains_key(x) && !fc.contains(x));
    }
    assert forall|x: Seq<char>| #[trigger] fa.contains(x) && x != name implies b.contains_key(x)
        == a.contains_key(x) && (b.contains_key(x) ==> b[x] == a[x]) by {
        let i = choose|i: int| 0 <= i < fa.len() && fa[i] == x;
        assert(fc.contains(fa[i]));
    }
}

} // verus!
