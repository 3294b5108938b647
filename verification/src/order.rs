use vstd::prelude::*;

verus! {

/// The declarations of a rule that matched an element, with what decides
/// their place in the cascade. `D` is the caller's handle on the
/// declarations.
pub struct ApplicableDeclaration<D> {
    pub declarations: D,
    pub specificity: u32,
    pub source_order: u32,
}

impl<D> ApplicableDeclaration<D> {
    pub open spec fn spec_sort_key(&self) -> (u32, u32) {
        (self.specificity, self.source_order)
    }

    /// What the cascade sorts by: specificity, then source order.
    pub fn sort_key(&self) -> (k: (u32, u32))
        ensures
            k == self.spec_sort_key(),
    {
        (self.specificity, self.source_order)
    }
}

/// Whether the key `a` sorts no later than `b`: by the first component, then
/// the second.
pub open spec fn key_le(a: (u32, u32), b: (u32, u32)) -> bool {
    a.0 < b.0 || (a.0 == b.0 && a.1 <= b.1)
}

/// Whether `s` is sorted by key.
pub open spec fn sorted_by_key<D>(s: Seq<ApplicableDeclaration<D>>) -> bool {
    forall|i: int, j: int|
        0 <= i < j < s.len() ==> key_le(#[trigger] s[i].spec_sort_key(), #[trigger] s[j].spec_sort_key())
}

/// Whether `p` sends each position of `new` to the position of `old` that
/// its item came from, one to one, keeping the order of items with equal
/// keys.
pub open spec fn stable_permutation<D>(
    new: Seq<ApplicableDeclaration<D>>,
    old: Seq<ApplicableDeclaration<D>>,
    p: Seq<int>,
) -> bool {
    &&& new.len() == old.len()
    &&& p.len() == new.len()
    &&& forall|k: int| 0 <= k < p.len() ==> 0 <= #[trigger] p[k] < old.len()
    &&& forall|k: int, l: int| 0 <= k < l < p.len() ==> #[trigger] p[k] != #[trigger] p[l]
    &&& forall|k: int| 0 <= k < p.len() ==> new[k] == old[#[trigger] p[k]]
    &&& forall|k: int, l: int|
        0 <= k < l < p.len() && new[k].spec_sort_key() == new[l].spec_sort_key() ==> #[trigger] p[k]
            < #[trigger] p[l]
}

/// Whether `new` is `old` sorted by key, items with equal keys kept in
/// their order.
pub open spec fn is_stable_sort_of<D>(
    new: Seq<ApplicableDeclaration<D>>,
    old: Seq<ApplicableDeclaration<D>>,
) -> bool {
    &&& sorted_by_key(new)
    &&& exists|p: Seq<int>| stable_permutation(new, old, p)
}

/// Sorts matched declarations into cascade order: by specificity, then
/// source order; declarations with equal keys keep the order in which they
/// were collected.
pub fn sort_by_cascade_key<D>(v: &mut Vec<ApplicableDeclaration<D>>)
    ensures
        is_stable_sort_of(final(v)@, old(v)@),
{
    let ghost old_v = v@;
    let mut rest: Vec<ApplicableDeclaration<D>> = Vec::new();
    std::mem::swap(v, &mut rest);
    let mut out: Vec<ApplicableDeclaration<D>> = Vec::new();
    let ghost mut p: Seq<int> = Seq::empty();
    let ghost mut taken: int = 0;
    while rest.len() > 0
        invariant
            taken + rest@.len() == old_v.len(),
            0 <= taken <= old_v.len(),
            rest@ == old_v.subrange(taken, old_v.len() as int),
            sorted_by_key(out@),
            p.len() == out@.len(),
            out@.len() == taken,
            forall|k: int| 0 <= k < p.len() ==> 0 <= #[trigger] p[k] < taken,
            forall|k: int, l: int| 0 <= k < l < p.len() ==> #[trigger] p[k] != #[trigger] p[l],
            forall|k: int| 0 <= k < p.len() ==> out@[k] == old_v[#[trigger] p[k]],
            forall|k: int, l: int|
                0 <= k < l < p.len() && out@[k].spec_sort_key() == out@[l].spec_sort_key()
                    ==> #[trigger] p[k] < #[trigger] p[l],
        decreases rest@.len(),
    {
        let item = rest.remove(0);
        let ghost key = item.spec_sort_key();
        proof {
            assert(item == old_v[taken]);
        }
        let (spec_k, order_k) = item.sort_key();
        let mut pos: usize = 0;
        while pos < out.len()
            invariant
                pos <= out@.len(),
                (spec_k, order_k) == key,
                forall|q: int| 0 <= q < pos ==> key_le(#[trigger] out@[q].spec_sort_key(), key),
            ensures
                pos <= out@.len(),
                forall|q: int| 0 <= q < pos ==> key_le(#[trigger] out@[q].spec_sort_key(), key),
                pos < out@.len() ==> !key_le(out@[pos as int].spec_sort_key(), key),
            decreases out@.len() - pos,
        {
            let (s, o) = out[pos].sort_key();
            if spec_k < s || (spec_k == s && order_k < o) {
                break;
            }
            pos = pos + 1;
        }
        let ghost old_out = out@;
        let ghost old_p = p;
        proof {
            assert(pos < old_out.len() ==> !key_le(old_out[pos as int].spec_sort_key(), key));
        }
        out.insert(pos, item);
        proof {
            p = old_p.insert(pos as int, taken);
            assert(out@ == old_out.insert(pos as int, item));
            assert forall|i: int, j: int| 0 <= i < j < out@.len() implies key_le(
                #[trigger] out@[i].spec_sort_key(),
                #[trigger] out@[j].spec_sort_key(),
            ) by {
                let ip = pos as int;
                if i < ip && j < ip {
                    assert(out@[i] == old_out[i] && out@[j] == old_out[j]);
                } else if i < ip && j == ip {
                    assert(out@[i] == old_out[i]);
                } else if i < ip && j > ip {
                    assert(out@[i] == old_out[i] && out@[j] == old_out[j - 1]);
                } else if i == ip {
                    assert(out@[j] == old_out[j - 1]);
                    assert(key_le(old_out[ip].spec_sort_key(), old_out[j - 1].spec_sort_key()));
                } else {
                    assert(out@[i] == old_out[i - 1] && out@[j] == old_out[j - 1]);
                }
            }
            assert forall|k: int| 0 <= k < p.len() implies out@[k] == old_v[#[trigger] p[k]] by {
                let ip = pos as int;
                if k < ip {
                    assert(p[k] == old_p[k]);
                } else if k > ip {
                    assert(p[k] == old_p[k - 1]);
                }
            }
            assert forall|k: int, l: int|
                0 <= k < l < p.len() && out@[k].spec_sort_key() == out@[l].spec_sort_key()
                    implies #[trigger] p[k] < #[trigger] p[l] by {
                let ip = pos as int;
                if k < ip && l < ip {
                    assert(p[k] == old_p[k] && p[l] == old_p[l]);
                } else if k < ip && l == ip {
                    assert(p[k] == old_p[k]);
                } else if k < ip && l > ip {
                    assert(p[k] == old_p[k] && p[l] == old_p[l - 1]);
                } else if k == ip {
                    assert(out@[l] == old_out[l - 1]);
                    assert(!key_le(old_out[ip].spec_sort_key(), key));
                    assert(key_le(old_out[ip].spec_sort_key(), old_out[l - 1].spec_sort_key()));
                } else {
                    assert(p[k] == old_p[k - 1] && p[l] == old_p[l - 1]);
                }
            }
            assert forall|k: int, l: int| 0 <= k < l < p.len() implies #[trigger] p[k]
                != #[trigger] p[l] by {
                let ip = pos as int;
                if k < ip && l < ip {
                    assert(p[k] == old_p[k] && p[l] == old_p[l]);
                } else if k < ip && l == ip {
                    assert(p[k] == old_p[k]);
                } else if k < ip && l > ip {
                    assert(p[k] == old_p[k] && p[l] == old_p[l - 1]);
                } else if k == ip {
                    assert(p[l] == old_p[l - 1]);
                } else {
                    assert(p[k] == old_p[k - 1] && p[l] == old_p[l - 1]);
                }
            }
            assert forall|k: int| 0 <= k < p.len() implies 0 <= #[trigger] p[k] < taken + 1 by {
                let ip = pos as int;
                if k < ip {
                    assert(p[k] == old_p[k]);
                } else if k > ip {
                    assert(p[k] == old_p[k - 1]);
                }
            }
            taken = taken + 1;
            assert(rest@ =~= old_v.subrange(taken, old_v.len() as int));
        }
    }
    proof {
        assert(stable_permutation(out@, old_v, p));
    }
    *v = out;
}

/// What the cascade needs to know of one declaration.
#[derive(Debug, Clone, Copy, PartialEq, Eq, Structural)]
pub struct DeclarationFlags {
    /// The declaration sets a custom property (`--name`).
    pub is_custom_property: bool,
    /// Its value is a custom-property value.
    pub has_custom_value: bool,
    /// It is marked `!important`.
    pub important: bool,
}

/// Where a declaration comes from: declaration `index` of the matched rule
/// `rule` (in sorted order), or declaration `index` of the style attribute.
#[derive(Debug, Clone, Copy, PartialEq, Eq, Structural)]
pub enum DeclarationSource {
    Matched { rule: usize, index: usize },
    Inline { index: usize },
}

/// Whether a declaration takes part in the pass for custom properties
/// (`custom`) or for the other properties, with the given importance.
pub open spec fn in_phase(f: DeclarationFlags, custom: bool, important: bool) -> bool {
    &&& f.important == important
    &&& if custom {
        f.is_custom_property && f.has_custom_value
    } else {
        !f.is_custom_property
    }
}

/// Whether `s` names a declaration that exists.
pub open spec fn valid_source(
    m: Seq<Vec<DeclarationFlags>>,
    inl: Seq<DeclarationFlags>,
    s: DeclarationSource,
) -> bool {
    match s {
        DeclarationSource::Matched { rule, index } => rule < m.len() && index < m[rule as int]@.len(),
        DeclarationSource::Inline { index } => index < inl.len(),
    }
}

pub open spec fn flags_of(
    m: Seq<Vec<DeclarationFlags>>,
    inl: Seq<DeclarationFlags>,
    s: DeclarationSource,
) -> DeclarationFlags {
    match s {
        DeclarationSource::Matched { rule, index } => m[rule as int]@[index as int],
        DeclarationSource::Inline { index } => inl[index as int],
    }
}

/// The precedence class of a declaration: style sheets below the style
/// attribute, and normal declarations below important ones.
pub open spec fn tier(
    m: Seq<Vec<DeclarationFlags>>,
    inl: Seq<DeclarationFlags>,
    s: DeclarationSource,
) -> int {
    (if flags_of(m, inl, s).important {
        2int
    } else {
        0int
    }) + (if s is Inline {
        1int
    } else {
        0int
    })
}

/// Source order within a precedence class: by rule, then by place in it.
pub open spec fn source_lt(a: DeclarationSource, b: DeclarationSource) -> bool {
    match (a, b) {
        (
            DeclarationSource::Matched { rule: r1, index: i1 },
            DeclarationSource::Matched { rule: r2, index: i2 },
        ) => r1 < r2 || (r1 == r2 && i1 < i2),
        (DeclarationSource::Inline { index: i1 }, DeclarationSource::Inline { index: i2 }) => i1
            < i2,
        _ => false,
    }
}

/// Whether `a` is applied before `b`, so that `b` wins where both set the
/// same property.
pub open spec fn precedes(
    m: Seq<Vec<DeclarationFlags>>,
    inl: Seq<DeclarationFlags>,
    a: DeclarationSource,
    b: DeclarationSource,
) -> bool {
    tier(m, inl, a) < tier(m, inl, b) || (tier(m, inl, a) == tier(m, inl, b) && source_lt(a, b))
}

/// Whether a declaration is applied in the pass for custom properties
/// (`custom`) or the other one.
pub open spec fn in_pass(
    m: Seq<Vec<DeclarationFlags>>,
    inl: Seq<DeclarationFlags>,
    custom: bool,
    s: DeclarationSource,
) -> bool {
    valid_source(m, inl, s) && in_phase(
        flags_of(m, inl, s),
        custom,
        flags_of(m, inl, s).important,
    )
}

/// Whether `order` applies exactly the declarations of the pass, each once,
/// every one before those that outrank it.
pub open spec fn is_cascade_order(
    m: Seq<Vec<DeclarationFlags>>,
    inl: Seq<DeclarationFlags>,
    custom: bool,
    order: Seq<DeclarationSource>,
) -> bool {
    &&& forall|a: int, b: int|
        0 <= a < b < order.len() ==> precedes(m, inl, #[trigger] order[a], #[trigger] order[b])
    &&& forall|k: int| 0 <= k < order.len() ==> in_pass(m, inl, custom, #[trigger] order[k])
    &&& forall|s: DeclarationSource| #[trigger] in_pass(m, inl, custom, s) ==> order.contains(s)
}

/// Whether `seg` lists, in order, the declarations among the first `j` of
/// rule `r` (whose flags are `fl`) that belong to the pass.
pub open spec fn rule_prefix_ok(
    seg: Seq<DeclarationSource>,
    fl: Seq<DeclarationFlags>,
    r: int,
    custom: bool,
    important: bool,
    j: int,
) -> bool {
    &&& forall|k: int|
        0 <= k < seg.len() ==> (#[trigger] seg[k] matches DeclarationSource::Matched { rule, index }
            && rule == r && index < j && in_phase(fl[index as int], custom, important))
    &&& forall|k: int, l: int| 0 <= k < l < seg.len() ==> source_lt(#[trigger] seg[k], #[trigger] seg[l])
    &&& forall|i: usize|
        0 <= i < j && #[trigger] in_phase(fl[i as int], custom, important) ==> seg.contains(
            DeclarationSource::Matched { rule: r as usize, index: i },
        )
}

/// Whether `seg` lists, in order, the declarations of the first `n` matched
/// rules that belong to the pass.
pub open spec fn matched_prefix_ok(
    seg: Seq<DeclarationSource>,
    m: Seq<Vec<DeclarationFlags>>,
    custom: bool,
    important: bool,
    n: int,
) -> bool {
    &&& forall|k: int|
        0 <= k < seg.len() ==> (#[trigger] seg[k] matches DeclarationSource::Matched { rule, index }
            && rule < n && index < m[rule as int]@.len() && in_phase(
            m[rule as int]@[index as int],
            custom,
            important,
        ))
    &&& forall|k: int, l: int| 0 <= k < l < seg.len() ==> source_lt(#[trigger] seg[k], #[trigger] seg[l])
    &&& forall|rule: usize, index: usize|
        rule < n && index < m[rule as int]@.len() && #[trigger] in_phase(
            m[rule as int]@[index as int],
            custom,
            important,
        ) ==> seg.contains(DeclarationSource::Matched { rule, index })
}

/// Whether `seg` lists, in order, the declarations of the style attribute
/// among its first `n` that belong to the pass.
pub open spec fn inline_prefix_ok(
    seg: Seq<DeclarationSource>,
    inl: Seq<DeclarationFlags>,
    custom: bool,
    important: bool,
    n: int,
) -> bool {
    &&& forall|k: int|
        0 <= k < seg.len() ==> (#[trigger] seg[k] matches DeclarationSource::Inline { index }
            && index < n && in_phase(inl[index as int], custom, important))
    &&& forall|k: int, l: int| 0 <= k < l < seg.len() ==> source_lt(#[trigger] seg[k], #[trigger] seg[l])
    &&& forall|index: usize|
        index < n && #[trigger] in_phase(inl[index as int], custom, important) ==> seg.contains(
            DeclarationSource::Inline { index },
        )
}

proof fn lemma_contains_push(seg: Seq<DeclarationSource>, x: DeclarationSource, y: DeclarationSource)
    ensures
        seg.contains(y) ==> seg.push(x).contains(y),
        seg.push(x).contains(x),
{
    assert(seg.push(x)[seg.len() as int] == x);
    if seg.contains(y) {
        let k = choose|k: int| 0 <= k < seg.len() && seg[k] == y;
        assert(seg.push(x)[k] == y);
    }
}

proof fn lemma_matched_prefix_extend(
    a: Seq<DeclarationSource>,
    b: Seq<DeclarationSource>,
    m: Seq<Vec<DeclarationFlags>>,
    custom: bool,
    important: bool,
    r: int,
)
    requires
        0 <= r < m.len(),
        r < usize::MAX,
        matched_prefix_ok(a, m, custom, important, r),
        rule_prefix_ok(b, m[r]@, r, custom, important, m[r]@.len() as int),
    ensures
        matched_prefix_ok(a + b, m, custom, important, r + 1),
{
    let s = a + b;
    assert forall|k: int| 0 <= k < s.len() implies (#[trigger] s[k] matches DeclarationSource::Matched {
        rule,
        index,
    } && rule < r + 1 && index < m[rule as int]@.len() && in_phase(
        m[rule as int]@[index as int],
        custom,
        important,
    )) by {
        if k < a.len() {
            assert(s[k] == a[k]);
        } else {
            assert(s[k] == b[k - a.len()]);
        }
    }
    assert forall|k: int, l: int| 0 <= k < l < s.len() implies source_lt(
        #[trigger] s[k],
        #[trigger] s[l],
    ) by {
        if l < a.len() {
            assert(s[k] == a[k] && s[l] == a[l]);
        } else if k >= a.len() {
            assert(s[k] == b[k - a.len()] && s[l] == b[l - a.len()]);
        } else {
            assert(s[k] == a[k] && s[l] == b[l - a.len()]);
        }
    }
    assert forall|rule: usize, index: usize|
        rule < r + 1 && index < m[rule as int]@.len() && #[trigger] in_phase(
            m[rule as int]@[index as int],
            custom,
            important,
        ) implies s.contains(DeclarationSource::Matched { rule, index }) by {
        let x = DeclarationSource::Matched { rule, index };
        if rule < r {
            let k = choose|k: int| 0 <= k < a.len() && a[k] == x;
            assert(s[k] == x);
        } else {
            assert(in_phase(m[r]@[index as int], custom, important));
            let k = choose|k: int| 0 <= k < b.len() && b[k] == x;
            assert(s[a.len() + k] == x);
        }
    }
}

/// Appends the declarations of the matched rules that belong to the pass
/// with the given importance, rule by rule.
fn push_matched(
    out: &mut Vec<DeclarationSource>,
    matched: &Vec<Vec<DeclarationFlags>>,
    custom: bool,
    important: bool,
)
    ensures
        final(out)@.len() >= old(out)@.len(),
        final(out)@.subrange(0, old(out)@.len() as int) == old(out)@,
        matched_prefix_ok(
            final(out)@.subrange(old(out)@.len() as int, final(out)@.len() as int),
            matched@,
            custom,
            important,
            matched@.len() as int,
        ),
{
    let ghost start = out@.len() as int;
    let mut r: usize = 0;
    proof {
        assert(out@.subrange(start, out@.len() as int) =~= Seq::<DeclarationSource>::empty());
    }
    while r < matched.len()
        invariant
            r <= matched@.len(),
            out@.len() >= start,
            out@.subrange(0, start) == old(out)@,
            start == old(out)@.len(),
            matched_prefix_ok(
                out@.subrange(start, out@.len() as int),
                matched@,
                custom,
                important,
                r as int,
            ),
        decreases matched@.len() - r,
    {
        let flags = &matched[r];
        let mut j: usize = 0;
        let ghost before = out@;
        proof {
            assert(out@.subrange(before.len() as int, out@.len() as int) =~= Seq::<
                DeclarationSource,
            >::empty());
        }
        while j < flags.len()
            invariant
                r < matched@.len(),
                flags@ == matched@[r as int]@,
                j <= flags@.len(),
                out@.len() >= before.len(),
                out@.subrange(0, before.len() as int) == before,
                rule_prefix_ok(
                    out@.subrange(before.len() as int, out@.len() as int),
                    flags@,
                    r as int,
                    custom,
                    important,
                    j as int,
                ),
            decreases flags@.len() - j,
        {
            let f = flags[j];
            let ghost prev = out@;
            let ghost pseg = prev.subrange(before.len() as int, prev.len() as int);
            if f.important == important && (if custom {
                f.is_custom_property && f.has_custom_value
            } else {
                !f.is_custom_property
            }) {
                let x = DeclarationSource::Matched { rule: r, index: j };
                out.push(x);
                proof {
                    assert(out@.subrange(0, before.len() as int) =~= before);
                    let seg = out@.subrange(before.len() as int, out@.len() as int);
                    assert(seg =~= pseg.push(x));
                    assert forall|i: usize|
                        0 <= i < j + 1 && #[trigger] in_phase(
                            flags@[i as int],
                            custom,
                            important,
                        ) implies seg.contains(
                        DeclarationSource::Matched { rule: r as usize, index: i },
                    ) by {
                        lemma_contains_push(
                            pseg,
                            x,
                            DeclarationSource::Matched { rule: r as usize, index: i },
                        );
                    }
                    assert forall|k: int, l: int| 0 <= k < l < seg.len() implies source_lt(
                        #[trigger] seg[k],
                        #[trigger] seg[l],
                    ) by {
                        if l < pseg.len() {
                            assert(seg[k] == pseg[k] && seg[l] == pseg[l]);
                        } else {
                            assert(seg[k] == pseg[k]);
                        }
                    }
                }
            }
            j = j + 1;
        }
        proof {
            let seg_all = out@.subrange(start, out@.len() as int);
            let seg_before = before.subrange(start, before.len() as int);
            let seg_rule = out@.subrange(before.len() as int, out@.len() as int);
            assert(seg_all =~= seg_before + seg_rule);
            lemma_matched_prefix_extend(seg_before, seg_rule, matched@, custom, important, r as int);
            assert(out@.subrange(0, start) =~= before.subrange(0, start));
        }
        r = r + 1;
    }
}

/// Appends the declarations of the style attribute that belong to the pass
/// with the given importance.
fn push_inline(
    out: &mut Vec<DeclarationSource>,
    inline: &Vec<DeclarationFlags>,
    custom: bool,
    important: bool,
)
    ensures
        final(out)@.len() >= old(out)@.len(),
        final(out)@.subrange(0, old(out)@.len() as int) == old(out)@,
        inline_prefix_ok(
            final(out)@.subrange(old(out)@.len() as int, final(out)@.len() as int),
            inline@,
            custom,
            important,
            inline@.len() as int,
        ),
{
    let ghost start = out@.len() as int;
    let mut j: usize = 0;
    proof {
        assert(out@.subrange(start, out@.len() as int) =~= Seq::<DeclarationSource>::empty());
    }
    while j < inline.len()
        invariant
            j <= inline@.len(),
            out@.len() >= start,
            out@.subrange(0, start) == old(out)@,
            start == old(out)@.len(),
            inline_prefix_ok(
                out@.subrange(start, out@.len() as int),
                inline@,
                custom,
                important,
                j as int,
            ),
        decreases inline@.len() - j,
    {
        let f = inline[j];
        let ghost prev = out@;
        let ghost pseg = prev.subrange(start, prev.len() as int);
        if f.important == important && (if custom {
            f.is_custom_property && f.has_custom_value
        } else {
            !f.is_custom_property
        }) {
            let x = DeclarationSource::Inline { index: j };
            out.push(x);
            proof {
                assert(out@.subrange(0, start) =~= prev.subrange(0, start));
                let seg = out@.subrange(start, out@.len() as int);
                assert(seg =~= pseg.push(x));
                assert forall|i: usize|
                    i < j + 1 && #[trigger] in_phase(
                        inline@[i as int],
                        custom,
                        important,
                    ) implies seg.contains(DeclarationSource::Inline { index: i }) by {
                    lemma_contains_push(pseg, x, DeclarationSource::Inline { index: i });
                }
                assert forall|k: int, l: int| 0 <= k < l < seg.len() implies source_lt(
                    #[trigger] seg[k],
                    #[trigger] seg[l],
                ) by {
                    if l < pseg.len() {
                        assert(seg[k] == pseg[k] && seg[l] == pseg[l]);
                    } else {
                        assert(seg[k] == pseg[k]);
                    }
                }
            }
        }
        j = j + 1;
    }
}

/// Whether `seg` holds declarations of the pass with precedence classes
/// between `lo` and `hi`, each before those that outrank it.
spec fn ordered(
    seg: Seq<DeclarationSource>,
    m: Seq<Vec<DeclarationFlags>>,
    inl: Seq<DeclarationFlags>,
    custom: bool,
    lo: int,
    hi: int,
) -> bool {
    &&& forall|k: int|
        0 <= k < seg.len() ==> lo <= tier(m, inl, #[trigger] seg[k]) <= hi && in_pass(
            m,
            inl,
            custom,
            seg[k],
        )
    &&& forall|k: int, l: int|
        0 <= k < l < seg.len() ==> precedes(m, inl, #[trigger] seg[k], #[trigger] seg[l])
}

proof fn lemma_matched_block_ordered(
    seg: Seq<DeclarationSource>,
    m: Seq<Vec<DeclarationFlags>>,
    inl: Seq<DeclarationFlags>,
    custom: bool,
    important: bool,
)
    requires
        matched_prefix_ok(seg, m, custom, important, m.len() as int),
    ensures
        ordered(seg, m, inl, custom, if important { 2 } else { 0 }, if important { 2 } else { 0 }),
{
    let t: int = if important { 2 } else { 0 };
    assert forall|k: int| 0 <= k < seg.len() implies t <= tier(m, inl, #[trigger] seg[k]) <= t
        && in_pass(m, inl, custom, seg[k]) by {}
    assert forall|k: int, l: int| 0 <= k < l < seg.len() implies precedes(
        m,
        inl,
        #[trigger] seg[k],
        #[trigger] seg[l],
    ) by {
        assert(tier(m, inl, seg[k]) == t && tier(m, inl, seg[l]) == t);
    }
}

proof fn lemma_inline_block_ordered(
    seg: Seq<DeclarationSource>,
    m: Seq<Vec<DeclarationFlags>>,
    inl: Seq<DeclarationFlags>,
    custom: bool,
    important: bool,
)
    requires
        inline_prefix_ok(seg, inl, custom, important, inl.len() as int),
    ensures
        ordered(seg, m, inl, custom, if important { 3 } else { 1 }, if important { 3 } else { 1 }),
{
    let t: int = if important { 3 } else { 1 };
    assert forall|k: int| 0 <= k < seg.len() implies t <= tier(m, inl, #[trigger] seg[k]) <= t
        && in_pass(m, inl, custom, seg[k]) by {}
    assert forall|k: int, l: int| 0 <= k < l < seg.len() implies precedes(
        m,
        inl,
        #[trigger] seg[k],
        #[trigger] seg[l],
    ) by {
        assert(tier(m, inl, seg[k]) == t && tier(m, inl, seg[l]) == t);
    }
}

proof fn lemma_ordered_concat(
    a: Seq<DeclarationSource>,
    b: Seq<DeclarationSource>,
    m: Seq<Vec<DeclarationFlags>>,
    inl: Seq<DeclarationFlags>,
    custom: bool,
    lo: int,
    mid: int,
    hi: int,
)
    requires
        lo <= mid < hi,
        ordered(a, m, inl, custom, lo, mid),
        ordered(b, m, inl, custom, mid + 1, hi),
    ensures
        ordered(a + b, m, inl, custom, lo, hi),
{
    let s = a + b;
    assert forall|k: int| 0 <= k < s.len() implies lo <= tier(m, inl, #[trigger] s[k]) <= hi
        && in_pass(m, inl, custom, s[k]) by {
        if k < a.len() {
            assert(s[k] == a[k]);
            assert(lo <= tier(m, inl, a[k]) <= mid);
        } else {
            assert(s[k] == b[k - a.len()]);
            assert(mid + 1 <= tier(m, inl, b[k - a.len()]) <= hi);
        }
    }
    assert forall|k: int, l: int| 0 <= k < l < s.len() implies precedes(
        m,
        inl,
        #[trigger] s[k],
        #[trigger] s[l],
    ) by {
        if k < a.len() {
            assert(lo <= tier(m, inl, a[k]) <= mid);
        }
        if l >= a.len() {
            assert(mid + 1 <= tier(m, inl, b[l - a.len()]) <= hi);
        }
        if l < a.len() {
            assert(s[k] == a[k] && s[l] == a[l]);
        } else if k >= a.len() {
            assert(s[k] == b[k - a.len()] && s[l] == b[l - a.len()]);
        } else {
            assert(s[k] == a[k] && s[l] == b[l - a.len()]);
        }
    }
}

proof fn lemma_contains_concat(a: Seq<DeclarationSource>, b: Seq<DeclarationSource>, x: DeclarationSource)
    ensures
        a.contains(x) ==> (a + b).contains(x),
        b.contains(x) ==> (a + b).contains(x),
{
    if a.contains(x) {
        let k = choose|k: int| 0 <= k < a.len() && a[k] == x;
        assert((a + b)[k] == x);
    }
    if b.contains(x) {
        let k = choose|k: int| 0 <= k < b.len() && b[k] == x;
        assert((a + b)[a.len() + k] == x);
    }
}

/// The order in which the declarations of one pass are applied: the
/// matched rules' normal declarations, the style attribute's normal ones,
/// the matched rules' important ones, then the style attribute's important
/// ones; within each group in source order. `matched` holds the flags of
/// the matched rules' declarations, rules sorted by cascade key; `custom`
/// picks the pass for custom properties or the one for the other
/// properties.
pub fn cascade_order(
    matched: &Vec<Vec<DeclarationFlags>>,
    inline: &Vec<DeclarationFlags>,
    custom: bool,
) -> (order: Vec<DeclarationSource>)
    ensures
        is_cascade_order(matched@, inline@, custom, order@),
{
    let mut out: Vec<DeclarationSource> = Vec::new();
    push_matched(&mut out, matched, custom, false);
    let ghost b0 = out@;
    push_inline(&mut out, inline, custom, false);
    let ghost o1 = out@;
    push_matched(&mut out, matched, custom, true);
    let ghost o2 = out@;
    push_inline(&mut out, inline, custom, true);
    proof {
        let m = matched@;
        let inl = inline@;
        let b1 = o1.subrange(b0.len() as int, o1.len() as int);
        let b2 = o2.subrange(o1.len() as int, o2.len() as int);
        let b3 = out@.subrange(o2.len() as int, out@.len() as int);
        assert(b0.subrange(0, 0) =~= b0.subrange(0, 0));
        assert(b0 =~= b0.subrange(0, b0.len() as int));
        assert(o1 =~= b0 + b1);
        assert(o2 =~= o1 + b2);
        assert(out@ =~= o2 + b3);
        assert(b0 =~= out@.subrange(0, 0) + b0);
        lemma_matched_block_ordered(b0.subrange(0, b0.len() as int), m, inl, custom, false);
        lemma_inline_block_ordered(b1, m, inl, custom, false);
        lemma_matched_block_ordered(b2, m, inl, custom, true);
        lemma_inline_block_ordered(b3, m, inl, custom, true);
        lemma_ordered_concat(b0, b1, m, inl, custom, 0, 0, 1);
        lemma_ordered_concat(o1, b2, m, inl, custom, 0, 1, 2);
        lemma_ordered_concat(o2, b3, m, inl, custom, 0, 2, 3);
        assert forall|x: DeclarationSource| #[trigger] in_pass(m, inl, custom, x) implies out@.contains(
            x,
        ) by {
            match x {
                DeclarationSource::Matched { rule, index } => {
                    if flags_of(m, inl, x).important {
                        assert(in_phase(m[rule as int]@[index as int], custom, true));
                        lemma_contains_concat(o1, b2, x);
                    } else {
                        assert(in_phase(m[rule as int]@[index as int], custom, false));
                        assert(b0.subrange(0, b0.len() as int) =~= b0);
                        lemma_contains_concat(b0, b1, x);
                        lemma_contains_concat(o1, b2, x);
                    }
                },
                DeclarationSource::Inline { index } => {
                    if flags_of(m, inl, x).important {
                        assert(in_phase(inl[index as int], custom, true));
                    } else {
                        assert(in_phase(inl[index as int], custom, false));
                        lemma_contains_concat(b0, b1, x);
                        lemma_contains_concat(o1, b2, x);
                    }
                },
            }
            lemma_contains_concat(o2, b3, x);
        }
    }
    out
}

/// Of two style-sheet declarations of one pass and the same importance, the
/// one whose rule sorts later (greater specificity, or equal specificity and
/// greater source order) is applied later, and so wins: given the matched
/// rules `v` in sorted order, `m` their declarations' flags and `order` the
/// pass's cascade order.
pub proof fn lemma_greater_key_applies_later<D>(
    v: Seq<ApplicableDeclaration<D>>,
    m: Seq<Vec<DeclarationFlags>>,
    inl: Seq<DeclarationFlags>,
    custom: bool,
    order: Seq<DeclarationSource>,
    a: int,
    b: int,
)
    requires
        sorted_by_key(v),
        m.len() == v.len(),
        is_cascade_order(m, inl, custom, order),
        0 <= a < order.len(),
        0 <= b < order.len(),
        order[a] is Matched,
        order[b] is Matched,
        flags_of(m, inl, order[a]).important == flags_of(m, inl, order[b]).important,
        !key_le(
            v[order[b]->Matched_rule as int].spec_sort_key(),
            v[order[a]->Matched_rule as int].spec_sort_key(),
        ),
    ensures
        a < b,
{
    let ra = order[a]->Matched_rule as int;
    let rb = order[b]->Matched_rule as int;
    assert(in_pass(m, inl, custom, order[a]));
    assert(in_pass(m, inl, custom, order[b]));
    if ra == rb {
        assert(key_le(v[ra].spec_sort_key(), v[ra].spec_sort_key()));
    }
    if b < a {
        assert(precedes(m, inl, order[b], order[a]));
        assert(rb <= ra);
        if rb < ra {
            assert(key_le(v[rb].spec_sort_key(), v[ra].spec_sort_key()));
        }
    }
}

} // verus!
