use vstd::prelude::*;

verus! {

/// The sum of a sequence of cell counts, without overflow.
pub open spec fn sum_u16(s: Seq<u16>) -> int
    decreases s.len(),
{
    if s.len() == 0 {
        0
    } else {
        sum_u16(s.drop_last()) + s.last()
    }
}

/// The largest of a sequence of cell counts, or zero when it is empty.
pub open spec fn max_u16(s: Seq<u16>) -> u16
    decreases s.len(),
{
    if s.len() == 0 {
        0
    } else {
        let m = max_u16(s.drop_last());
        if m < s.last() {
            s.last()
        } else {
            m
        }
    }
}

/// `a * b`, or `u16::MAX` when the product does not fit.
pub open spec fn spec_saturating_mul(a: u16, b: u16) -> u16 {
    if a * b > u16::MAX {
        u16::MAX
    } else {
        (a * b) as u16
    }
}

pub fn saturating_mul(a: u16, b: u16) -> (r: u16)
    ensures
        r == spec_saturating_mul(a, b),
{
    let x: u32 = a as u32;
    let y: u32 = b as u32;
    assert(x * y <= 65535 * 65535) by (nonlinear_arith)
        requires
            x <= 65535,
            y <= 65535,
    ;
    let p: u32 = x * y;
    if p > 65535 {
        u16::MAX
    } else {
        p as u16
    }
}

/// The space taken by the gaps between `n` things: `gap * (n - 1)`, saturating.
pub open spec fn gaps_between(gap: u16, n: int) -> u16 {
    if n <= 1 {
        0
    } else {
        spec_saturating_mul(gap, (n - 1) as u16)
    }
}

/// The sum of a prefix never exceeds the sum of the whole.
pub proof fn lemma_sum_prefix_le(s: Seq<u16>, i: int)
    requires
        0 <= i <= s.len(),
    ensures
        0 <= sum_u16(s.take(i)) <= sum_u16(s),
    decreases s.len(),
{
    if s.len() == 0 {
        assert(s.take(i) =~= s);
    } else if i == s.len() {
        assert(s.take(i) =~= s);
        lemma_sum_nonneg(s);
    } else {
        lemma_sum_prefix_le(s.drop_last(), i);
        assert(s.drop_last().take(i) =~= s.take(i));
    }
}

pub proof fn lemma_sum_nonneg(s: Seq<u16>)
    ensures
        0 <= sum_u16(s),
    decreases s.len(),
{
    if s.len() > 0 {
        lemma_sum_nonneg(s.drop_last());
    }
}

/// Extending a prefix by one adds that element to the sum.
pub proof fn lemma_sum_take_step(s: Seq<u16>, i: int)
    requires
        0 <= i < s.len(),
    ensures
        sum_u16(s.take(i + 1)) == sum_u16(s.take(i)) + s[i],
{
    assert(s.take(i + 1).drop_last() =~= s.take(i));
}

/// Extending a prefix by one compares that element into the maximum.
pub proof fn lemma_max_take_step(s: Seq<u16>, i: int)
    requires
        0 <= i < s.len(),
    ensures
        max_u16(s.take(i + 1)) == (if max_u16(s.take(i)) < s[i] {
            s[i]
        } else {
            max_u16(s.take(i))
        }),
{
    assert(s.take(i + 1).drop_last() =~= s.take(i));
}

/// The maximum bounds every element and is one of them (or zero).
pub proof fn lemma_max_bounds(s: Seq<u16>)
    ensures
        forall|k: int| 0 <= k < s.len() ==> s[k] <= max_u16(s),
        s.len() == 0 ==> max_u16(s) == 0,
        s.len() > 0 ==> exists|k: int| 0 <= k < s.len() && s[k] == max_u16(s),
    decreases s.len(),
{
    if s.len() > 0 {
        lemma_max_bounds(s.drop_last());
        let d = s.drop_last();
        assert forall|k: int| 0 <= k < s.len() implies s[k] <= max_u16(s) by {
            if k < s.len() - 1 {
                assert(d[k] == s[k]);
            }
        }
        if max_u16(d) < s.last() || d.len() == 0 {
            assert(s[s.len() - 1] == max_u16(s));
        } else {
            let k = choose|k: int| 0 <= k < d.len() && d[k] == max_u16(d);
            assert(s[k] == max_u16(s));
        }
    }
}

/// Adds up a sequence of cell counts whose total fits in a `u16`.
pub fn sum_cells(v: &Vec<u16>) -> (r: u16)
    requires
        sum_u16(v@) <= u16::MAX,
    ensures
        r == sum_u16(v@),
{
    let mut total: u16 = 0;
    let mut i: usize = 0;
    while i < v.len()
        invariant
            i <= v@.len(),
            sum_u16(v@) <= u16::MAX,
            total == sum_u16(v@.take(i as int)),
        decreases v@.len() - i,
    {
        proof {
            lemma_sum_take_step(v@, i as int);
            lemma_sum_prefix_le(v@, i as int + 1);
        }
        total = total + v[i];
        i = i + 1;
    }
    assert(v@.take(v@.len() as int) =~= v@);
    total
}

/// The largest of a sequence of cell counts, or zero.
pub fn max_cells(v: &Vec<u16>) -> (r: u16)
    ensures
        r == max_u16(v@),
{
    let mut best: u16 = 0;
    let mut i: usize = 0;
    assert(v@.take(0) =~= Seq::<u16>::empty());
    while i < v.len()
        invariant
            i <= v@.len(),
            best == max_u16(v@.take(i as int)),
        decreases v@.len() - i,
    {
        proof {
            lemma_max_take_step(v@, i as int);
        }
        if best < v[i] {
            best = v[i];
        }
        i = i + 1;
    }
    assert(v@.take(v@.len() as int) =~= v@);
    best
}

} // verus!
