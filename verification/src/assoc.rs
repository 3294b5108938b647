use vstd::prelude::*;

verus! {

/// The values recorded under `name` in a table of named lists: those of the
/// last entry with that name, or none.
pub open spec fn named_values<V>(table: Seq<(String, Vec<V>)>, name: Seq<char>) -> Seq<V>
    decreases table.len(),
{
    if table.len() == 0 {
        Seq::empty()
    } else if table.last().0@ == name {
        table.last().1@
    } else {
        named_values(table.drop_last(), name)
    }
}

/// Whether some entry of the table has the name.
pub open spec fn has_name<V>(table: Seq<(String, Vec<V>)>, name: Seq<char>) -> bool {
    exists|i: int| 0 <= i < table.len() && (#[trigger] table[i]).0@ == name
}

/// Adds `value` at the end of the list under `name`, making the entry if
/// there is none.
pub fn push_named<V>(table: &mut Vec<(String, Vec<V>)>, name: &String, value: V)
    ensures
        forall|n: Seq<char>|
            #[trigger] named_values(final(table)@, n) == if n == name@ {
                named_values(old(table)@, n).push(value)
            } else {
                named_values(old(table)@, n)
            },
        forall|n: Seq<char>|
            #[trigger] has_name(final(table)@, n) == (has_name(old(table)@, n) || n == name@),
{
    let ghost old_t = table@;
    let mut j = table.len();
    while j > 0
        invariant
            j <= table@.len(),
            table@ == old_t,
            old_t == old(table)@,
            forall|k: int| j <= k < table@.len() ==> table@[k].0@ != name@,
        decreases j,
    {
        if table[j - 1].0 == *name {
            let ghost i = (j - 1) as int;
            let (key, mut values) = table.remove(j - 1);
            proof {
                assert(key == old_t[i].0);
                assert(values == old_t[i].1);
            }
            values.push(value);
            table.insert(j - 1, (key, values));
            proof {
                assert(table@ =~= old_t.update(i, (key, values)));
                assert(table@[i].1@ == old_t[i].1@.push(value));
                assert forall|n: Seq<char>|
                    #[trigger] named_values(table@, n) == if n == name@ {
                        named_values(old_t, n).push(value)
                    } else {
                        named_values(old_t, n)
                    } by {
                    lemma_named_values_update_at(old_t, table@, i, name@, value, n);
                }
                assert forall|n: Seq<char>| #[trigger]
                    has_name(table@, n) == (has_name(old_t, n) || n == name@) by {
                    if has_name(old_t, n) {
                        let k = choose|k: int| 0 <= k < old_t.len() && (#[trigger] old_t[k]).0@ == n;
                        assert(table@[k].0@ == n);
                    }
                    if n == name@ {
                        assert(table@[i].0@ == n);
                    }
                    if has_name(table@, n) {
                        let k = choose|k: int| 0 <= k < table@.len() && (#[trigger] table@[k]).0@ == n;
                        assert(old_t[k].0@ == n);
                    }
                }
            }
            return ;
        }
        j = j - 1;
    }
    let mut values: Vec<V> = Vec::new();
    values.push(value);
    table.push((name.clone(), values));
    proof {
        assert(table@.drop_last() =~= old_t);
        lemma_named_values_absent(old_t, name@);
        assert(values@ =~= Seq::<V>::empty().push(value));
        assert forall|n: Seq<char>| #[trigger]
            has_name(table@, n) == (has_name(old_t, n) || n == name@) by {
            if has_name(old_t, n) {
                let k = choose|k: int| 0 <= k < old_t.len() && (#[trigger] old_t[k]).0@ == n;
                assert(table@[k].0@ == n);
            }
            if n == name@ {
                assert(table@[table@.len() - 1].0@ == n);
            }
            if has_name(table@, n) {
                let k = choose|k: int| 0 <= k < table@.len() && (#[trigger] table@[k]).0@ == n;
                if k < old_t.len() {
                    assert(old_t[k].0@ == n);
                }
            }
        }
    }
}

/// The list under `name`, if some entry has the name.
pub fn find_named<'a, V>(table: &'a Vec<(String, Vec<V>)>, name: &String) -> (r: Option<&'a Vec<V>>)
    ensures
        r is None <==> !has_name(table@, name@),
        r is None ==> named_values(table@, name@) == Seq::<V>::empty(),
        r matches Some(d) ==> d@ == named_values(table@, name@),
{
    let mut j = table.len();
    while j > 0
        invariant
            j <= table@.len(),
            forall|k: int| j <= k < table@.len() ==> table@[k].0@ != name@,
        decreases j,
    {
        if table[j - 1].0 == *name {
            proof {
                lemma_named_values_last_match(table@, (j - 1) as int, name@);
                assert(table@[j - 1].0@ == name@);
            }
            return Some(&table[j - 1].1);
        }
        j = j - 1;
    }
    proof {
        lemma_named_values_absent(table@, name@);
    }
    None
}

pub proof fn lemma_named_values_absent<V>(t: Seq<(String, Vec<V>)>, name: Seq<char>)
    requires
        forall|k: int| 0 <= k < t.len() ==> t[k].0@ != name,
    ensures
        named_values(t, name) == Seq::<V>::empty(),
        !has_name(t, name),
    decreases t.len(),
{
    if t.len() > 0 {
        lemma_named_values_absent(t.drop_last(), name);
    }
}

proof fn lemma_named_values_update_at<V>(
    t: Seq<(String, Vec<V>)>,
    u: Seq<(String, Vec<V>)>,
    j: int,
    name: Seq<char>,
    value: V,
    n: Seq<char>,
)
    requires
        0 <= j < t.len(),
        u.len() == t.len(),
        t[j].0@ == name,
        u[j].0@ == name,
        u[j].1@ == t[j].1@.push(value),
        forall|k: int| 0 <= k < t.len() && k != j ==> u[k] == t[k],
        forall|k: int| j < k < t.len() ==> t[k].0@ != name,
    ensures
        named_values(u, n) == if n == name {
            named_values(t, n).push(value)
        } else {
            named_values(t, n)
        },
    decreases t.len(),
{
    if j == t.len() - 1 {
        if n != name {
            assert(u.drop_last() =~= t.drop_last());
        }
    } else {
        assert(u.last() == t.last());
        lemma_named_values_update_at(t.drop_last(), u.drop_last(), j, name, value, n);
    }
}

proof fn lemma_named_values_last_match<V>(t: Seq<(String, Vec<V>)>, j: int, name: Seq<char>)
    requires
        0 <= j < t.len(),
        t[j].0@ == name,
        forall|k: int| j < k < t.len() ==> t[k].0@ != name,
    ensures
        named_values(t, name) == t[j].1@,
    decreases t.len(),
{
    if j < t.len() - 1 {
        lemma_named_values_last_match(t.drop_last(), j, name);
    }
}

/// A name whose list is not empty is in the table.
pub proof fn lemma_named_values_has_name<V>(t: Seq<(String, Vec<V>)>, name: Seq<char>)
    requires
        named_values(t, name).len() > 0,
    ensures
        has_name(t, name),
    decreases t.len(),
{
    if t.last().0@ == name {
        assert(t[t.len() - 1].0@ == name);
    } else {
        lemma_named_values_has_name(t.drop_last(), name);
        let i = choose|i: int| 0 <= i < t.drop_last().len() && (#[trigger] t.drop_last()[i]).0@ == name;
        assert(t[i].0@ == name);
    }
}

} // verus!
