use vstd::prelude::*;

use std::sync::Arc;

use crate::assoc::{find_named, has_name, named_values, push_named};
use crate::selector::SelectorPart;
use crate::sheet::SheetEntry;

verus! {

/// A selector of a style rule, with what the cascade needs of it.
///
/// `S` is the caller's own form of the selector, which the library carries
/// but does not read.
pub struct BulmaRule<S, D> {
    pub selector: S,
    /// The selector's parts, from its subject outwards.
    pub parts: Vec<SelectorPart>,
    pub specificity: u32,
    /// The declarations of the rule, shared by all its selectors.
    pub declarations: Arc<Vec<D>>,
    pub source_order: u32,
}

impl<S, D> BulmaRule<S, D> {
    pub fn new(
        selector: S,
        parts: Vec<SelectorPart>,
        specificity: u32,
        declarations: Arc<Vec<D>>,
        source_order: u32,
    ) -> (r: Self)
        ensures
            r.selector == selector,
            r.parts == parts,
            r.specificity == specificity,
            r.declarations == declarations,
            r.source_order == source_order,
    {
        BulmaRule { selector, parts, specificity, declarations, source_order }
    }

    pub fn specificity(&self) -> (r: u32)
        ensures
            r == self.specificity,
    {
        self.specificity
    }
}

/// The index of the first part at or after `i` for which `p` holds, or the
/// number of parts if none does.
pub open spec fn first_where(parts: Seq<SelectorPart>, p: PartTest, i: int) -> int
    decreases parts.len() - i,
{
    if i >= parts.len() {
        parts.len() as int
    } else if passes(parts[i], p) {
        i
    } else {
        first_where(parts, p, i + 1)
    }
}

/// A kind of part that a search looks for.
pub enum PartTest {
    Combinator,
    Id,
    Class,
    Tag,
}

pub open spec fn passes(p: SelectorPart, t: PartTest) -> bool {
    match t {
        PartTest::Combinator => p is Combinator,
        PartTest::Id => p is Id,
        PartTest::Class => p is Class,
        PartTest::Tag => p is Tag,
    }
}

/// The number of parts in the subject's compound selector.
pub open spec fn subject_len(parts: Seq<SelectorPart>) -> int {
    first_where(parts, PartTest::Combinator, 0)
}

/// The name that a part tests, for id, class, tag and attribute parts.
pub open spec fn part_text(p: SelectorPart) -> Seq<char> {
    match p {
        SelectorPart::Id(n) => n@,
        SelectorPart::Class(n) => n@,
        SelectorPart::Tag(n) => n@,
        SelectorPart::Attribute(n) => n@,
        _ => Seq::empty(),
    }
}

/// A rule is filed under a name that its subject must have: under an id,
/// class or tag only where a simple selector of the subject's compound
/// tests it, and among the rules for every element only where that
/// compound tests no id, class or tag. So an element is matched against
/// every rule that can match it when it is matched against the buckets of
/// its id, its classes, its tag and the universal rules.
pub proof fn lemma_bucket_in_subject(parts: Seq<SelectorPart>)
    ensures
        ({
            let (kind, name) = spec_bucket(parts);
            &&& 0 <= kind <= 3
            &&& kind == 0 ==> exists|k: int|
                0 <= k < subject_len(parts) && #[trigger] parts[k] == SelectorPart::Id(
                    parts[k]->Id_0,
                ) && parts[k]->Id_0@ == name
            &&& kind == 1 ==> exists|k: int|
                0 <= k < subject_len(parts) && #[trigger] parts[k] == SelectorPart::Class(
                    parts[k]->Class_0,
                ) && parts[k]->Class_0@ == name
            &&& kind == 2 ==> exists|k: int|
                0 <= k < subject_len(parts) && #[trigger] parts[k] == SelectorPart::Tag(
                    parts[k]->Tag_0,
                ) && parts[k]->Tag_0@ == name
            &&& kind == 3 ==> forall|k: int|
                0 <= k < subject_len(parts) ==> !((#[trigger] parts[k]) is Id || parts[k] is Class
                    || parts[k] is Tag)
        }),
{
    let n = subject_len(parts);
    let id = first_where(parts, PartTest::Id, 0);
    let class = first_where(parts, PartTest::Class, 0);
    let tag = first_where(parts, PartTest::Tag, 0);
    lemma_first_where_bounds(parts, PartTest::Combinator, 0);
    lemma_first_where_bounds(parts, PartTest::Id, 0);
    lemma_first_where_bounds(parts, PartTest::Class, 0);
    lemma_first_where_bounds(parts, PartTest::Tag, 0);
    if id < n {
        assert(parts[id] is Id);
    } else if class < n {
        assert(parts[class] is Class);
    } else if tag < n {
        assert(parts[tag] is Tag);
    } else {
        assert forall|k: int| 0 <= k < n implies !((#[trigger] parts[k]) is Id || parts[k] is Class
            || parts[k] is Tag) by {
            assert(!passes(parts[k], PartTest::Id));
            assert(!passes(parts[k], PartTest::Class));
            assert(!passes(parts[k], PartTest::Tag));
        }
    }
}

/// Which list of a `CascadeData` holds a rule.
pub enum BucketKey {
    Id(String),
    Class(String),
    Tag(String),
    Universal,
}

/// The bucket of a selector, in the abstract: `0` for an id, `1` for a
/// class, `2` for a tag, `3` for none; and the name.
pub open spec fn spec_bucket(parts: Seq<SelectorPart>) -> (int, Seq<char>) {
    let n = subject_len(parts);
    let id = first_where(parts, PartTest::Id, 0);
    let class = first_where(parts, PartTest::Class, 0);
    let tag = first_where(parts, PartTest::Tag, 0);
    if id < n {
        (0, part_text(parts[id]))
    } else if class < n {
        (1, part_text(parts[class]))
    } else if tag < n {
        (2, part_text(parts[tag]))
    } else {
        (3, Seq::empty())
    }
}

impl BucketKey {
    pub open spec fn view_key(self) -> (int, Seq<char>) {
        match self {
            BucketKey::Id(n) => (0, n@),
            BucketKey::Class(n) => (1, n@),
            BucketKey::Tag(n) => (2, n@),
            BucketKey::Universal => (3, Seq::empty()),
        }
    }
}

proof fn lemma_first_where_bounds(parts: Seq<SelectorPart>, p: PartTest, i: int)
    requires
        0 <= i <= parts.len(),
    ensures
        i <= first_where(parts, p, i) <= parts.len(),
        first_where(parts, p, i) < parts.len() ==> passes(parts[first_where(parts, p, i)], p),
        forall|k: int| i <= k < first_where(parts, p, i) ==> !passes(#[trigger] parts[k], p),
    decreases parts.len() - i,
{
    if i < parts.len() && !passes(parts[i], p) {
        lemma_first_where_bounds(parts, p, i + 1);
    }
}

proof fn lemma_first_where_is(parts: Seq<SelectorPart>, p: PartTest, k: int)
    requires
        0 <= k < parts.len(),
        passes(parts[k], p),
        forall|j: int| 0 <= j < k ==> !passes(#[trigger] parts[j], p),
    ensures
        first_where(parts, p, 0) == k,
{
    lemma_first_where_from(parts, p, 0, k);
}

proof fn lemma_first_where_from(parts: Seq<SelectorPart>, p: PartTest, i: int, k: int)
    requires
        0 <= i <= k < parts.len(),
        passes(parts[k], p),
        forall|j: int| i <= j < k ==> !passes(#[trigger] parts[j], p),
    ensures
        first_where(parts, p, i) == k,
    decreases k - i,
{
    if i < k {
        assert(!passes(parts[i], p));
        lemma_first_where_from(parts, p, i + 1, k);
    }
}

proof fn lemma_first_where_none(parts: Seq<SelectorPart>, p: PartTest, i: int, n: int)
    requires
        0 <= i <= n <= parts.len(),
        forall|j: int| i <= j < n ==> !passes(#[trigger] parts[j], p),
    ensures
        first_where(parts, p, i) >= n,
    decreases n - i,
{
    if i < n {
        assert(!passes(parts[i], p));
        lemma_first_where_none(parts, p, i + 1, n);
    } else {
        lemma_first_where_bounds(parts, p, i);
    }
}

/// The bucket of a selector: the first id of its subject's compound, else
/// its first class, else its first tag, else the universal bucket.
pub fn extract_bucket_key(parts: &Vec<SelectorPart>) -> (k: BucketKey)
    ensures
        k.view_key() == spec_bucket(parts@),
{
    let ghost ps = parts@;
    let mut class_key: Option<String> = None;
    let mut tag_key: Option<String> = None;
    let ghost mut class_at: int = 0;
    let ghost mut tag_at: int = 0;
    let mut i: usize = 0;
    while i < parts.len()
        invariant_except_break
            i <= ps.len(),
            ps == parts@,
            forall|j: int| 0 <= j < i ==> !passes(#[trigger] ps[j], PartTest::Combinator),
            forall|j: int| 0 <= j < i ==> !passes(#[trigger] ps[j], PartTest::Id),
            class_key is None ==> forall|j: int| 0 <= j < i ==> !passes(#[trigger] ps[j], PartTest::Class),
            class_key matches Some(c) ==> 0 <= class_at < i && passes(ps[class_at], PartTest::Class)
                && part_text(ps[class_at]) == c@ && forall|j: int|
                0 <= j < class_at ==> !passes(#[trigger] ps[j], PartTest::Class),
            tag_key is None ==> forall|j: int| 0 <= j < i ==> !passes(#[trigger] ps[j], PartTest::Tag),
            tag_key matches Some(t) ==> 0 <= tag_at < i && passes(ps[tag_at], PartTest::Tag) && part_text(
                ps[tag_at],
            ) == t@ && forall|j: int| 0 <= j < tag_at ==> !passes(#[trigger] ps[j], PartTest::Tag),
        ensures
            i <= ps.len(),
            ps == parts@,
            forall|j: int| 0 <= j < i ==> !passes(#[trigger] ps[j], PartTest::Id),
            i < ps.len() ==> passes(ps[i as int], PartTest::Combinator),
            forall|j: int| 0 <= j < i ==> !passes(#[trigger] ps[j], PartTest::Combinator),
            class_key is None ==> forall|j: int| 0 <= j < i ==> !passes(#[trigger] ps[j], PartTest::Class),
            class_key matches Some(c) ==> 0 <= class_at < i && passes(ps[class_at], PartTest::Class)
                && part_text(ps[class_at]) == c@ && forall|j: int|
                0 <= j < class_at ==> !passes(#[trigger] ps[j], PartTest::Class),
            tag_key is None ==> forall|j: int| 0 <= j < i ==> !passes(#[trigger] ps[j], PartTest::Tag),
            tag_key matches Some(t) ==> 0 <= tag_at < i && passes(ps[tag_at], PartTest::Tag) && part_text(
                ps[tag_at],
            ) == t@ && forall|j: int| 0 <= j < tag_at ==> !passes(#[trigger] ps[j], PartTest::Tag),
        decreases ps.len() - i,
    {
        match &parts[i] {
            SelectorPart::Id(id) => {
                proof {
                    let ii = i as int;
                    assert(passes(ps[ii], PartTest::Id));
                    assert(!passes(ps[ii], PartTest::Combinator));
                    assert forall|j: int| 0 <= j < ii + 1 implies !passes(
                        #[trigger] ps[j],
                        PartTest::Combinator,
                    ) by {}
                    lemma_first_where_none(ps, PartTest::Combinator, 0, ii + 1);
                    lemma_first_where_is(ps, PartTest::Id, ii);
                }
                return BucketKey::Id(id.clone());
            },
            SelectorPart::Class(c) => {
                if class_key.is_none() {
                    proof {
                        class_at = i as int;
                    }
                    class_key = Some(c.clone());
                }
            },
            SelectorPart::Tag(t) => {
                if tag_key.is_none() {
                    proof {
                        tag_at = i as int;
                    }
                    tag_key = Some(t.clone());
                }
            },
            SelectorPart::Combinator(_) => {
                break;
            },
            _ => {},
        }
        i = i + 1;
    }
    proof {
        lemma_first_where_none(ps, PartTest::Combinator, 0, i as int);
        lemma_first_where_bounds(ps, PartTest::Combinator, 0);
        if i < ps.len() {
            lemma_first_where_is(ps, PartTest::Combinator, i as int);
        }
        assert(subject_len(ps) == i);
        lemma_first_where_none(ps, PartTest::Id, 0, i as int);
        match class_key {
            Some(_) => {
                lemma_first_where_is(ps, PartTest::Class, class_at);
            },
            None => {
                lemma_first_where_none(ps, PartTest::Class, 0, i as int);
            },
        }
        match tag_key {
            Some(_) => {
                lemma_first_where_is(ps, PartTest::Tag, tag_at);
            },
            None => {
                lemma_first_where_none(ps, PartTest::Tag, 0, i as int);
            },
        }
    }
    match class_key {
        Some(c) => BucketKey::Class(c),
        None => match tag_key {
            Some(t) => BucketKey::Tag(t),
            None => BucketKey::Universal,
        },
    }
}

/// The rules of the style sheets, in buckets by what an element must have
/// for a rule to match it: an id, a class, a tag, or nothing in particular.
pub struct CascadeData<S, D> {
    rules_by_id: Vec<(String, Vec<BulmaRule<S, D>>)>,
    rules_by_class: Vec<(String, Vec<BulmaRule<S, D>>)>,
    rules_by_tag: Vec<(String, Vec<BulmaRule<S, D>>)>,
    universal_rules: Vec<BulmaRule<S, D>>,
    num_selectors: usize,
    num_declarations: usize,
}

impl<S, D> CascadeData<S, D> {
    /// The rules in the bucket of the id `name`, in the order of insertion.
    pub closed spec fn id_rules(&self, name: Seq<char>) -> Seq<BulmaRule<S, D>> {
        named_values(self.rules_by_id@, name)
    }

    pub closed spec fn has_id_bucket(&self, name: Seq<char>) -> bool {
        has_name(self.rules_by_id@, name)
    }

    /// The rules in the bucket of the class `name`, in the order of insertion.
    pub closed spec fn class_rules(&self, name: Seq<char>) -> Seq<BulmaRule<S, D>> {
        named_values(self.rules_by_class@, name)
    }

    pub closed spec fn has_class_bucket(&self, name: Seq<char>) -> bool {
        has_name(self.rules_by_class@, name)
    }

    /// The rules in the bucket of the tag `name`, in the order of insertion.
    pub closed spec fn tag_rules(&self, name: Seq<char>) -> Seq<BulmaRule<S, D>> {
        named_values(self.rules_by_tag@, name)
    }

    pub closed spec fn has_tag_bucket(&self, name: Seq<char>) -> bool {
        has_name(self.rules_by_tag@, name)
    }

    /// The rules that every element must be matched against.
    pub closed spec fn universal(&self) -> Seq<BulmaRule<S, D>> {
        self.universal_rules@
    }

    pub closed spec fn spec_num_selectors(&self) -> usize {
        self.num_selectors
    }

    pub closed spec fn spec_num_declarations(&self) -> usize {
        self.num_declarations
    }

    /// Whether the data holds nothing.
    pub open spec fn is_empty_data(&self) -> bool {
        &&& forall|n: Seq<char>|
            !#[trigger] self.has_id_bucket(n) && self.id_rules(n) == Seq::<BulmaRule<S, D>>::empty()
        &&& forall|n: Seq<char>|
            !#[trigger] self.has_class_bucket(n) && self.class_rules(n) == Seq::<
                BulmaRule<S, D>,
            >::empty()
        &&& forall|n: Seq<char>|
            !#[trigger] self.has_tag_bucket(n) && self.tag_rules(n) == Seq::<BulmaRule<S, D>>::empty()
        &&& self.universal() == Seq::<BulmaRule<S, D>>::empty()
        &&& self.spec_num_selectors() == 0
        &&& self.spec_num_declarations() == 0
    }

    proof fn lemma_empty(&self)
        requires
            self.rules_by_id@.len() == 0,
            self.rules_by_class@.len() == 0,
            self.rules_by_tag@.len() == 0,
            self.universal_rules@.len() == 0,
            self.num_selectors == 0,
            self.num_declarations == 0,
        ensures
            self.is_empty_data(),
    {
        assert forall|n: Seq<char>| !#[trigger] self.has_id_bucket(n) by {}
        assert forall|n: Seq<char>| !#[trigger] self.has_class_bucket(n) by {}
        assert forall|n: Seq<char>| !#[trigger] self.has_tag_bucket(n) by {}
        assert(self.universal_rules@ =~= Seq::<BulmaRule<S, D>>::empty());
    }

    pub fn new() -> (d: Self)
        ensures
            d.is_empty_data(),
    {
        let d = CascadeData {
            rules_by_id: Vec::new(),
            rules_by_class: Vec::new(),
            rules_by_tag: Vec::new(),
            universal_rules: Vec::new(),
            num_selectors: 0,
            num_declarations: 0,
        };
        proof {
            d.lemma_empty();
        }
        d
    }

    /// The number of selectors inserted since the data was made or cleared.
    pub fn num_selectors(&self) -> (r: usize)
        ensures
            r == self.spec_num_selectors(),
    {
        self.num_selectors
    }

    /// The number of declarations of the rules inserted since the data was
    /// made or cleared, counted once per selector.
    pub fn num_declarations(&self) -> (r: usize)
        ensures
            r == self.spec_num_declarations(),
    {
        self.num_declarations
    }

    /// The rules that may match an element with the id `id`.
    pub fn rules_by_id(&self, id: &String) -> (r: Option<&Vec<BulmaRule<S, D>>>)
        ensures
            r is None <==> !self.has_id_bucket(id@),
            r matches Some(v) ==> v@ == self.id_rules(id@),
    {
        find_named(&self.rules_by_id, id)
    }

    /// The rules that may match an element with the class `class`.
    pub fn rules_by_class(&self, class: &String) -> (r: Option<&Vec<BulmaRule<S, D>>>)
        ensures
            r is None <==> !self.has_class_bucket(class@),
            r matches Some(v) ==> v@ == self.class_rules(class@),
    {
        find_named(&self.rules_by_class, class)
    }

    /// The rules that may match an element with the tag `tag`.
    pub fn rules_by_tag(&self, tag: &String) -> (r: Option<&Vec<BulmaRule<S, D>>>)
        ensures
            r is None <==> !self.has_tag_bucket(tag@),
            r matches Some(v) ==> v@ == self.tag_rules(tag@),
    {
        find_named(&self.rules_by_tag, tag)
    }

    /// The rules that every element must be matched against.
    pub fn universal_rules(&self) -> (r: &[BulmaRule<S, D>])
        ensures
            r@ == self.universal(),
    {
        self.universal_rules.as_slice()
    }

    /// Puts a rule in the bucket of its selector, and counts it.
    pub fn insert(&mut self, rule: BulmaRule<S, D>)
        requires
            old(self).spec_num_selectors() < usize::MAX,
            old(self).spec_num_declarations() + rule.declarations@.len() <= usize::MAX,
        ensures
            final(self).spec_num_selectors() == old(self).spec_num_selectors() + 1,
            final(self).spec_num_declarations() == old(self).spec_num_declarations()
                + rule.declarations@.len(),
            forall|n: Seq<char>|
                #[trigger] final(self).id_rules(n) == if spec_bucket(rule.parts@) == (0int, n) {
                    old(self).id_rules(n).push(rule)
                } else {
                    old(self).id_rules(n)
                },
            forall|n: Seq<char>|
                #[trigger] final(self).has_id_bucket(n) == (old(self).has_id_bucket(n)
                    || spec_bucket(rule.parts@) == (0int, n)),
            forall|n: Seq<char>|
                #[trigger] final(self).class_rules(n) == if spec_bucket(rule.parts@) == (1int, n) {
                    old(self).class_rules(n).push(rule)
                } else {
                    old(self).class_rules(n)
                },
            forall|n: Seq<char>|
                #[trigger] final(self).has_class_bucket(n) == (old(self).has_class_bucket(n)
                    || spec_bucket(rule.parts@) == (1int, n)),
            forall|n: Seq<char>|
                #[trigger] final(self).tag_rules(n) == if spec_bucket(rule.parts@) == (2int, n) {
                    old(self).tag_rules(n).push(rule)
                } else {
                    old(self).tag_rules(n)
                },
            forall|n: Seq<char>|
                #[trigger] final(self).has_tag_bucket(n) == (old(self).has_tag_bucket(n)
                    || spec_bucket(rule.parts@) == (2int, n)),
            final(self).universal() == if spec_bucket(rule.parts@).0 == 3 {
                old(self).universal().push(rule)
            } else {
                old(self).universal()
            },
    {
        self.num_selectors = self.num_selectors + 1;
        self.num_declarations = self.num_declarations + rule.declarations.len();
        let key = extract_bucket_key(&rule.parts);
        match key {
            BucketKey::Id(id) => push_named(&mut self.rules_by_id, &id, rule),
            BucketKey::Class(class) => push_named(&mut self.rules_by_class, &class, rule),
            BucketKey::Tag(tag) => push_named(&mut self.rules_by_tag, &tag, rule),
            BucketKey::Universal => self.universal_rules.push(rule),
        }
    }

    /// Forgets every rule and resets the counts.
    pub fn clear(&mut self)
        ensures
            final(self).is_empty_data(),
    {
        self.rules_by_id.clear();
        self.rules_by_class.clear();
        self.rules_by_tag.clear();
        self.universal_rules.clear();
        self.num_selectors = 0;
        self.num_declarations = 0;
        proof {
            self.lemma_empty();
        }
    }
}

impl<S, D> Default for CascadeData<S, D> {
    fn default() -> (d: Self)
        ensures
            d.is_empty_data(),
    {
        Self::new()
    }
}

/// Whether `new` is `old` with rules of source order `order` added at the
/// end.
pub open spec fn grown_with<S, D>(old: Seq<BulmaRule<S, D>>, new: Seq<BulmaRule<S, D>>, order: u32) -> bool {
    &&& new.len() >= old.len()
    &&& new.subrange(0, old.len() as int) == old
    &&& forall|k: int| old.len() <= k < new.len() ==> (#[trigger] new[k]).source_order == order
}

/// Whether every bucket of `b` is that of `a` with rules of source order
/// `order` added at the end.
pub open spec fn data_grown_with<S, D>(a: CascadeData<S, D>, b: CascadeData<S, D>, order: u32) -> bool {
    &&& forall|n: Seq<char>| #[trigger] grown_with(a.id_rules(n), b.id_rules(n), order)
    &&& forall|n: Seq<char>| #[trigger] grown_with(a.class_rules(n), b.class_rules(n), order)
    &&& forall|n: Seq<char>| #[trigger] grown_with(a.tag_rules(n), b.tag_rules(n), order)
    &&& grown_with(a.universal(), b.universal(), order)
}

pub proof fn lemma_grown_with_refl<S, D>(a: Seq<BulmaRule<S, D>>, order: u32)
    ensures
        grown_with(a, a, order),
{
    assert(a.subrange(0, a.len() as int) =~= a);
}

pub proof fn lemma_grown_with_push<S, D>(a: Seq<BulmaRule<S, D>>, r: BulmaRule<S, D>)
    ensures
        grown_with(a, a.push(r), r.source_order),
{
    assert(a.push(r).subrange(0, a.len() as int) =~= a);
}

pub proof fn lemma_grown_with_trans<S, D>(
    a: Seq<BulmaRule<S, D>>,
    b: Seq<BulmaRule<S, D>>,
    c: Seq<BulmaRule<S, D>>,
    order: u32,
)
    requires
        grown_with(a, b, order),
        grown_with(b, c, order),
    ensures
        grown_with(a, c, order),
{
    assert(c.subrange(0, a.len() as int) =~= c.subrange(0, b.len() as int).subrange(0, a.len() as int));
    assert forall|k: int| a.len() <= k < c.len() implies (#[trigger] c[k]).source_order == order by {
        if k < b.len() {
            assert(c[k] == c.subrange(0, b.len() as int)[k]);
            assert(b[k].source_order == order);
        }
    }
}

impl<S, D> CascadeData<S, D> {
    /// Inserting a rule adds it at the end of one bucket.
    pub proof fn lemma_insert_grows(a: Self, b: Self, rule: BulmaRule<S, D>)
        requires
            forall|n: Seq<char>|
                #[trigger] b.id_rules(n) == if spec_bucket(rule.parts@) == (0int, n) {
                    a.id_rules(n).push(rule)
                } else {
                    a.id_rules(n)
                },
            forall|n: Seq<char>|
                #[trigger] b.class_rules(n) == if spec_bucket(rule.parts@) == (1int, n) {
                    a.class_rules(n).push(rule)
                } else {
                    a.class_rules(n)
                },
            forall|n: Seq<char>|
                #[trigger] b.tag_rules(n) == if spec_bucket(rule.parts@) == (2int, n) {
                    a.tag_rules(n).push(rule)
                } else {
                    a.tag_rules(n)
                },
            b.universal() == if spec_bucket(rule.parts@).0 == 3 {
                a.universal().push(rule)
            } else {
                a.universal()
            },
        ensures
            data_grown_with(a, b, rule.source_order),
    {
        assert forall|n: Seq<char>| #[trigger] grown_with(a.id_rules(n), b.id_rules(n), rule.source_order) by {
            lemma_grown_with_refl(a.id_rules(n), rule.source_order);
            lemma_grown_with_push(a.id_rules(n), rule);
        }
        assert forall|n: Seq<char>| #[trigger] grown_with(a.class_rules(n), b.class_rules(n), rule.source_order) by {
            lemma_grown_with_refl(a.class_rules(n), rule.source_order);
            lemma_grown_with_push(a.class_rules(n), rule);
        }
        assert forall|n: Seq<char>| #[trigger] grown_with(a.tag_rules(n), b.tag_rules(n), rule.source_order) by {
            lemma_grown_with_refl(a.tag_rules(n), rule.source_order);
            lemma_grown_with_push(a.tag_rules(n), rule);
        }
        lemma_grown_with_refl(a.universal(), rule.source_order);
        lemma_grown_with_push(a.universal(), rule);
    }

    pub proof fn lemma_data_grown_refl(a: Self, order: u32)
        ensures
            data_grown_with(a, a, order),
    {
        assert forall|n: Seq<char>| #[trigger] grown_with(a.id_rules(n), a.id_rules(n), order) by {
            lemma_grown_with_refl(a.id_rules(n), order);
        }
        assert forall|n: Seq<char>| #[trigger] grown_with(a.class_rules(n), a.class_rules(n), order) by {
            lemma_grown_with_refl(a.class_rules(n), order);
        }
        assert forall|n: Seq<char>| #[trigger] grown_with(a.tag_rules(n), a.tag_rules(n), order) by {
            lemma_grown_with_refl(a.tag_rules(n), order);
        }
        lemma_grown_with_refl(a.universal(), order);
    }

    pub proof fn lemma_data_grown_trans(a: Self, b: Self, c: Self, order: u32)
        requires
            data_grown_with(a, b, order),
            data_grown_with(b, c, order),
        ensures
            data_grown_with(a, c, order),
    {
        assert forall|n: Seq<char>| #[trigger] grown_with(a.id_rules(n), c.id_rules(n), order) by {
            lemma_grown_with_trans(a.id_rules(n), b.id_rules(n), c.id_rules(n), order);
        }
        assert forall|n: Seq<char>| #[trigger] grown_with(a.class_rules(n), c.class_rules(n), order) by {
            lemma_grown_with_trans(a.class_rules(n), b.class_rules(n), c.class_rules(n), order);
        }
        assert forall|n: Seq<char>| #[trigger] grown_with(a.tag_rules(n), c.tag_rules(n), order) by {
            lemma_grown_with_trans(a.tag_rules(n), b.tag_rules(n), c.tag_rules(n), order);
        }
        lemma_grown_with_trans(a.universal(), b.universal(), c.universal(), order);
    }
}


/// The entries of `es` whose rules go into the bucket `key`, in order.
pub open spec fn bucket_entries<S, D>(es: Seq<SheetEntry<S, D>>, key: (int, Seq<char>)) -> Seq<
    SheetEntry<S, D>,
>
    decreases es.len(),
{
    if es.len() == 0 {
        Seq::empty()
    } else if spec_bucket(es.last().parts) == key {
        bucket_entries(es.drop_last(), key).push(es.last())
    } else {
        bucket_entries(es.drop_last(), key)
    }
}

/// The bucket of the rules that every element is matched against.
pub open spec fn universal_key() -> (int, Seq<char>) {
    (3int, Seq::empty())
}

/// Whether `r` is the engine's rule for the entry `e`, with source order
/// `order`: a clone of its selector, its parts and specificity, and clones
/// of its rule's declarations.
pub open spec fn made_from<S: Clone, D: Clone>(
    r: BulmaRule<S, D>,
    e: SheetEntry<S, D>,
    order: u32,
) -> bool {
    &&& cloned(e.selector, r.selector)
    &&& r.parts@ == e.parts
    &&& r.specificity == e.specificity
    &&& r.declarations@.len() == e.declarations.len()
    &&& forall|i: int|
        0 <= i < e.declarations.len() ==> cloned(e.declarations[i], #[trigger] r.declarations@[i])
    &&& r.source_order == order
}

/// Whether `new` is `old` followed by the rules made from `es`, in order,
/// with source order `order`.
pub open spec fn grown_by<S: Clone, D: Clone>(
    old: Seq<BulmaRule<S, D>>,
    new: Seq<BulmaRule<S, D>>,
    es: Seq<SheetEntry<S, D>>,
    order: u32,
) -> bool {
    &&& new.len() == old.len() + es.len()
    &&& new.subrange(0, old.len() as int) == old
    &&& forall|k: int| old.len() <= k < new.len() ==> made_from(#[trigger] new[k], es[k - old.len()], order)
}

/// Whether each bucket of `b` is that of `a` followed by the rules made
/// from the entries of `es` that go into it, and `b` has a bucket where
/// `a` has one or an entry went.
pub open spec fn data_grown_by<S: Clone, D: Clone>(
    a: CascadeData<S, D>,
    b: CascadeData<S, D>,
    es: Seq<SheetEntry<S, D>>,
    order: u32,
) -> bool {
    &&& forall|n: Seq<char>| #[trigger]
        grown_by(a.id_rules(n), b.id_rules(n), bucket_entries(es, (0int, n)), order)
    &&& forall|n: Seq<char>| #[trigger]
        grown_by(a.class_rules(n), b.class_rules(n), bucket_entries(es, (1int, n)), order)
    &&& forall|n: Seq<char>| #[trigger]
        grown_by(a.tag_rules(n), b.tag_rules(n), bucket_entries(es, (2int, n)), order)
    &&& grown_by(a.universal(), b.universal(), bucket_entries(es, universal_key()), order)
    &&& forall|n: Seq<char>| #[trigger]
        b.has_id_bucket(n) == (a.has_id_bucket(n) || bucket_entries(es, (0int, n)).len() > 0)
    &&& forall|n: Seq<char>| #[trigger]
        b.has_class_bucket(n) == (a.has_class_bucket(n) || bucket_entries(es, (1int, n)).len() > 0)
    &&& forall|n: Seq<char>| #[trigger]
        b.has_tag_bucket(n) == (a.has_tag_bucket(n) || bucket_entries(es, (2int, n)).len() > 0)
}

/// The entries of two sequences that go into a bucket are those of the
/// first, then those of the second.
pub proof fn lemma_bucket_entries_add<S, D>(
    a: Seq<SheetEntry<S, D>>,
    b: Seq<SheetEntry<S, D>>,
    key: (int, Seq<char>),
)
    ensures
        bucket_entries(a + b, key) == bucket_entries(a, key) + bucket_entries(b, key),
    decreases b.len(),
{
    if b.len() == 0 {
        assert(a + b =~= a);
        assert(bucket_entries(a, key) + bucket_entries(b, key) =~= bucket_entries(a, key));
    } else {
        assert((a + b).drop_last() =~= a + b.drop_last());
        assert((a + b).last() == b.last());
        lemma_bucket_entries_add(a, b.drop_last(), key);
        if spec_bucket(b.last().parts) == key {
            assert(bucket_entries(a, key) + bucket_entries(b.drop_last(), key).push(b.last())
                =~= (bucket_entries(a, key) + bucket_entries(b.drop_last(), key)).push(b.last()));
        }
    }
}

proof fn lemma_bucket_entries_one<S, D>(e: SheetEntry<S, D>, key: (int, Seq<char>))
    ensures
        bucket_entries(seq![e], key) == if spec_bucket(e.parts) == key {
            seq![e]
        } else {
            Seq::<SheetEntry<S, D>>::empty()
        },
{
    let s = seq![e];
    assert(s.len() == 1);
    assert(s.drop_last() =~= Seq::<SheetEntry<S, D>>::empty());
    assert(s.last() == e);
    assert(bucket_entries(s.drop_last(), key) == Seq::<SheetEntry<S, D>>::empty());
    assert(Seq::<SheetEntry<S, D>>::empty().push(e) =~= s);
}

proof fn lemma_grown_by_refl<S: Clone, D: Clone>(a: Seq<BulmaRule<S, D>>, order: u32)
    ensures
        grown_by(a, a, Seq::empty(), order),
{
    assert(a.subrange(0, a.len() as int) =~= a);
}

proof fn lemma_grown_by_push<S: Clone, D: Clone>(
    a: Seq<BulmaRule<S, D>>,
    r: BulmaRule<S, D>,
    e: SheetEntry<S, D>,
    order: u32,
)
    requires
        made_from(r, e, order),
    ensures
        grown_by(a, a.push(r), seq![e], order),
{
    assert(a.push(r).subrange(0, a.len() as int) =~= a);
    assert(a.push(r)[a.len() as int] == r);
}

proof fn lemma_grown_by_trans<S: Clone, D: Clone>(
    a: Seq<BulmaRule<S, D>>,
    b: Seq<BulmaRule<S, D>>,
    c: Seq<BulmaRule<S, D>>,
    e1: Seq<SheetEntry<S, D>>,
    e2: Seq<SheetEntry<S, D>>,
    order: u32,
)
    requires
        grown_by(a, b, e1, order),
        grown_by(b, c, e2, order),
    ensures
        grown_by(a, c, e1 + e2, order),
{
    assert(c.subrange(0, a.len() as int) =~= c.subrange(0, b.len() as int).subrange(0, a.len() as int));
    assert forall|k: int| a.len() <= k < c.len() implies made_from(
        #[trigger] c[k],
        (e1 + e2)[k - a.len()],
        order,
    ) by {
        if k < b.len() {
            assert(c[k] == c.subrange(0, b.len() as int)[k]);
            assert(made_from(b[k], e1[k - a.len()], order));
        } else {
            assert(made_from(c[k], e2[k - b.len()], order));
        }
    }
}

impl<S: Clone, D: Clone> CascadeData<S, D> {
    /// Inserting the rule made from an entry adds it at the end of the
    /// entry's bucket.
    pub proof fn lemma_insert_grown_by(a: Self, b: Self, rule: BulmaRule<S, D>, e: SheetEntry<S, D>, order: u32)
        requires
            made_from(rule, e, order),
            forall|n: Seq<char>|
                #[trigger] b.id_rules(n) == if spec_bucket(rule.parts@) == (0int, n) {
                    a.id_rules(n).push(rule)
                } else {
                    a.id_rules(n)
                },
            forall|n: Seq<char>|
                #[trigger] b.has_id_bucket(n) == (a.has_id_bucket(n) || spec_bucket(rule.parts@)
                    == (0int, n)),
            forall|n: Seq<char>|
                #[trigger] b.class_rules(n) == if spec_bucket(rule.parts@) == (1int, n) {
                    a.class_rules(n).push(rule)
                } else {
                    a.class_rules(n)
                },
            forall|n: Seq<char>|
                #[trigger] b.has_class_bucket(n) == (a.has_class_bucket(n) || spec_bucket(
                    rule.parts@,
                ) == (1int, n)),
            forall|n: Seq<char>|
                #[trigger] b.tag_rules(n) == if spec_bucket(rule.parts@) == (2int, n) {
                    a.tag_rules(n).push(rule)
                } else {
                    a.tag_rules(n)
                },
            forall|n: Seq<char>|
                #[trigger] b.has_tag_bucket(n) == (a.has_tag_bucket(n) || spec_bucket(rule.parts@)
                    == (2int, n)),
            b.universal() == if spec_bucket(rule.parts@).0 == 3 {
                a.universal().push(rule)
            } else {
                a.universal()
            },
        ensures
            data_grown_by(a, b, seq![e], order),
    {
        assert forall|n: Seq<char>| #[trigger]
            grown_by(a.id_rules(n), b.id_rules(n), bucket_entries(seq![e], (0int, n)), order) by {
            lemma_bucket_entries_one(e, (0int, n));
            lemma_grown_by_refl(a.id_rules(n), order);
            lemma_grown_by_push(a.id_rules(n), rule, e, order);
        }
        assert forall|n: Seq<char>| #[trigger]
            grown_by(a.class_rules(n), b.class_rules(n), bucket_entries(seq![e], (1int, n)), order) by {
            lemma_bucket_entries_one(e, (1int, n));
            lemma_grown_by_refl(a.class_rules(n), order);
            lemma_grown_by_push(a.class_rules(n), rule, e, order);
        }
        assert forall|n: Seq<char>| #[trigger]
            grown_by(a.tag_rules(n), b.tag_rules(n), bucket_entries(seq![e], (2int, n)), order) by {
            lemma_bucket_entries_one(e, (2int, n));
            lemma_grown_by_refl(a.tag_rules(n), order);
            lemma_grown_by_push(a.tag_rules(n), rule, e, order);
        }
        lemma_bucket_entries_one(e, universal_key());
        lemma_grown_by_refl(a.universal(), order);
        lemma_grown_by_push(a.universal(), rule, e, order);
        assert forall|n: Seq<char>| #[trigger] b.has_id_bucket(n) == (a.has_id_bucket(n)
            || bucket_entries(seq![e], (0int, n)).len() > 0) by {
            lemma_bucket_entries_one(e, (0int, n));
        }
        assert forall|n: Seq<char>| #[trigger] b.has_class_bucket(n) == (a.has_class_bucket(n)
            || bucket_entries(seq![e], (1int, n)).len() > 0) by {
            lemma_bucket_entries_one(e, (1int, n));
        }
        assert forall|n: Seq<char>| #[trigger] b.has_tag_bucket(n) == (a.has_tag_bucket(n)
            || bucket_entries(seq![e], (2int, n)).len() > 0) by {
            lemma_bucket_entries_one(e, (2int, n));
        }
    }

    pub proof fn lemma_data_grown_by_refl(a: Self, order: u32)
        ensures
            data_grown_by(a, a, Seq::empty(), order),
    {
        assert forall|n: Seq<char>| #[trigger]
            grown_by(a.id_rules(n), a.id_rules(n), bucket_entries(Seq::<SheetEntry<S, D>>::empty(), (0int, n)), order) by {
            lemma_grown_by_refl(a.id_rules(n), order);
        }
        assert forall|n: Seq<char>| #[trigger]
            grown_by(a.class_rules(n), a.class_rules(n), bucket_entries(Seq::<SheetEntry<S, D>>::empty(), (1int, n)), order) by {
            lemma_grown_by_refl(a.class_rules(n), order);
        }
        assert forall|n: Seq<char>| #[trigger]
            grown_by(a.tag_rules(n), a.tag_rules(n), bucket_entries(Seq::<SheetEntry<S, D>>::empty(), (2int, n)), order) by {
            lemma_grown_by_refl(a.tag_rules(n), order);
        }
        lemma_grown_by_refl(a.universal(), order);
    }

    pub proof fn lemma_data_grown_by_trans(
        a: Self,
        b: Self,
        c: Self,
        e1: Seq<SheetEntry<S, D>>,
        e2: Seq<SheetEntry<S, D>>,
        order: u32,
    )
        requires
            data_grown_by(a, b, e1, order),
            data_grown_by(b, c, e2, order),
        ensures
            data_grown_by(a, c, e1 + e2, order),
    {
        assert forall|n: Seq<char>| #[trigger]
            grown_by(a.id_rules(n), c.id_rules(n), bucket_entries(e1 + e2, (0int, n)), order) by {
            lemma_bucket_entries_add(e1, e2, (0int, n));
            lemma_grown_by_trans(a.id_rules(n), b.id_rules(n), c.id_rules(n), bucket_entries(e1, (0int, n)), bucket_entries(e2, (0int, n)), order);
        }
        assert forall|n: Seq<char>| #[trigger]
            grown_by(a.class_rules(n), c.class_rules(n), bucket_entries(e1 + e2, (1int, n)), order) by {
            lemma_bucket_entries_add(e1, e2, (1int, n));
            lemma_grown_by_trans(a.class_rules(n), b.class_rules(n), c.class_rules(n), bucket_entries(e1, (1int, n)), bucket_entries(e2, (1int, n)), order);
        }
        assert forall|n: Seq<char>| #[trigger]
            grown_by(a.tag_rules(n), c.tag_rules(n), bucket_entries(e1 + e2, (2int, n)), order) by {
            lemma_bucket_entries_add(e1, e2, (2int, n));
            lemma_grown_by_trans(a.tag_rules(n), b.tag_rules(n), c.tag_rules(n), bucket_entries(e1, (2int, n)), bucket_entries(e2, (2int, n)), order);
        }
        lemma_bucket_entries_add(e1, e2, universal_key());
        lemma_grown_by_trans(a.universal(), b.universal(), c.universal(), bucket_entries(e1, universal_key()), bucket_entries(e2, universal_key()), order);
        assert forall|n: Seq<char>| #[trigger] c.has_id_bucket(n) == (a.has_id_bucket(n)
            || bucket_entries(e1 + e2, (0int, n)).len() > 0) by {
            lemma_bucket_entries_add(e1, e2, (0int, n));
        }
        assert forall|n: Seq<char>| #[trigger] c.has_class_bucket(n) == (a.has_class_bucket(n)
            || bucket_entries(e1 + e2, (1int, n)).len() > 0) by {
            lemma_bucket_entries_add(e1, e2, (1int, n));
        }
        assert forall|n: Seq<char>| #[trigger] c.has_tag_bucket(n) == (a.has_tag_bucket(n)
            || bucket_entries(e1 + e2, (2int, n)).len() > 0) by {
            lemma_bucket_entries_add(e1, e2, (2int, n));
        }
    }
}

} // verus!
