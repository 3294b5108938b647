use vstd::prelude::*;

use vstd::string::{StringExecFns, StringSliceAdditionalSpecFns};
use vstd::utf8::{
    decode_utf8, encode_utf8, encode_utf8_decode_utf8, encode_utf8_valid_utf8, is_char_boundary,
    is_char_boundary_iff_not_is_continuation_byte, is_char_boundary_start_end_of_seq, valid_utf8,
    valid_utf8_split,
};

verus! {

/// The characters that the bytes `a..b` of `s` encode.
pub open spec fn text_between(s: Seq<char>, a: int, b: int) -> Seq<char> {
    decode_utf8(encode_utf8(s).subrange(a, b))
}

/// Whether byte `i` of the UTF-8 encoding of `s` starts a character (or
/// ends the text).
pub open spec fn at_boundary(s: Seq<char>, i: int) -> bool {
    is_char_boundary(encode_utf8(s), i)
}

proof fn lemma_boundary_in_prefix(bytes: Seq<u8>, a: int, b: int)
    requires
        valid_utf8(bytes),
        0 <= a <= b <= bytes.len(),
        is_char_boundary(bytes, a),
        is_char_boundary(bytes, b),
    ensures
        valid_utf8(bytes.subrange(0, b)),
        is_char_boundary(bytes.subrange(0, b), a),
{
    valid_utf8_split(bytes, b);
    let sub = bytes.subrange(0, b);
    is_char_boundary_start_end_of_seq(sub);
    if 0 < a < b {
        is_char_boundary_iff_not_is_continuation_byte(bytes, a);
        is_char_boundary_iff_not_is_continuation_byte(sub, a);
        assert(sub[a] == bytes[a]);
    }
    if a == b {
        assert(sub.len() == b);
    }
}

/// The bytes `a..b` of `s`, as text.
pub(crate) fn slice_bytes(s: &str, a: usize, b: usize) -> (r: &str)
    requires
        a <= b <= encode_utf8(s@).len(),
        at_boundary(s@, a as int),
        at_boundary(s@, b as int),
    ensures
        r@ == text_between(s@, a as int, b as int),
{
    proof {
        encode_utf8_valid_utf8(s@);
        lemma_boundary_in_prefix(encode_utf8(s@), a as int, b as int);
    }
    let (head, _) = s.split_at(b);
    let (_, piece) = head.split_at(a);
    proof {
        let bytes = encode_utf8(s@);
        assert(piece.spec_bytes() =~= bytes.subrange(a as int, b as int));
        encode_utf8_decode_utf8(piece@);
    }
    piece
}

/// A token category of `cssparser`, which the library records but does not
/// read.
#[verifier::external_type_specification]
#[verifier::external_body]
pub struct ExTokenSerializationType(cssparser::TokenSerializationType);

/// The fallback of a `var()`: where its text starts.
#[derive(Debug)]
pub struct VarFallback {
    pub start: usize,
    pub first_token_type: cssparser::TokenSerializationType,
    pub last_token_type: cssparser::TokenSerializationType,
}

/// A `var()` in a value: the custom property it names, and the bytes
/// `start..end` of the value's text that it spans.
#[derive(Debug)]
pub struct VarReference {
    pub name: String,
    pub start: usize,
    pub end: usize,
    pub prev_token_type: cssparser::TokenSerializationType,
    pub next_token_type: cssparser::TokenSerializationType,
    pub fallback: Option<VarFallback>,
}

/// A value that uses custom properties: its text, and where in the text
/// each `var()` stands.
#[derive(Debug)]
pub struct UnresolvedValue {
    pub css: String,
    pub first_token_type: cssparser::TokenSerializationType,
    pub last_token_type: cssparser::TokenSerializationType,
    pub references: Vec<VarReference>,
}

/// Why a substitution failed.
#[derive(Debug, Clone, PartialEq, Eq)]
pub enum SubstituteError {
    /// A `var()` names a custom property without a value and has no
    /// fallback.
    UndefinedVariable(String),
}

/// Whether a reference fits the text `css`: it spans a whole number of
/// characters inside the text, and its fallback, if any, starts after its
/// own start and ends before its closing parenthesis.
pub open spec fn reference_fits(css: Seq<char>, r: VarReference) -> bool {
    &&& r.start < r.end <= encode_utf8(css).len()
    &&& at_boundary(css, r.start as int)
    &&& at_boundary(css, r.end as int)
    &&& r.fallback matches Some(fb) ==> {
        &&& r.start < fb.start <= r.end - 1
        &&& at_boundary(css, fb.start as int)
        &&& at_boundary(css, r.end - 1)
    }
}

/// The first reference, among those from `i` on, that starts in
/// `cursor..end`: the one with the smallest start, the earliest of equals.
pub open spec fn next_from(refs: Seq<VarReference>, cursor: int, end: int, i: int) -> Option<int>
    decreases refs.len() - i,
{
    if i < 0 || i >= refs.len() {
        None
    } else {
        let rest = next_from(refs, cursor, end, i + 1);
        if cursor <= refs[i].start < end {
            match rest {
                Some(j) => if refs[j].start < refs[i].start {
                    Some(j)
                } else {
                    Some(i)
                },
                None => Some(i),
            }
        } else {
            rest
        }
    }
}

pub proof fn lemma_next_from(refs: Seq<VarReference>, cursor: int, end: int, i: int)
    requires
        0 <= i,
    ensures
        next_from(refs, cursor, end, i) matches Some(k) ==> i <= k < refs.len() && cursor
            <= refs[k].start < end,
    decreases refs.len() - i,
{
    if i < refs.len() {
        lemma_next_from(refs, cursor, end, i + 1);
    }
}

impl Clone for VarFallback {
    fn clone(&self) -> (r: Self)
        ensures
            r == *self,
    {
        VarFallback {
            start: self.start,
            first_token_type: self.first_token_type,
            last_token_type: self.last_token_type,
        }
    }
}

impl Clone for VarReference {
    fn clone(&self) -> (r: Self)
        ensures
            r == *self,
    {
        let fallback = match &self.fallback {
            Some(f) => Some(f.clone()),
            None => None,
        };
        VarReference {
            name: self.name.clone(),
            start: self.start,
            end: self.end,
            prev_token_type: self.prev_token_type,
            next_token_type: self.next_token_type,
            fallback,
        }
    }
}

/// Whether two values have the same text, token types and references.
pub open spec fn same_unresolved(a: UnresolvedValue, b: UnresolvedValue) -> bool {
    &&& a.css == b.css
    &&& a.first_token_type == b.first_token_type
    &&& a.last_token_type == b.last_token_type
    &&& a.references@ == b.references@
}

impl Clone for UnresolvedValue {
    fn clone(&self) -> (r: Self)
        ensures
            same_unresolved(r, *self),
    {
        let mut references: Vec<VarReference> = Vec::new();
        let mut i: usize = 0;
        while i < self.references.len()
            invariant
                i <= self.references@.len(),
                references@ == self.references@.take(i as int),
            decreases self.references@.len() - i,
        {
            references.push(self.references[i].clone());
            proof {
                assert(self.references@.take(i as int + 1) =~= self.references@.take(i as int).push(
                    self.references@[i as int],
                ));
            }
            i = i + 1;
        }
        proof {
            assert(self.references@.take(self.references@.len() as int) =~= self.references@);
        }
        UnresolvedValue {
            css: self.css.clone(),
            first_token_type: self.first_token_type,
            last_token_type: self.last_token_type,
            references,
        }
    }
}

impl UnresolvedValue {
    /// Whether every reference fits the text.
    pub open spec fn wf(&self) -> bool {
        &&& encode_utf8(self.css@).len() <= usize::MAX
        &&& forall|k: int|
            0 <= k < self.references@.len() ==> reference_fits(
                self.css@,
                #[trigger] self.references@[k],
            )
    }

    /// The bytes `start..end` of the text with each `var()` in them
    /// replaced: by the property's value in `vars`, else by its fallback
    /// with its own `var()`s replaced; the name of the first property that
    /// has neither, if any.
    ///
    /// The `var()`s are taken by where they start; one that starts inside
    /// another that was replaced is part of it.
    pub open spec fn spec_substitute_range(
        &self,
        vars: Map<Seq<char>, Seq<char>>,
        start: int,
        end: int,
    ) -> Result<Seq<char>, Seq<char>>
        decreases encode_utf8(self.css@).len() - start, encode_utf8(self.css@).len() + 2 - start,
        when self.wf() && 0 <= start <= end <= encode_utf8(self.css@).len()
    {
        self.spec_substitute_from(vars, start, end, start, Seq::empty())
    }

    /// The rest of a substitution of `start..end` that has reached byte
    /// `cursor`, with `acc` the text so far.
    pub open spec fn spec_substitute_from(
        &self,
        vars: Map<Seq<char>, Seq<char>>,
        start: int,
        end: int,
        cursor: int,
        acc: Seq<char>,
    ) -> Result<Seq<char>, Seq<char>>
        decreases encode_utf8(self.css@).len() - start, encode_utf8(self.css@).len() + 1 - cursor,
        when self.wf() && 0 <= start <= cursor <= encode_utf8(self.css@).len() && end
            <= encode_utf8(self.css@).len()
    {
        let refs = self.references@;
        match next_from(refs, cursor, end, 0) {
            None => if cursor < end {
                Ok(acc + text_between(self.css@, cursor, end))
            } else {
                Ok(acc)
            },
            Some(k) => {
                proof {
                    lemma_next_from(refs, cursor, end, 0);
                    assert(reference_fits(self.css@, refs[k]));
                }
                let r = refs[k];
                let before = acc + text_between(self.css@, cursor, r.start as int);
                let value: Result<Seq<char>, Seq<char>> = if vars.contains_key(r.name@) {
                    Ok(vars[r.name@])
                } else {
                    match r.fallback {
                        Some(fb) => self.spec_substitute_range(vars, fb.start as int, r.end - 1),
                        None => Err(r.name@),
                    }
                };
                match value {
                    Ok(v) => self.spec_substitute_from(vars, start, end, r.end as int, before + v),
                    Err(e) => Err(e),
                }
            },
        }
    }
}

impl UnresolvedValue {
    /// Whether the value uses any custom property.
    pub fn has_references(&self) -> (r: bool)
        ensures
            r == (self.references@.len() > 0),
    {
        self.references.len() > 0
    }

    /// Whether every reference lies inside the text on character
    /// boundaries, with its fallback inside it (`wf`, for a text whose
    /// length fits in `usize`).
    pub fn is_well_formed(&self) -> (r: bool)
        ensures
            encode_utf8(self.css@).len() <= usize::MAX ==> (r == self.wf()),
    {
        let css = self.css.as_str();
        let n = css.len();
        let mut i: usize = 0;
        while i < self.references.len()
            invariant
                i <= self.references@.len(),
                encode_utf8(self.css@).len() <= usize::MAX ==> n == encode_utf8(self.css@).len(),
                css@ == self.css@,
                encode_utf8(self.css@).len() <= usize::MAX ==> forall|k: int|
                    0 <= k < i ==> reference_fits(self.css@, #[trigger] self.references@[k]),
            decreases self.references@.len() - i,
        {
            let r = &self.references[i];
            if !(r.start < r.end && r.end <= n && css.is_char_boundary(r.start)
                && css.is_char_boundary(r.end)) {
                return false;
            }
            match &r.fallback {
                Some(fb) => {
                    if !(r.start < fb.start && fb.start <= r.end - 1 && css.is_char_boundary(
                        fb.start,
                    ) && css.is_char_boundary(r.end - 1)) {
                        return false;
                    }
                },
                None => {},
            }
            i = i + 1;
        }
        true
    }

    /// The index of the next reference to replace: the one with the
    /// smallest start in `cursor..end`, the earliest of equals.
    fn next_reference(&self, cursor: usize, end: usize) -> (r: Option<usize>)
        ensures
            r matches Some(k) ==> next_from(self.references@, cursor as int, end as int, 0) == Some(
                k as int,
            ),
            r is None ==> next_from(self.references@, cursor as int, end as int, 0) is None,
    {
        let refs = &self.references;
        let mut j = refs.len();
        let mut best: Option<usize> = None;
        while j > 0
            invariant
                j <= refs@.len(),
                best matches Some(b) ==> b < refs@.len(),
                best matches Some(b) ==> next_from(refs@, cursor as int, end as int, j as int)
                    == Some(b as int),
                best is None ==> next_from(refs@, cursor as int, end as int, j as int) is None,
            decreases j,
        {
            let i = j - 1;
            proof {
                lemma_next_from(refs@, cursor as int, end as int, j as int);
            }
            let start = refs[i].start;
            if cursor <= start && start < end {
                best = match best {
                    Some(b) => if refs[b].start < start {
                        Some(b)
                    } else {
                        Some(i)
                    },
                    None => Some(i),
                };
            }
            j = i;
        }
        best
    }

    /// The bytes `range_start..range_end` of the text, each `var()` in them
    /// replaced as `spec_substitute_range` says.
    fn substitute_range(
        &self,
        vars: &crate::custom::CustomPropertiesMap,
        range_start: usize,
        range_end: usize,
    ) -> (r: Result<String, SubstituteError>)
        requires
            self.wf(),
            vars.wf(),
            range_start <= range_end <= encode_utf8(self.css@).len(),
            at_boundary(self.css@, range_start as int),
            at_boundary(self.css@, range_end as int),
        ensures
            match r {
                Ok(t) => self.spec_substitute_range(vars@, range_start as int, range_end as int)
                    == Ok::<Seq<char>, Seq<char>>(t@),
                Err(SubstituteError::UndefinedVariable(n)) => self.spec_substitute_range(
                    vars@,
                    range_start as int,
                    range_end as int,
                ) == Err::<Seq<char>, Seq<char>>(n@),
            },
        decreases encode_utf8(self.css@).len() - range_start,
    {
        let css = self.css.as_str();
        let mut result = String::new();
        let mut cursor = range_start;
        loop
            invariant
                self.wf(),
                vars.wf(),
                css@ == self.css@,
                range_start <= cursor <= encode_utf8(self.css@).len(),
                range_end <= encode_utf8(self.css@).len(),
                at_boundary(self.css@, cursor as int),
                at_boundary(self.css@, range_end as int),
                self.spec_substitute_range(vars@, range_start as int, range_end as int)
                    == self.spec_substitute_from(
                    vars@,
                    range_start as int,
                    range_end as int,
                    cursor as int,
                    result@,
                ),
            decreases encode_utf8(self.css@).len() - cursor,
        {
            let ghost acc0 = result@;
            let next = self.next_reference(cursor, range_end);
            match next {
                None => {
                    if cursor < range_end {
                        let tail = slice_bytes(css, cursor, range_end);
                        result.append(tail);
                    }
                    return Ok(result);
                },
                Some(k) => {
                    proof {
                        lemma_next_from(self.references@, cursor as int, range_end as int, 0);
                        assert(reference_fits(self.css@, self.references@[k as int]));
                    }
                    let reference = &self.references[k];
                    let before = slice_bytes(css, cursor, reference.start);
                    result.append(before);
                    match vars.get(reference.name.as_str()) {
                        Some(v) => {
                            result.append(v);
                        },
                        None => {
                            match &reference.fallback {
                                Some(fallback) => {
                                    let fallback_end = reference.end - 1;
                                    match self.substitute_range(vars, fallback.start, fallback_end) {
                                        Ok(v) => {
                                            result.append(v.as_str());
                                        },
                                        Err(e) => {
                                            return Err(e);
                                        },
                                    }
                                },
                                None => {
                                    return Err(
                                        SubstituteError::UndefinedVariable(reference.name.clone()),
                                    );
                                },
                            }
                        },
                    }
                    cursor = reference.end;
                },
            }
        }
    }

    /// The text with each `var()` replaced: by the property's value in
    /// `vars`, else by its fallback, substituted in turn; or the first
    /// property that has neither.
    pub fn substitute(&self, vars: &crate::custom::CustomPropertiesMap) -> (r: Result<
        String,
        SubstituteError,
    >)
        requires
            self.wf(),
            vars.wf(),
        ensures
            match r {
                Ok(t) => self.spec_substitute_range(vars@, 0, encode_utf8(self.css@).len() as int)
                    == Ok::<Seq<char>, Seq<char>>(t@),
                Err(SubstituteError::UndefinedVariable(n)) => self.spec_substitute_range(
                    vars@,
                    0,
                    encode_utf8(self.css@).len() as int,
                ) == Err::<Seq<char>, Seq<char>>(n@),
            },
    {
        proof {
            encode_utf8_valid_utf8(self.css@);
            is_char_boundary_start_end_of_seq(encode_utf8(self.css@));
        }
        let n = self.css.as_str().len();
        self.substitute_range(vars, 0, n)
    }
}


/// A value without `var()` substitutes to its own text, whatever the
/// custom properties.
pub proof fn lemma_substitute_without_references(
    u: UnresolvedValue,
    vars: Map<Seq<char>, Seq<char>>,
)
    requires
        u.wf(),
        u.references@.len() == 0,
    ensures
        u.spec_substitute_range(vars, 0, encode_utf8(u.css@).len() as int) == Ok::<
            Seq<char>,
            Seq<char>,
        >(u.css@),
{
    let bytes = encode_utf8(u.css@);
    encode_utf8_decode_utf8(u.css@);
    assert(next_from(u.references@, 0, bytes.len() as int, 0) is None);
    assert(bytes.subrange(0, bytes.len() as int) =~= bytes);
    if bytes.len() > 0 {
        assert(Seq::<char>::empty() + text_between(u.css@, 0, bytes.len() as int) =~= u.css@);
    } else {
        assert(bytes =~= Seq::<u8>::empty());
    }
}


/// Whether `a` and `b` agree on every property that `u` uses.
pub open spec fn agree_on_references(
    u: UnresolvedValue,
    a: Map<Seq<char>, Seq<char>>,
    b: Map<Seq<char>, Seq<char>>,
) -> bool {
    forall|k: int|
        0 <= k < u.references@.len() ==> {
            let n = (#[trigger] u.references@[k]).name@;
            &&& a.contains_key(n) == b.contains_key(n)
            &&& a.contains_key(n) ==> a[n] == b[n]
        }
}

/// A substitution reads the custom properties only at the names the value
/// uses: two maps that agree there give the same result.
pub proof fn lemma_substitute_same_vars(
    u: UnresolvedValue,
    a: Map<Seq<char>, Seq<char>>,
    b: Map<Seq<char>, Seq<char>>,
    start: int,
    end: int,
    cursor: int,
    acc: Seq<char>,
)
    requires
        u.wf(),
        agree_on_references(u, a, b),
        0 <= start <= cursor <= encode_utf8(u.css@).len(),
        end <= encode_utf8(u.css@).len(),
    ensures
        u.spec_substitute_from(a, start, end, cursor, acc) == u.spec_substitute_from(
            b,
            start,
            end,
            cursor,
            acc,
        ),
    decreases encode_utf8(u.css@).len() - start, encode_utf8(u.css@).len() + 1 - cursor,
{
    let refs = u.references@;
    lemma_next_from(refs, cursor, end, 0);
    match next_from(refs, cursor, end, 0) {
        None => {},
        Some(k) => {
            let r = refs[k];
            assert(reference_fits(u.css@, r));
            assert(a.contains_key(r.name@) == b.contains_key(r.name@));
            assert(a.contains_key(r.name@) ==> a[r.name@] == b[r.name@]);
            let before = acc + text_between(u.css@, cursor, r.start as int);
            if !a.contains_key(r.name@) {
                match r.fallback {
                    Some(fb) => {
                        lemma_substitute_same_vars(
                            u,
                            a,
                            b,
                            fb.start as int,
                            r.end - 1,
                            fb.start as int,
                            Seq::empty(),
                        );
                        assert(u.spec_substitute_range(a, fb.start as int, r.end - 1)
                            == u.spec_substitute_range(b, fb.start as int, r.end - 1));
                    },
                    None => {},
                }
            }
            let value: Result<Seq<char>, Seq<char>> = if a.contains_key(r.name@) {
                Ok(a[r.name@])
            } else {
                match r.fallback {
                    Some(fb) => u.spec_substitute_range(a, fb.start as int, r.end - 1),
                    None => Err(r.name@),
                }
            };
            match value {
                Ok(v) => {
                    lemma_substitute_same_vars(u, a, b, start, end, r.end as int, before + v);
                },
                Err(_) => {},
            }
        },
    }
}

} // verus!
