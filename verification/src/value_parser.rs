use vstd::prelude::*;

use cssparser::{Parser, Token, TokenSerializationType};

use crate::color::{parse_hex_color, spec_color_keyword, spec_hex_color, Color};
use crate::unresolved::{at_boundary, slice_bytes, text_between, UnresolvedValue, VarFallback, VarReference};
use vstd::utf8::{encode_utf8, encode_utf8_valid_utf8, is_char_boundary_start_end_of_seq};

verus! {

#[verifier::external_type_specification]
#[verifier::external_body]
pub struct ExToken<'a>(Token<'a>);

/// Why a value with `var()`s could not be read.
#[derive(Debug, Clone, Copy, PartialEq, Eq, Structural)]
pub enum VarError {
    /// A `var()` names something that does not start with `--`.
    InvalidVariable,
    /// A token stands where the grammar has none.
    UnexpectedToken,
    /// A `var()` ends before its name.
    EndOfInput,
    /// Blocks are nested deeper than the parser allows.
    TooManyNestedBlocks,
    /// More tokens than can be counted.
    TooManyTokens,
}

/// What the reading of a value needs to know of a token.
#[derive(Debug)]
pub enum TokenKind {
    Function(String),
    Ident(String),
    ParenthesisBlock,
    SquareBracketBlock,
    CurlyBracketBlock,
    Semicolon,
    Comma,
    Delim(char),
    /// Whitespace or a comment.
    Blank,
    /// A hash, `#` and what follows it.
    Hash(String),
    /// A number, with its value where it is written as an integer.
    Number(Option<i32>),
    CloseParenthesis,
    CloseSquareBracket,
    CloseCurlyBracket,
    /// The end of a block's contents.
    Close,
    Other,
}

/// A token of a value, with the byte positions before and after it. The
/// contents of a block follow its opening token and end with a `Close`
/// token, whose start is the position before the closing character and
/// whose end the position after it.
#[derive(Debug)]
pub struct CssToken {
    pub kind: TokenKind,
    pub serialization: TokenSerializationType,
    pub start: usize,
    pub end: usize,
}

/// The kind of `cssparser` token `t`, one variant for each that matters
/// to a value with `var()`s.
#[verifier::external_body]
fn token_kind(t: &Token) -> (k: TokenKind) {
    match t {
        Token::Function(name) => TokenKind::Function(name.to_string()),
        Token::Ident(name) => TokenKind::Ident(name.to_string()),
        Token::Semicolon => TokenKind::Semicolon,
        Token::Comma => TokenKind::Comma,
        Token::Delim(c) => TokenKind::Delim(*c),
        Token::WhiteSpace(_) | Token::Comment(_) => TokenKind::Blank,
        Token::Hash(h) | Token::IDHash(h) => TokenKind::Hash(h.to_string()),
        Token::Number { int_value, .. } => TokenKind::Number(*int_value),
        _ => block_kind(t),
    }
}

/// The kind of a `cssparser` token that opens or closes a block, the rest
/// being `Other`.
#[verifier::external_body]
fn block_kind(t: &Token) -> (k: TokenKind) {
    match t {
        Token::ParenthesisBlock => TokenKind::ParenthesisBlock,
        Token::SquareBracketBlock => TokenKind::SquareBracketBlock,
        Token::CurlyBracketBlock => TokenKind::CurlyBracketBlock,
        Token::CloseParenthesis => TokenKind::CloseParenthesis,
        Token::CloseSquareBracket => TokenKind::CloseSquareBracket,
        Token::CloseCurlyBracket => TokenKind::CloseCurlyBracket,
        _ => TokenKind::Other,
    }
}

/// A `var()` as the reading gives it: the property's name, its start and
/// end, the types of the tokens before and after it, and its fallback's
/// start and first and last token types, if it has one.
pub type RefView = (
    Seq<char>,
    int,
    int,
    TokenSerializationType,
    TokenSerializationType,
    Option<(int, TokenSerializationType, TokenSerializationType)>,
);

pub open spec fn ref_view(r: VarReference) -> RefView {
    (
        r.name@,
        r.start as int,
        r.end as int,
        r.prev_token_type,
        r.next_token_type,
        match r.fallback {
            Some(f) => Some((f.start as int, f.first_token_type, f.last_token_type)),
            None => None,
        },
    )
}

pub open spec fn refs_view(v: Seq<VarReference>) -> Seq<RefView> {
    v.map_values(|r: VarReference| ref_view(r))
}

/// The code of a character with ASCII capitals made small.
pub open spec fn lower_code(c: char) -> int {
    let n = c as u32 as int;
    if 65 <= n <= 90 {
        n + 32
    } else {
        n
    }
}

/// Whether two texts are equal but for the case of ASCII letters.
pub open spec fn ci_eq(a: Seq<char>, b: Seq<char>) -> bool {
    &&& a.len() == b.len()
    &&& forall|i: int| 0 <= i < a.len() ==> lower_code(a[i]) == lower_code(b[i])
}

pub open spec fn is_blank(k: TokenKind) -> bool {
    k is Blank
}

/// The first token from `i` on that is neither whitespace nor a comment.
pub open spec fn skip_blank(t: Seq<CssToken>, i: int) -> int
    decreases t.len() - i,
{
    if 0 <= i < t.len() && is_blank(t[i].kind) {
        skip_blank(t, i + 1)
    } else {
        i
    }
}

pub open spec fn at_close(t: Seq<CssToken>, j: int) -> bool {
    0 <= j < t.len() && t[j].kind is Close
}

/// Whether token `i` is the `!` of a `!important`: a `!`, then, blanks
/// aside, `important` in any ASCII case.
pub open spec fn important_at(t: Seq<CssToken>, i: int) -> bool {
    &&& t[i].kind matches TokenKind::Delim(c) && c == '!'
    &&& 0 <= skip_blank(t, i + 1) < t.len()
    &&& t[skip_blank(t, i + 1)].kind matches TokenKind::Ident(n) && ci_eq(n@, "important"@)
}

/// Whether token `i` ends the reading of a level: the end of a block, a
/// `;`, or, at the value's own level, `!important`.
pub open spec fn ends_level(t: Seq<CssToken>, i: int, top: bool) -> bool {
    t[i].kind is Close || t[i].kind is Semicolon || (top && important_at(t, i))
}

/// The byte offset of `a` from `start`.
pub open spec fn pos_from(a: int, start: int) -> int {
    if a >= start {
        a - start
    } else {
        0
    }
}

pub open spec fn pos_at(t: Seq<CssToken>, k: int) -> int {
    if 0 <= k < t.len() {
        t[k].start as int
    } else {
        0
    }
}

pub open spec fn or_nothing(o: Option<TokenSerializationType>, nothing: TokenSerializationType) -> TokenSerializationType {
    match o {
        Some(x) => x,
        None => nothing,
    }
}

/// What reading one level from token `i` gives: the `var()`s, in the order
/// in which they end (a fallback's before its own), the types of the
/// level's first and last tokens, whether a `var()` was met, and where the
/// reading stopped. `prev` is the type of the token before `i`.
pub open spec fn walk_level(
    t: Seq<CssToken>,
    i: int,
    start: int,
    prev: TokenSerializationType,
    top: bool,
    nothing: TokenSerializationType,
    fuel: nat,
) -> Result<(Seq<RefView>, Option<TokenSerializationType>, Option<TokenSerializationType>, bool, int), VarError>
    decreases fuel, 2int,
{
    if fuel == 0 {
        Err(VarError::TooManyTokens)
    } else if !(0 <= i < t.len()) || ends_level(t, i, top) {
        Ok((Seq::empty(), None, None, false, i))
    } else {
        match token_refs(t, i, start, prev, nothing, (fuel - 1) as nat) {
            Err(e) => Err(e),
            Ok((refs, hv, next)) => match walk_level(
                t,
                next,
                start,
                t[i].serialization,
                top,
                nothing,
                (fuel - 1) as nat,
            ) {
                Err(e) => Err(e),
                Ok((rrefs, _rfirst, rlast, rhv, stop)) => Ok(
                    (
                        refs + rrefs,
                        Some(t[i].serialization),
                        if rlast is Some {
                            rlast
                        } else {
                            Some(t[i].serialization)
                        },
                        hv || rhv,
                        stop,
                    ),
                ),
            },
        }
    }
}

/// What token `i` gives: the `var()`s in it, whether it is one, and the
/// token after it (after its block, for one that opens a block).
pub open spec fn token_refs(
    t: Seq<CssToken>,
    i: int,
    start: int,
    prev: TokenSerializationType,
    nothing: TokenSerializationType,
    g: nat,
) -> Result<(Seq<RefView>, bool, int), VarError>
    decreases g + 1, 1int,
{
    match t[i].kind {
        TokenKind::Function(name) => if ci_eq(name@, "var"@) {
            match var_refs(t, i + 1, start, prev, t[i].start as int, nothing, g) {
                Err(e) => Err(e),
                Ok((refs, j)) => {
                    let own = refs.last();
                    let next = if 0 <= j + 1 < t.len() && !(t[j + 1].kind is Close) {
                        t[j + 1].serialization
                    } else {
                        nothing
                    };
                    Ok(
                        (
                            refs.drop_last().push(
                                (own.0, own.1, pos_from(t[j].end as int, start), own.3, next, own.5),
                            ),
                            true,
                            j + 1,
                        ),
                    )
                },
            }
        } else {
            nested_refs(t, i, start, nothing, g)
        },
        TokenKind::ParenthesisBlock => nested_refs(t, i, start, nothing, g),
        TokenKind::SquareBracketBlock => nested_refs(t, i, start, nothing, g),
        TokenKind::CurlyBracketBlock => nested_refs(t, i, start, nothing, g),
        _ => Ok((Seq::empty(), false, i + 1)),
    }
}

/// What the block opened by token `i` gives: its contents must end at its
/// end, blanks aside.
pub open spec fn nested_refs(
    t: Seq<CssToken>,
    i: int,
    start: int,
    nothing: TokenSerializationType,
    g: nat,
) -> Result<(Seq<RefView>, bool, int), VarError>
    decreases g + 1, 0int,
{
    match walk_level(t, i + 1, start, nothing, false, nothing, g) {
        Err(e) => Err(e),
        Ok((refs, _first, _last, hv, stop)) => {
            let j = skip_blank(t, stop);
            if at_close(t, j) {
                Ok((refs, hv, j + 1))
            } else {
                Err(VarError::UnexpectedToken)
            }
        },
    }
}

/// What the contents of a `var()` from token `k` give: a name of the form
/// `--name`, then nothing or a comma and a fallback, up to the end of the
/// block. The `var()`s of the fallback come first, its own last (its end
/// still to be set); with the index of the block's end.
pub open spec fn var_refs(
    t: Seq<CssToken>,
    k: int,
    start: int,
    prev: TokenSerializationType,
    var_start: int,
    nothing: TokenSerializationType,
    g: nat,
) -> Result<(Seq<RefView>, int), VarError>
    decreases g + 1, 0int,
{
    let k1 = skip_blank(t, k);
    if !(0 <= k1 < t.len()) || t[k1].kind is Close {
        Err(VarError::EndOfInput)
    } else {
        match t[k1].kind {
            TokenKind::Ident(n) => if !(n@.len() >= 2 && n@[0] == '-' && n@[1] == '-') {
                Err(VarError::InvalidVariable)
            } else {
                let name = n@.skip(2);
                let k2 = skip_blank(t, k1 + 1);
                if 0 <= k2 < t.len() && t[k2].kind is Comma {
                    let k3 = skip_blank(t, k2 + 1);
                    match walk_level(t, k3, start, nothing, false, nothing, g) {
                        Err(e) => Err(e),
                        Ok((refs, first, last, _hv, stop)) => {
                            let j = skip_blank(t, stop);
                            if at_close(t, j) {
                                Ok(
                                    (
                                        refs.push(
                                            (
                                                name,
                                                pos_from(var_start, start),
                                                0,
                                                prev,
                                                nothing,
                                                Some(
                                                    (
                                                        pos_from(pos_at(t, k3), start),
                                                        or_nothing(first, nothing),
                                                        or_nothing(last, nothing),
                                                    ),
                                                ),
                                            ),
                                        ),
                                        j,
                                    ),
                                )
                            } else {
                                Err(VarError::UnexpectedToken)
                            }
                        },
                    }
                } else if at_close(t, k2) {
                    Ok(
                        (
                            Seq::empty().push(
                                (name, pos_from(var_start, start), 0, prev, nothing, None),
                            ),
                            k2,
                        ),
                    )
                } else {
                    Err(VarError::UnexpectedToken)
                }
            },
            _ => Err(VarError::UnexpectedToken),
        }
    }
}

/// What a value's tokens give: an error, nothing where no `var()` stands
/// at any depth, or its `var()`s and the types of its first and last
/// tokens.
pub open spec fn spec_read_value(
    t: Seq<CssToken>,
    i0: int,
    start: int,
    nothing: TokenSerializationType,
) -> Result<(Option<(Seq<RefView>, TokenSerializationType, TokenSerializationType)>, int), VarError> {
    match walk_level(t, i0, start, nothing, true, nothing, (t.len() + 1) as nat) {
        Err(e) => Err(e),
        Ok((refs, first, last, hv, stop)) => if hv {
            Ok((Some((refs, or_nothing(first, nothing), or_nothing(last, nothing))), stop))
        } else {
            Ok((None, stop))
        },
    }
}

pub type LevelView = (Seq<RefView>, Option<TokenSerializationType>, Option<TokenSerializationType>, bool, int);

/// What reading one level gave.
struct Level {
    refs: Vec<VarReference>,
    first: Option<TokenSerializationType>,
    last: Option<TokenSerializationType>,
    has_var: bool,
    stop: usize,
}

spec fn level_matches(r: Result<Level, VarError>, s: Result<LevelView, VarError>) -> bool {
    match (r, s) {
        (Ok(l), Ok(v)) => v == (refs_view(l.refs@), l.first, l.last, l.has_var, l.stop as int),
        (Err(e), Err(f)) => e == f,
        _ => false,
    }
}

spec fn part_matches(
    r: Result<(Vec<VarReference>, bool, usize), VarError>,
    s: Result<(Seq<RefView>, bool, int), VarError>,
) -> bool {
    match (r, s) {
        (Ok((refs, hv, next)), Ok((v, shv, snext))) => v == refs_view(refs@) && hv == shv && next as int
            == snext,
        (Err(e), Err(f)) => e == f,
        _ => false,
    }
}

spec fn var_matches(
    r: Result<(Vec<VarReference>, usize), VarError>,
    s: Result<(Seq<RefView>, int), VarError>,
) -> bool {
    match (r, s) {
        (Ok((refs, j)), Ok((v, sj))) => v == refs_view(refs@) && j as int == sj,
        (Err(e), Err(f)) => e == f,
        _ => false,
    }
}

/// `str::strip_prefix` with the prefix `--`: the rest of the text, where
/// it starts with two hyphens.
#[verifier::external_body]
fn strip_dashes(s: &str) -> (r: Option<String>)
    ensures
        r matches Some(x) ==> s@.len() >= 2 && s@[0] == '-' && s@[1] == '-' && x@ == s@.skip(2),
        r is None ==> !(s@.len() >= 2 && s@[0] == '-' && s@[1] == '-'),
{
    s.strip_prefix("--").map(|rest| rest.to_string())
}

fn is_blank_kind(k: &TokenKind) -> (r: bool)
    ensures
        r == is_blank(*k),
{
    match k {
        TokenKind::Blank => true,
        _ => false,
    }
}

fn is_close_kind(k: &TokenKind) -> (r: bool)
    ensures
        r == (*k is Close),
{
    match k {
        TokenKind::Close => true,
        _ => false,
    }
}

fn ends_level_exec(t: &Vec<CssToken>, i: usize, top: bool) -> (r: bool)
    requires
        i < t@.len(),
        t@.len() < usize::MAX,
    ensures
        r == ends_level(t@, i as int, top),
{
    match &t[i].kind {
        TokenKind::Close => true,
        TokenKind::Semicolon => true,
        TokenKind::Delim(c) => {
            if !top || *c != '!' {
                return false;
            }
            let k = skip_blank_exec(t, i + 1);
            if k >= t.len() {
                return false;
            }
            match &t[k].kind {
                TokenKind::Ident(n) => ascii_ci_eq(n.as_str(), "important"),
                _ => false,
            }
        },
        _ => false,
    }
}

fn offset(a: usize, start: usize) -> (r: usize)
    ensures
        r as int == pos_from(a as int, start as int),
{
    if a >= start {
        a - start
    } else {
        0
    }
}

/// Whether two texts are equal but for the case of ASCII letters.
pub fn ascii_ci_eq(a: &str, b: &str) -> (r: bool)
    ensures
        r == ci_eq(a@, b@),
{
    let n = a.unicode_len();
    if n != b.unicode_len() {
        return false;
    }
    let mut i: usize = 0;
    while i < n
        invariant
            n == a@.len(),
            n == b@.len(),
            i <= n,
            forall|j: int| 0 <= j < i ==> lower_code(a@[j]) == lower_code(b@[j]),
        decreases n - i,
    {
        let x: u32 = a.get_char(i) as u32;
        let y: u32 = b.get_char(i) as u32;
        let lx: u32 = if 65 <= x && x <= 90 {
            x + 32
        } else {
            x
        };
        let ly: u32 = if 65 <= y && y <= 90 {
            y + 32
        } else {
            y
        };
        if lx != ly {
            assert(lower_code(a@[i as int]) != lower_code(b@[i as int]));
            return false;
        }
        i = i + 1;
    }
    true
}

fn skip_blank_exec(t: &Vec<CssToken>, i: usize) -> (j: usize)
    requires
        i <= t@.len(),
        t@.len() < usize::MAX,
    ensures
        j as int == skip_blank(t@, i as int),
        i <= j <= t@.len(),
{
    let mut j = i;
    loop
        invariant
            i <= j <= t@.len(),
            skip_blank(t@, j as int) == skip_blank(t@, i as int),
        ensures
            i <= j <= t@.len(),
            skip_blank(t@, i as int) == j as int,
        decreases t@.len() - j,
    {
        if j >= t.len() {
            assert(skip_blank(t@, j as int) == j as int);
            break;
        }
        if !is_blank_kind(&t[j].kind) {
            assert(skip_blank(t@, j as int) == j as int);
            break;
        }
        j = j + 1;
    }
    j
}

fn walk_level_exec(
    t: &Vec<CssToken>,
    i: usize,
    start: usize,
    prev: TokenSerializationType,
    top: bool,
    nothing: TokenSerializationType,
    fuel: usize,
) -> (r: Result<Level, VarError>)
    requires
        i <= t@.len(),
        t@.len() < usize::MAX,
    ensures
        level_matches(r, walk_level(t@, i as int, start as int, prev, top, nothing, fuel as nat)),
        r matches Ok(l) ==> i <= l.stop <= t@.len(),
    decreases fuel, 2int,
{
    if fuel == 0 {
        return Err(VarError::TooManyTokens);
    }
    proof {
        assert(refs_view(Seq::<VarReference>::empty()) =~= Seq::<RefView>::empty());
    }
    if i >= t.len() {
        return Ok(Level { refs: Vec::new(), first: None, last: None, has_var: false, stop: i });
    }
    if ends_level_exec(t, i, top) {
        return Ok(Level { refs: Vec::new(), first: None, last: None, has_var: false, stop: i });
    }
    let ser = t[i].serialization;
    match token_refs_exec(t, i, start, prev, nothing, fuel - 1) {
        Err(e) => Err(e),
        Ok((refs, hv, next)) => {
            match walk_level_exec(t, next, start, ser, top, nothing, fuel - 1) {
                Err(e) => Err(e),
                Ok(rest) => {
                    let mut refs = refs;
                    let ghost r0 = refs@;
                    let mut more = rest.refs;
                    let ghost r1 = more@;
                    refs.append(&mut more);
                    proof {
                        assert(refs_view(r0 + r1) =~= refs_view(r0) + refs_view(r1));
                    }
                    let last = match rest.last {
                        Some(x) => Some(x),
                        None => Some(ser),
                    };
                    Ok(Level { refs, first: Some(ser), last, has_var: hv || rest.has_var, stop: rest.stop })
                },
            }
        },
    }
}

fn token_refs_exec(
    t: &Vec<CssToken>,
    i: usize,
    start: usize,
    prev: TokenSerializationType,
    nothing: TokenSerializationType,
    g: usize,
) -> (r: Result<(Vec<VarReference>, bool, usize), VarError>)
    requires
        i < t@.len(),
        t@.len() < usize::MAX,
    ensures
        part_matches(r, token_refs(t@, i as int, start as int, prev, nothing, g as nat)),
        r matches Ok((_, _, next)) ==> i < next <= t@.len(),
    decreases g + 1, 1int,
{
    match &t[i].kind {
        TokenKind::Function(name) => {
            if ascii_ci_eq(name.as_str(), "var") {
                match var_refs_exec(t, i + 1, start, prev, t[i].start, nothing, g) {
                    Err(e) => Err(e),
                    Ok((refs, j)) => {
                        let mut refs = refs;
                        let ghost rv = refs@;
                        let own = match refs.pop() {
                            Some(x) => x,
                            None => {
                                return Err(VarError::EndOfInput);
                            },
                        };
                        let next = if j + 1 < t.len() && !is_close_kind(&t[j + 1].kind) {
                            t[j + 1].serialization
                        } else {
                            nothing
                        };
                        let fixed = VarReference {
                            name: own.name,
                            start: own.start,
                            end: offset(t[j].end, start),
                            prev_token_type: own.prev_token_type,
                            next_token_type: next,
                            fallback: own.fallback,
                        };
                        refs.push(fixed);
                        proof {
                            assert(refs_view(rv).last() == ref_view(rv.last()));
                            assert(refs_view(refs@) =~= refs_view(rv).drop_last().push(
                                ref_view(fixed),
                            ));
                        }
                        Ok((refs, true, j + 1))
                    },
                }
            } else {
                nested_refs_exec(t, i, start, nothing, g)
            }
        },
        TokenKind::ParenthesisBlock => nested_refs_exec(t, i, start, nothing, g),
        TokenKind::SquareBracketBlock => nested_refs_exec(t, i, start, nothing, g),
        TokenKind::CurlyBracketBlock => nested_refs_exec(t, i, start, nothing, g),
        _ => {
            proof {
                assert(refs_view(Seq::<VarReference>::empty()) =~= Seq::<RefView>::empty());
            }
            Ok((Vec::new(), false, i + 1))
        },
    }
}

fn nested_refs_exec(
    t: &Vec<CssToken>,
    i: usize,
    start: usize,
    nothing: TokenSerializationType,
    g: usize,
) -> (r: Result<(Vec<VarReference>, bool, usize), VarError>)
    requires
        i < t@.len(),
        t@.len() < usize::MAX,
    ensures
        part_matches(r, nested_refs(t@, i as int, start as int, nothing, g as nat)),
        r matches Ok((_, _, next)) ==> i < next <= t@.len(),
    decreases g + 1, 0int,
{
    match walk_level_exec(t, i + 1, start, nothing, false, nothing, g) {
        Err(e) => Err(e),
        Ok(l) => {
            let j = skip_blank_exec(t, l.stop);
            if j < t.len() && is_close_kind(&t[j].kind) {
                Ok((l.refs, l.has_var, j + 1))
            } else {
                Err(VarError::UnexpectedToken)
            }
        },
    }
}

fn var_refs_exec(
    t: &Vec<CssToken>,
    k: usize,
    start: usize,
    prev: TokenSerializationType,
    var_start: usize,
    nothing: TokenSerializationType,
    g: usize,
) -> (r: Result<(Vec<VarReference>, usize), VarError>)
    requires
        k <= t@.len(),
        t@.len() < usize::MAX,
    ensures
        var_matches(r, var_refs(t@, k as int, start as int, prev, var_start as int, nothing, g as nat)),
        r matches Ok((refs, j)) ==> k <= j < t@.len() && refs@.len() > 0,
    decreases g + 1, 0int,
{
    let k1 = skip_blank_exec(t, k);
    if k1 >= t.len() {
        return Err(VarError::EndOfInput);
    }
    if is_close_kind(&t[k1].kind) {
        return Err(VarError::EndOfInput);
    }
    match &t[k1].kind {
        TokenKind::Ident(n) => {
            match strip_dashes(n.as_str()) {
                None => Err(VarError::InvalidVariable),
                Some(name) => {
                    let k2 = skip_blank_exec(t, k1 + 1);
                    let comma = k2 < t.len() && match &t[k2].kind {
                        TokenKind::Comma => true,
                        _ => false,
                    };
                    if comma {
                        let k3 = skip_blank_exec(t, k2 + 1);
                        let fb_pos: usize = if k3 < t.len() {
                            t[k3].start
                        } else {
                            0
                        };
                        match walk_level_exec(t, k3, start, nothing, false, nothing, g) {
                            Err(e) => Err(e),
                            Ok(l) => {
                                let j = skip_blank_exec(t, l.stop);
                                if j < t.len() && is_close_kind(&t[j].kind) {
                                    let first = match l.first {
                                        Some(x) => x,
                                        None => nothing,
                                    };
                                    let last = match l.last {
                                        Some(x) => x,
                                        None => nothing,
                                    };
                                    let mut refs = l.refs;
                                    let ghost rv = refs@;
                                    let own = VarReference {
                                        name,
                                        start: offset(var_start, start),
                                        end: 0,
                                        prev_token_type: prev,
                                        next_token_type: nothing,
                                        fallback: Some(
                                            VarFallback {
                                                start: offset(fb_pos, start),
                                                first_token_type: first,
                                                last_token_type: last,
                                            },
                                        ),
                                    };
                                    refs.push(own);
                                    proof {
                                        assert(refs_view(refs@) =~= refs_view(rv).push(ref_view(own)));
                                    }
                                    Ok((refs, j))
                                } else {
                                    Err(VarError::UnexpectedToken)
                                }
                            },
                        }
                    } else if k2 < t.len() && is_close_kind(&t[k2].kind) {
                        let mut refs: Vec<VarReference> = Vec::new();
                        let own = VarReference {
                            name,
                            start: offset(var_start, start),
                            end: 0,
                            prev_token_type: prev,
                            next_token_type: nothing,
                            fallback: None,
                        };
                        refs.push(own);
                        proof {
                            assert(refs_view(refs@) =~= Seq::<RefView>::empty().push(ref_view(own)));
                        }
                        Ok((refs, k2))
                    } else {
                        Err(VarError::UnexpectedToken)
                    }
                },
            }
        },
        _ => Err(VarError::UnexpectedToken),
    }
}

/// Reads a value's tokens: its `var()`s, at any depth, and the types of
/// its first and last tokens, where it has a `var()`.
pub fn read_value(
    tokens: &Vec<CssToken>,
    i0: usize,
    start: usize,
    nothing: TokenSerializationType,
) -> (r: Result<
    (Option<(Vec<VarReference>, TokenSerializationType, TokenSerializationType)>, usize),
    VarError,
>)
    requires
        tokens@.len() < usize::MAX,
        i0 <= tokens@.len(),
    ensures
        match (r, spec_read_value(tokens@, i0 as int, start as int, nothing)) {
            (Err(e), Err(f)) => e == f,
            (Ok((None, stop)), Ok((None, sstop))) => stop as int == sstop,
            (Ok((Some((refs, first, last)), stop)), Ok((Some((v, sfirst, slast)), sstop))) => v
                == refs_view(refs@) && first == sfirst && last == slast && stop as int == sstop,
            _ => false,
        },
        r matches Ok((_, stop)) ==> i0 <= stop <= tokens@.len(),
{
    match walk_level_exec(tokens, i0, start, nothing, true, nothing, tokens.len() + 1) {
        Err(e) => Err(e),
        Ok(l) => {
            if l.has_var {
                let first = match l.first {
                    Some(x) => x,
                    None => nothing,
                };
                let last = match l.last {
                    Some(x) => x,
                    None => nothing,
                };
                Ok((Some((l.refs, first, last)), l.stop))
            } else {
                Ok((None, l.stop))
            }
        },
    }
}

/// What `str::trim` gives of a text: it without its leading and trailing
/// whitespace.
pub uninterp spec fn trimmed(s: Seq<char>) -> Seq<char>;

/// `str::trim`, as an owned string.
#[verifier::external_body]
fn trim_text(s: &str) -> (r: String)
    ensures
        r@ == trimmed(s@),
{
    s.trim().to_string()
}

/// Why a color could not be read.
#[derive(Debug, Clone, PartialEq, Eq)]
pub enum ColorError {
    EndOfInput,
    UnexpectedToken,
    /// A channel written as a number that is not an integer.
    IntegerRequired,
    /// A channel outside `0..=255`.
    OutOfRange(i32),
    InvalidHexColor,
    UnknownColor(String),
    UnknownFunction(String),
    InvalidColor,
    TooManyNestedBlocks,
}

/// Whether `r` is `s` with ASCII capitals made small.
pub open spec fn is_lowered(r: Seq<char>, s: Seq<char>) -> bool {
    &&& r.len() == s.len()
    &&& forall|i: int| 0 <= i < s.len() ==> r[i] as u32 as int == lower_code(s[i])
}

/// `str::to_ascii_lowercase`: ASCII capitals made small, all else kept.
#[verifier::external_body]
fn ascii_lowercase(s: &str) -> (r: String)
    ensures
        is_lowered(r@, s@),
{
    s.to_ascii_lowercase()
}

/// A channel of a color function from token `k` on, blanks first, before
/// token `hi`: an integer in `0..=255`; with the index after it.
pub open spec fn spec_channel(t: Seq<CssToken>, k: int, hi: int) -> Result<(u8, int), ColorError> {
    let k1 = skip_blank(t, k);
    if !(0 <= k1 < hi && k1 < t.len()) {
        Err(ColorError::EndOfInput)
    } else {
        match t[k1].kind {
            TokenKind::Number(Some(n)) => if 0 <= n <= 255 {
                Ok((n as u8, k1 + 1))
            } else {
                Err(ColorError::OutOfRange(n))
            },
            TokenKind::Number(None) => Err(ColorError::IntegerRequired),
            _ => Err(ColorError::UnexpectedToken),
        }
    }
}

/// A comma from token `k` on, blanks first, before token `hi`; the index
/// after it.
pub open spec fn spec_comma(t: Seq<CssToken>, k: int, hi: int) -> Result<int, ColorError> {
    let k1 = skip_blank(t, k);
    if !(0 <= k1 < hi && k1 < t.len()) {
        Err(ColorError::EndOfInput)
    } else if t[k1].kind is Comma {
        Ok(k1 + 1)
    } else {
        Err(ColorError::UnexpectedToken)
    }
}

/// The contents of `rgb(..)`, tokens `lo..hi`: three channels between
/// commas, and nothing after them but blanks.
pub open spec fn spec_rgb(t: Seq<CssToken>, lo: int, hi: int) -> Result<Color, ColorError> {
    match spec_channel(t, lo, hi) {
        Err(e) => Err(e),
        Ok((r, k1)) => match spec_comma(t, k1, hi) {
            Err(e) => Err(e),
            Ok(k2) => match spec_channel(t, k2, hi) {
                Err(e) => Err(e),
                Ok((g, k3)) => match spec_comma(t, k3, hi) {
                    Err(e) => Err(e),
                    Ok(k4) => match spec_channel(t, k4, hi) {
                        Err(e) => Err(e),
                        Ok((b, k5)) => if skip_blank(t, k5) >= hi {
                            Ok(Color::Rgb(r, g, b))
                        } else {
                            Err(ColorError::UnexpectedToken)
                        },
                    },
                },
            },
        },
    }
}

/// The contents of `ansi(..)`, tokens `lo..hi`: one channel, and nothing
/// after it but blanks.
pub open spec fn spec_ansi(t: Seq<CssToken>, lo: int, hi: int) -> Result<Color, ColorError> {
    match spec_channel(t, lo, hi) {
        Err(e) => Err(e),
        Ok((n, k1)) => if skip_blank(t, k1) >= hi {
            Ok(Color::Ansi(n))
        } else {
            Err(ColorError::UnexpectedToken)
        },
    }
}

fn channel_exec(t: &Vec<CssToken>, k: usize, hi: usize) -> (r: Result<(u8, usize), ColorError>)
    requires
        k <= t@.len(),
        hi <= t@.len(),
        t@.len() < usize::MAX,
    ensures
        match (r, spec_channel(t@, k as int, hi as int)) {
            (Ok((a, b)), Ok((c, d))) => a == c && b as int == d,
            (Err(e), Err(f)) => e == f,
            _ => false,
        },
        r matches Ok((_, b)) ==> b <= t@.len(),
{
    let k1 = skip_blank_exec(t, k);
    if k1 >= hi || k1 >= t.len() {
        return Err(ColorError::EndOfInput);
    }
    match &t[k1].kind {
        TokenKind::Number(Some(n)) => {
            if 0 <= *n && *n <= 255 {
                Ok((*n as u8, k1 + 1))
            } else {
                Err(ColorError::OutOfRange(*n))
            }
        },
        TokenKind::Number(None) => Err(ColorError::IntegerRequired),
        _ => Err(ColorError::UnexpectedToken),
    }
}

fn comma_exec(t: &Vec<CssToken>, k: usize, hi: usize) -> (r: Result<usize, ColorError>)
    requires
        k <= t@.len(),
        hi <= t@.len(),
        t@.len() < usize::MAX,
    ensures
        match (r, spec_comma(t@, k as int, hi as int)) {
            (Ok(a), Ok(b)) => a as int == b,
            (Err(e), Err(f)) => e == f,
            _ => false,
        },
        r matches Ok(b) ==> b <= t@.len(),
{
    let k1 = skip_blank_exec(t, k);
    if k1 >= hi || k1 >= t.len() {
        return Err(ColorError::EndOfInput);
    }
    match &t[k1].kind {
        TokenKind::Comma => Ok(k1 + 1),
        _ => Err(ColorError::UnexpectedToken),
    }
}

/// Reads the contents of `rgb(..)`, as `spec_rgb` says.
pub fn rgb_from_tokens(t: &Vec<CssToken>, lo: usize, hi: usize) -> (r: Result<Color, ColorError>)
    requires
        t@.len() < usize::MAX,
        lo <= t@.len(),
        hi <= t@.len(),
    ensures
        r == spec_rgb(t@, lo as int, hi as int),
{
    let (red, k1) = match channel_exec(t, lo, hi) {
        Ok(x) => x,
        Err(e) => {
            return Err(e);
        },
    };
    let k2 = match comma_exec(t, k1, hi) {
        Ok(x) => x,
        Err(e) => {
            return Err(e);
        },
    };
    let (green, k3) = match channel_exec(t, k2, hi) {
        Ok(x) => x,
        Err(e) => {
            return Err(e);
        },
    };
    let k4 = match comma_exec(t, k3, hi) {
        Ok(x) => x,
        Err(e) => {
            return Err(e);
        },
    };
    let (blue, k5) = match channel_exec(t, k4, hi) {
        Ok(x) => x,
        Err(e) => {
            return Err(e);
        },
    };
    if skip_blank_exec(t, k5) >= hi {
        Ok(Color::Rgb(red, green, blue))
    } else {
        Err(ColorError::UnexpectedToken)
    }
}

/// Reads the contents of `ansi(..)`, as `spec_ansi` says.
pub fn ansi_from_tokens(t: &Vec<CssToken>, lo: usize, hi: usize) -> (r: Result<Color, ColorError>)
    requires
        t@.len() < usize::MAX,
        lo <= t@.len(),
        hi <= t@.len(),
    ensures
        r == spec_ansi(t@, lo as int, hi as int),
{
    let (n, k1) = match channel_exec(t, lo, hi) {
        Ok(x) => x,
        Err(e) => {
            return Err(e);
        },
    };
    if skip_blank_exec(t, k1) >= hi {
        Ok(Color::Ansi(n))
    } else {
        Err(ColorError::UnexpectedToken)
    }
}

/// What a color is, read from its first token and, for a function, the
/// tokens `lo..hi` of its contents: a keyword (`Color::from_keyword`, in
/// lower case), a hash (`parse_hex_color`), `rgb(..)` or `ansi(..)` in any
/// ASCII case; any other function is unknown, any other token no color.
pub open spec fn color_from_token_spec(
    kind: TokenKind,
    t: Seq<CssToken>,
    lo: int,
    hi: int,
    r: Result<Color, ColorError>,
) -> bool {
    match kind {
        TokenKind::Function(name) => if ci_eq(name@, "rgb"@) {
            r == spec_rgb(t, lo, hi)
        } else if ci_eq(name@, "ansi"@) {
            r == spec_ansi(t, lo, hi)
        } else {
            r matches Err(ColorError::UnknownFunction(m)) && m@ == name@
        },
        TokenKind::Ident(n) => exists|l: Seq<char>|
            #[trigger] is_lowered(l, n@) && match spec_color_keyword(l) {
                Some(c) => r == Ok::<Color, ColorError>(c),
                None => r matches Err(ColorError::UnknownColor(m)) && m@ == l,
            },
        TokenKind::Hash(h) => r == match spec_hex_color(h@) {
            Some((a, b, c)) => Ok::<Color, ColorError>(Color::Rgb(a, b, c)),
            None => Err(ColorError::InvalidHexColor),
        },
        _ => r == Err::<Color, ColorError>(ColorError::InvalidColor),
    }
}

/// Reads a color from its first token and, for a function, the tokens
/// `lo..hi` of its contents, as `color_from_token_spec` says.
pub fn color_from_token(kind: &TokenKind, t: &Vec<CssToken>, lo: usize, hi: usize) -> (r: Result<
    Color,
    ColorError,
>)
    requires
        t@.len() < usize::MAX,
        lo <= t@.len(),
        hi <= t@.len(),
    ensures
        color_from_token_spec(*kind, t@, lo as int, hi as int, r),
{
    match kind {
        TokenKind::Function(name) => {
            if ascii_ci_eq(name.as_str(), "rgb") {
                rgb_from_tokens(t, lo, hi)
            } else if ascii_ci_eq(name.as_str(), "ansi") {
                ansi_from_tokens(t, lo, hi)
            } else {
                Err(ColorError::UnknownFunction(name.clone()))
            }
        },
        TokenKind::Ident(n) => {
            let lowered = ascii_lowercase(n.as_str());
            match Color::from_keyword(lowered.as_str()) {
                Some(c) => Ok(c),
                None => Err(ColorError::UnknownColor(lowered)),
            }
        },
        TokenKind::Hash(h) => {
            match parse_hex_color(h.as_str()) {
                Some((a, b, c)) => Ok(Color::Rgb(a, b, c)),
                None => Err(ColorError::InvalidHexColor),
            }
        },
        _ => Err(ColorError::InvalidColor),
    }
}

/// What `cssparser`'s tokenizer reads at byte `pos` of `text`: the token
/// that starts there (whitespace and comments included), its
/// serialization type and its length in bytes; `None` at the end.
pub uninterp spec fn css_token_at(text: Seq<char>, pos: int) -> Option<
    (TokenKind, TokenSerializationType, int),
>;

/// Reads one token of `text` at byte `pos` with `cssparser`: a fresh
/// `Parser` over the rest of the text, its
/// `next_including_whitespace_and_comments`, the token's
/// `serialization_type` and the parser's position after it. Claims that
/// this is `css_token_at` of the text and the position, and that a token
/// holds at least one byte and ends on a character boundary inside the
/// text.
#[verifier::external_body]
fn token_at(text: &str, pos: usize) -> (r: Option<(TokenKind, TokenSerializationType, usize)>)
    requires
        pos <= encode_utf8(text@).len(),
        at_boundary(text@, pos as int),
    ensures
        match r {
            Some((k, s, n)) => css_token_at(text@, pos as int) == Some((k, s, n as int)),
            None => css_token_at(text@, pos as int) is None,
        },
        r matches Some((_, _, n)) ==> 0 < n && pos + n <= encode_utf8(text@).len() && at_boundary(
            text@,
            pos + n,
        ),
{
    let mut p = Parser::new(text.get(pos..)?);
    let t = p.next_including_whitespace_and_comments().ok()?.clone();
    Some((token_kind(&t), t.serialization_type(), p.position().byte_index()))
}

/// The kinds of blocks.
#[derive(Debug, Clone, Copy, PartialEq, Eq, Structural)]
pub enum BlockKind {
    Parenthesis,
    SquareBracket,
    CurlyBracket,
}

/// The block that a token opens, if any: a function or a parenthesis, a
/// square bracket, a curly bracket.
pub open spec fn opened_block(k: TokenKind) -> Option<BlockKind> {
    match k {
        TokenKind::Function(_) => Some(BlockKind::Parenthesis),
        TokenKind::ParenthesisBlock => Some(BlockKind::Parenthesis),
        TokenKind::SquareBracketBlock => Some(BlockKind::SquareBracket),
        TokenKind::CurlyBracketBlock => Some(BlockKind::CurlyBracket),
        _ => None,
    }
}

/// The block that a closing token ends, if any.
pub open spec fn closed_block(k: TokenKind) -> Option<BlockKind> {
    match k {
        TokenKind::CloseParenthesis => Some(BlockKind::Parenthesis),
        TokenKind::CloseSquareBracket => Some(BlockKind::SquareBracket),
        TokenKind::CloseCurlyBracket => Some(BlockKind::CurlyBracket),
        _ => None,
    }
}

/// The end of a block's contents at byte `pos`, for a block that the text
/// leaves open.
pub open spec fn open_end(pos: int, nothing: TokenSerializationType) -> CssToken {
    CssToken { kind: TokenKind::Close, serialization: nothing, start: pos as usize, end: pos as usize }
}

/// The tokens of `text` from byte `pos` on, inside the blocks of `stack`:
/// each token as `css_token_at` reads it, except that a closing token of
/// the innermost open block becomes its `Close`; at the end of the text,
/// a `Close` for each block still open. Within a block, a closing token
/// of another kind is an ordinary token.
pub open spec fn spec_tokens(
    text: Seq<char>,
    pos: int,
    stack: Seq<BlockKind>,
    nothing: TokenSerializationType,
    fuel: nat,
) -> Seq<CssToken>
    decreases fuel,
{
    if fuel == 0 {
        Seq::empty()
    } else {
        match css_token_at(text, pos) {
            None => Seq::new(stack.len(), |i: int| open_end(pos, nothing)),
            Some((k, s, n)) => {
                let end = pos + n;
                let rest_fuel = (fuel - 1) as nat;
                match opened_block(k) {
                    Some(b) => seq![CssToken { kind: k, serialization: s, start: pos as usize, end: end as usize }]
                        + spec_tokens(text, end, stack.push(b), nothing, rest_fuel),
                    None => if stack.len() > 0 && closed_block(k) == Some(stack.last()) {
                        seq![CssToken { kind: TokenKind::Close, serialization: s, start: pos as usize, end: end as usize }]
                            + spec_tokens(text, end, stack.drop_last(), nothing, rest_fuel)
                    } else {
                        seq![CssToken { kind: k, serialization: s, start: pos as usize, end: end as usize }]
                            + spec_tokens(text, end, stack, nothing, rest_fuel)
                    },
                }
            },
        }
    }
}

/// The tokens of a whole text.
pub open spec fn text_tokens(text: Seq<char>, nothing: TokenSerializationType) -> Seq<CssToken> {
    spec_tokens(text, 0, Seq::empty(), nothing, (encode_utf8(text).len() + 1) as nat)
}

fn opened_block_exec(k: &TokenKind) -> (r: Option<BlockKind>)
    ensures
        r == opened_block(*k),
{
    match k {
        TokenKind::Function(_) => Some(BlockKind::Parenthesis),
        TokenKind::ParenthesisBlock => Some(BlockKind::Parenthesis),
        TokenKind::SquareBracketBlock => Some(BlockKind::SquareBracket),
        TokenKind::CurlyBracketBlock => Some(BlockKind::CurlyBracket),
        _ => None,
    }
}

fn closed_block_exec(k: &TokenKind) -> (r: Option<BlockKind>)
    ensures
        r == closed_block(*k),
{
    match k {
        TokenKind::CloseParenthesis => Some(BlockKind::Parenthesis),
        TokenKind::CloseSquareBracket => Some(BlockKind::SquareBracket),
        TokenKind::CloseCurlyBracket => Some(BlockKind::CurlyBracket),
        _ => None,
    }
}

/// Reads the tokens of a text, as `text_tokens` says; their starts rise
/// and lie on character boundaries, and there are at most two for each
/// byte and one more.
pub fn read_tokens(text: &str, nothing: TokenSerializationType) -> (r: Vec<CssToken>)
    requires
        encode_utf8(text@).len() < usize::MAX / 4,
    ensures
        r@ == text_tokens(text@, nothing),
        r@.len() <= 2 * encode_utf8(text@).len() + 2,
        forall|j: int|
            0 <= j < r@.len() ==> (#[trigger] r@[j]).start <= encode_utf8(text@).len()
                && at_boundary(text@, r@[j].start as int),
        forall|j: int, k: int| 0 <= j <= k < r@.len() ==> #[trigger] r@[j].start <= #[trigger] r@[k].start,
{
    let n = text.len();
    proof {
        encode_utf8_valid_utf8(text@);
        is_char_boundary_start_end_of_seq(encode_utf8(text@));
    }
    let ghost total = text_tokens(text@, nothing);
    let mut out: Vec<CssToken> = Vec::new();
    let mut stack: Vec<BlockKind> = Vec::new();
    let mut pos: usize = 0;
    let mut fuel: usize = n + 1;
    while fuel > 0
        invariant
            total == text_tokens(text@, nothing),
            n == encode_utf8(text@).len(),
            n < usize::MAX / 4,
            pos <= n,
            at_boundary(text@, pos as int),
            out@ + spec_tokens(text@, pos as int, stack@, nothing, fuel as nat) == total,
            out@.len() + 2 * fuel + stack@.len() <= 2 * n + 2,
            forall|j: int|
                0 <= j < out@.len() ==> (#[trigger] out@[j]).start <= pos && at_boundary(
                    text@,
                    out@[j].start as int,
                ),
            forall|j: int, k: int|
                0 <= j <= k < out@.len() ==> #[trigger] out@[j].start <= #[trigger] out@[k].start,
        decreases fuel,
    {
        match token_at(text, pos) {
            None => {
                let ghost out0 = out@;
                let count = stack.len();
                let mut k: usize = 0;
                while k < count
                    invariant
                        k <= count,
                        count == stack@.len(),
                        out@ == out0 + Seq::new(k as nat, |i: int| open_end(pos as int, nothing)),
                        out0 + spec_tokens(text@, pos as int, stack@, nothing, fuel as nat) == total,
                        css_token_at(text@, pos as int) is None,
                        fuel > 0,
                        total == text_tokens(text@, nothing),
                        out0.len() + 2 * fuel + count <= 2 * n + 2,
                        at_boundary(text@, pos as int),
                        forall|j: int|
                            0 <= j < out@.len() ==> (#[trigger] out@[j]).start <= pos && at_boundary(
                                text@,
                                out@[j].start as int,
                            ),
                        forall|j: int, k2: int|
                            0 <= j <= k2 < out@.len() ==> #[trigger] out@[j].start <= #[trigger] out@[k2].start,
                    decreases count - k,
                {
                    out.push(CssToken { kind: TokenKind::Close, serialization: nothing, start: pos, end: pos });
                    k = k + 1;
                    proof {
                        assert(out@ =~= out0 + Seq::new(k as nat, |i: int| open_end(pos as int, nothing)));
                    }
                }
                proof {
                    assert(spec_tokens(text@, pos as int, stack@, nothing, fuel as nat) =~= Seq::new(
                        count as nat,
                        |i: int| open_end(pos as int, nothing),
                    ));
                    assert(out@ == total);
                }
                return out;
            },
            Some((kind, s, len)) => {
                let end = pos + len;
                let ghost rest = spec_tokens(text@, end as int, stack@, nothing, (fuel - 1) as nat);
                let ghost k0 = kind;
                match opened_block_exec(&kind) {
                    Some(b) => {
                        let tok = CssToken { kind, serialization: s, start: pos, end };
                        let ghost before = out@;
                        out.push(tok);
                        stack.push(b);
                        proof {
                            assert(before.push(tok) + spec_tokens(text@, end as int, stack@, nothing, (fuel - 1) as nat)
                                =~= before + (seq![tok] + spec_tokens(text@, end as int, stack@, nothing, (fuel - 1) as nat)));
                        }
                    },
                    None => {
                        let closes = closed_block_exec(&kind);
                        let matched = stack.len() > 0 && match closes {
                            Some(c) => c == stack[stack.len() - 1],
                            None => false,
                        };
                        let ghost before = out@;
                        let ghost st = stack@;
                        if matched {
                            let tok = CssToken { kind: TokenKind::Close, serialization: s, start: pos, end };
                            out.push(tok);
                            stack.pop();
                            proof {
                                assert(stack@ =~= st.drop_last());
                                assert(before.push(tok) + spec_tokens(text@, end as int, stack@, nothing, (fuel - 1) as nat)
                                    =~= before + (seq![tok] + spec_tokens(text@, end as int, stack@, nothing, (fuel - 1) as nat)));
                            }
                        } else {
                            let tok = CssToken { kind, serialization: s, start: pos, end };
                            out.push(tok);
                            proof {
                                assert(before.push(tok) + rest =~= before + (seq![tok] + rest));
                            }
                        }
                    },
                }
                pos = end;
                fuel = fuel - 1;
            },
        }
    }
    proof {
        assert(out@ + Seq::<CssToken>::empty() =~= out@);
    }
    out
}

/// The byte position where token `i` starts; the end of the text, `len`,
/// after the last token.
pub open spec fn token_pos(t: Seq<CssToken>, i: int, len: int) -> int {
    if 0 <= i < t.len() {
        t[i].start as int
    } else {
        len
    }
}

/// What reading the value of a declaration, written `text`, gives: an
/// error, or whether it holds a `var()` (with its `var()`s and the types
/// of its first and last tokens), the byte where it starts (its first
/// token that is not blank) and the byte where it stops (a `;` or a
/// `!important` of its own level, else the end).
pub open spec fn spec_value(text: Seq<char>, nothing: TokenSerializationType) -> Result<
    (Option<(Seq<RefView>, TokenSerializationType, TokenSerializationType)>, int, int),
    VarError,
> {
    let t = text_tokens(text, nothing);
    let len = encode_utf8(text).len() as int;
    let i0 = skip_blank(t, 0);
    let start = token_pos(t, i0, len);
    match spec_read_value(t, i0, start, nothing) {
        Err(e) => Err(e),
        Ok((found, stop)) => Ok((found, start, token_pos(t, stop, len))),
    }
}

/// The value of a declaration as read from its text: its text from its
/// first token that is not blank up to where it stops, trimmed; where it
/// stops; and, where it holds a `var()`, the value to substitute.
pub struct DeclarationValue {
    pub unresolved: Option<UnresolvedValue>,
    pub css: String,
    pub stop: usize,
}

/// Reads the value of a declaration from its text (`nothing` is the
/// serialization type that stands for no token), as `spec_value` says:
/// the `var()`s at any depth, a fallback's before its own, and their byte
/// spans from the value's start.
pub fn parse_value_with_vars(text: &str, nothing: TokenSerializationType) -> (r: Result<
    DeclarationValue,
    VarError,
>)
    requires
        encode_utf8(text@).len() < usize::MAX / 4,
    ensures
        match (r, spec_value(text@, nothing)) {
            (Err(e), Err(f)) => e == f,
            (Ok(d), Ok((found, start, stop))) => {
                &&& d.stop as int == stop
                &&& d.css@ == trimmed(text_between(text@, start, stop))
                &&& match (d.unresolved, found) {
                    (None, None) => true,
                    (Some(v), Some((refs, first, last))) => refs_view(v.references@) == refs
                        && v.first_token_type == first && v.last_token_type == last && v.css@
                        == d.css@,
                    _ => false,
                }
            },
            _ => false,
        },
{
    let n = text.len();
    let tokens = read_tokens(text, nothing);
    let i0 = skip_blank_exec(&tokens, 0);
    let start: usize = if i0 < tokens.len() {
        tokens[i0].start
    } else {
        n
    };
    match read_value(&tokens, i0, start, nothing) {
        Err(e) => Err(e),
        Ok((found, stop_i)) => {
            let stop: usize = if stop_i < tokens.len() {
                tokens[stop_i].start
            } else {
                n
            };
            proof {
                encode_utf8_valid_utf8(text@);
                is_char_boundary_start_end_of_seq(encode_utf8(text@));
                if stop_i < tokens@.len() {
                    assert(tokens@[i0 as int].start <= tokens@[stop_i as int].start);
                }
            }
            let piece = slice_bytes(text, start, stop);
            let css = trim_text(piece);
            let unresolved = match found {
                None => None,
                Some((references, first, last)) => Some(
                    UnresolvedValue {
                        css: css.clone(),
                        first_token_type: first,
                        last_token_type: last,
                        references,
                    },
                ),
            };
            Ok(DeclarationValue { unresolved, css, stop })
        },
    }
}

/// The index of the `Close` that ends the block whose contents start at
/// token `k`, `depth` blocks further in; the number of tokens where there
/// is none.
pub open spec fn block_close(t: Seq<CssToken>, k: int, depth: nat) -> int
    decreases t.len() - k,
{
    if k < 0 || k >= t.len() {
        t.len() as int
    } else if t[k].kind is Close {
        if depth == 0 {
            k
        } else {
            block_close(t, k + 1, (depth - 1) as nat)
        }
    } else if opened_block(t[k].kind) is Some {
        block_close(t, k + 1, depth + 1)
    } else {
        block_close(t, k + 1, depth)
    }
}

fn block_close_exec(t: &Vec<CssToken>, k: usize) -> (r: usize)
    requires
        k <= t@.len(),
        t@.len() < usize::MAX / 2,
    ensures
        r as int == block_close(t@, k as int, 0),
        k <= r <= t@.len(),
{
    let mut i = k;
    let mut depth: usize = 0;
    while i < t.len()
        invariant
            k <= i <= t@.len(),
            depth <= i - k,
            t@.len() < usize::MAX / 2,
            block_close(t@, i as int, depth as nat) == block_close(t@, k as int, 0),
        decreases t@.len() - i,
    {
        if is_close_kind(&t[i].kind) {
            if depth == 0 {
                return i;
            }
            depth = depth - 1;
        } else if opened_block_exec(&t[i].kind).is_some() {
            depth = depth + 1;
        }
        i = i + 1;
    }
    i
}

/// The byte where token `c` ends; the end of the text, `len`, where there
/// is no such token.
pub open spec fn token_end(t: Seq<CssToken>, c: int, len: int) -> int {
    if 0 <= c < t.len() {
        t[c].end as int
    } else {
        len
    }
}

/// Whether `r` is what reading a color from `text` gives: from its first
/// token that is not blank (and, for a function, the contents of its
/// block), as `color_from_token_spec` says, with the byte where the color
/// ends; where the text holds no such token, `EndOfInput`.
pub open spec fn color_read(text: Seq<char>, nothing: TokenSerializationType, r: Result<(Color, usize), ColorError>) -> bool {
    let t = text_tokens(text, nothing);
    let len = encode_utf8(text).len() as int;
    let i0 = skip_blank(t, 0);
    if !(0 <= i0 < t.len()) {
        r == Err::<(Color, usize), ColorError>(ColorError::EndOfInput)
    } else {
        let is_block = opened_block(t[i0].kind) is Some;
        let c = if is_block {
            block_close(t, i0 + 1, 0)
        } else {
            i0 + 1
        };
        let end = if is_block {
            token_end(t, c, len)
        } else {
            t[i0].end as int
        };
        match r {
            Ok((color, e)) => color_from_token_spec(t[i0].kind, t, i0 + 1, c, Ok(color)) && e as int
                == end,
            Err(err) => color_from_token_spec(t[i0].kind, t, i0 + 1, c, Err(err)),
        }
    }
}

/// Reads a color from the start of `text`, as `color_read` says.
pub fn parse_color(text: &str, nothing: TokenSerializationType) -> (r: Result<(Color, usize), ColorError>)
    requires
        encode_utf8(text@).len() < usize::MAX / 4,
    ensures
        color_read(text@, nothing, r),
{
    let n = text.len();
    let tokens = read_tokens(text, nothing);
    let i0 = skip_blank_exec(&tokens, 0);
    if i0 >= tokens.len() {
        return Err(ColorError::EndOfInput);
    }
    let kind = &tokens[i0].kind;
    let is_block = opened_block_exec(kind).is_some();
    let c: usize = if is_block {
        block_close_exec(&tokens, i0 + 1)
    } else {
        i0 + 1
    };
    let end: usize = if is_block {
        if c < tokens.len() {
            tokens[c].end
        } else {
            n
        }
    } else {
        tokens[i0].end
    };
    match color_from_token(kind, &tokens, i0 + 1, c) {
        Ok(color) => Ok((color, end)),
        Err(e) => Err(e),
    }
}

} // verus!
