use vstd::prelude::*;

use crate::keywords::BorderStyle;

verus! {

/// One value for each side of a box.
#[derive(Debug, Clone, Copy, PartialEq, Eq, Structural)]
pub struct Edges<T> {
    pub top: T,
    pub right: T,
    pub bottom: T,
    pub left: T,
}

impl<T: Clone> Edges<T> {
    pub fn new(top: T, right: T, bottom: T, left: T) -> (e: Self)
        ensures
            e.top == top,
            e.right == right,
            e.bottom == bottom,
            e.left == left,
    {
        Self { top, right, bottom, left }
    }

    /// The same value on every side (the first three sides get clones of it).
    pub fn all(value: T) -> (e: Self)
        ensures
            cloned(value, e.top),
            cloned(value, e.right),
            cloned(value, e.bottom),
            e.left == value,
    {
        Self { top: value.clone(), right: value.clone(), bottom: value.clone(), left: value }
    }

    /// `vertical` on top and bottom, `horizontal` on left and right.
    pub fn symmetric(vertical: T, horizontal: T) -> (e: Self)
        ensures
            cloned(vertical, e.top),
            e.bottom == vertical,
            cloned(horizontal, e.left),
            e.right == horizontal,
    {
        let top = vertical.clone();
        let left = horizontal.clone();
        Self { top, bottom: vertical, left, right: horizontal }
    }

    /// `top`, then `horizontal` on left and right, then `bottom`.
    pub fn three(top: T, horizontal: T, bottom: T) -> (e: Self)
        ensures
            e.top == top,
            cloned(horizontal, e.left),
            e.right == horizontal,
            e.bottom == bottom,
    {
        let left = horizontal.clone();
        Self { top, left, right: horizontal, bottom }
    }

    /// Applies `f` to each side.
    pub fn map<U, F: Fn(&T) -> U>(&self, f: F) -> (e: Edges<U>)
        requires
            call_requires(f, (&self.top,)),
            call_requires(f, (&self.right,)),
            call_requires(f, (&self.bottom,)),
            call_requires(f, (&self.left,)),
        ensures
            call_ensures(f, (&self.top,), e.top),
            call_ensures(f, (&self.right,), e.right),
            call_ensures(f, (&self.bottom,), e.bottom),
            call_ensures(f, (&self.left,), e.left),
    {
        let top = f(&self.top);
        let right = f(&self.right);
        let bottom = f(&self.bottom);
        let left = f(&self.left);
        Edges { top, right, bottom, left }
    }
}

impl<T: Default> Default for Edges<T> {
    fn default() -> (e: Self) {
        Edges { top: T::default(), right: T::default(), bottom: T::default(), left: T::default() }
    }
}

impl Edges<u16> {
    /// Zero on every side.
    pub fn zero() -> (e: Self)
        ensures
            e == Self::spec_zero(),
    {
        Edges { top: 0, right: 0, bottom: 0, left: 0 }
    }

    pub open spec fn spec_zero() -> Self {
        Edges { top: 0, right: 0, bottom: 0, left: 0 }
    }

    /// Left plus right, saturating.
    pub open spec fn spec_horizontal(self) -> u16 {
        self.left.saturating_add(self.right)
    }

    /// Top plus bottom, saturating.
    pub open spec fn spec_vertical(self) -> u16 {
        self.top.saturating_add(self.bottom)
    }

    pub fn horizontal(&self) -> (r: u16)
        ensures
            r == self.spec_horizontal(),
    {
        self.left.saturating_add(self.right)
    }

    pub fn vertical(&self) -> (r: u16)
        ensures
            r == self.spec_vertical(),
    {
        self.top.saturating_add(self.bottom)
    }
}

impl Edges<BorderStyle> {
    /// A drawn border takes one cell; `none` takes none.
    pub open spec fn spec_widths(self) -> Edges<u16> {
        Edges {
            top: if self.top == BorderStyle::NoBorder { 0 } else { 1 },
            right: if self.right == BorderStyle::NoBorder { 0 } else { 1 },
            bottom: if self.bottom == BorderStyle::NoBorder { 0 } else { 1 },
            left: if self.left == BorderStyle::NoBorder { 0 } else { 1 },
        }
    }

    pub fn to_widths(&self) -> (e: Edges<u16>)
        ensures
            e == self.spec_widths(),
    {
        Edges {
            top: border_width(self.top),
            right: border_width(self.right),
            bottom: border_width(self.bottom),
            left: border_width(self.left),
        }
    }
}

fn border_width(style: BorderStyle) -> (w: u16)
    ensures
        w == (if style == BorderStyle::NoBorder { 0u16 } else { 1u16 }),
{
    match style {
        BorderStyle::NoBorder => 0,
        _ => 1,
    }
}

/// What `map` gives where the function's result is fixed by its argument:
/// each side is that result for the side it replaces.
pub proof fn lemma_map_determined<T, U, F: Fn(&T) -> U>(
    e: Edges<T>,
    f: F,
    g: spec_fn(T) -> U,
    r: Edges<U>,
)
    requires
        forall|x: T, y: U| #[trigger] call_ensures(f, (&x,), y) ==> y == g(x),
        call_ensures(f, (&e.top,), r.top),
        call_ensures(f, (&e.right,), r.right),
        call_ensures(f, (&e.bottom,), r.bottom),
        call_ensures(f, (&e.left,), r.left),
    ensures
        r == (Edges { top: g(e.top), right: g(e.right), bottom: g(e.bottom), left: g(e.left) }),
{
}

/// Mapping with a function that gives back its argument leaves the edges
/// as they were.
pub proof fn lemma_map_identity<T, F: Fn(&T) -> T>(e: Edges<T>, f: F, r: Edges<T>)
    requires
        forall|x: T, y: T| #[trigger] call_ensures(f, (&x,), y) ==> y == x,
        call_ensures(f, (&e.top,), r.top),
        call_ensures(f, (&e.right,), r.right),
        call_ensures(f, (&e.bottom,), r.bottom),
        call_ensures(f, (&e.left,), r.left),
    ensures
        r == e,
{
}

/// Mapping twice is mapping once with the composed function, where each
/// function's result is fixed by its argument.
pub proof fn lemma_map_compose<T, U, V, F: Fn(&T) -> U, H: Fn(&U) -> V>(
    e: Edges<T>,
    f: F,
    gf: spec_fn(T) -> U,
    h: H,
    gh: spec_fn(U) -> V,
    r1: Edges<U>,
    r2: Edges<V>,
)
    requires
        forall|x: T, y: U| #[trigger] call_ensures(f, (&x,), y) ==> y == gf(x),
        forall|x: U, y: V| #[trigger] call_ensures(h, (&x,), y) ==> y == gh(x),
        call_ensures(f, (&e.top,), r1.top),
        call_ensures(f, (&e.right,), r1.right),
        call_ensures(f, (&e.bottom,), r1.bottom),
        call_ensures(f, (&e.left,), r1.left),
        call_ensures(h, (&r1.top,), r2.top),
        call_ensures(h, (&r1.right,), r2.right),
        call_ensures(h, (&r1.bottom,), r2.bottom),
        call_ensures(h, (&r1.left,), r2.left),
    ensures
        r2 == (Edges {
            top: gh(gf(e.top)),
            right: gh(gf(e.right)),
            bottom: gh(gf(e.bottom)),
            left: gh(gf(e.left)),
        }),
{
}

/// Which of one to four values each side takes, as (top, right, bottom,
/// left): one value for all sides; two for top and bottom, then left and
/// right; three for top, left and right, bottom; four in that order.
pub open spec fn spec_side_indices(count: int) -> (int, int, int, int) {
    if count == 1 {
        (0, 0, 0, 0)
    } else if count == 2 {
        (0, 1, 0, 1)
    } else if count == 3 {
        (0, 1, 2, 1)
    } else {
        (0, 1, 2, 3)
    }
}

/// The sides that one to four values of a box shorthand give.
pub fn side_values<T: Clone>(values: &Vec<T>) -> (e: Edges<T>)
    requires
        1 <= values@.len() <= 4,
    ensures
        cloned(values@[spec_side_indices(values@.len() as int).0], e.top),
        cloned(values@[spec_side_indices(values@.len() as int).1], e.right),
        cloned(values@[spec_side_indices(values@.len() as int).2], e.bottom),
        cloned(values@[spec_side_indices(values@.len() as int).3], e.left),
{
    let (top, right, bottom, left): (usize, usize, usize, usize) = match values.len() {
        1 => (0, 0, 0, 0),
        2 => (0, 1, 0, 1),
        3 => (0, 1, 2, 1),
        _ => (0, 1, 2, 3),
    };
    Edges {
        top: values[top].clone(),
        right: values[right].clone(),
        bottom: values[bottom].clone(),
        left: values[left].clone(),
    }
}

} // verus!
