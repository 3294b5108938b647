use vstd::prelude::*;

use unicode_segmentation::UnicodeSegmentation;
use unicode_width::UnicodeWidthStr;

use crate::geometry::{AvailableSpace, Size};
use crate::keywords::WhiteSpace;

verus! {

/// The pieces that `unicode_segmentation` splits a text into at UAX #29
/// word boundaries, in order.
pub uninterp spec fn word_bounds(s: Seq<char>) -> Seq<Seq<char>>;

/// The display width of a text in terminal columns, as `unicode_width`
/// computes it.
pub uninterp spec fn display_width(s: Seq<char>) -> usize;

/// The characters of a sequence of pieces, one piece after another.
pub open spec fn joined(pieces: Seq<Seq<char>>) -> Seq<char>
    decreases pieces.len(),
{
    if pieces.len() == 0 {
        Seq::empty()
    } else {
        joined(pieces.drop_last()) + pieces.last()
    }
}

/// Calls `UnicodeSegmentation::split_word_bounds` and copies each piece
/// into a `String`. Claims: the pieces are `word_bounds` of the text, and
/// (as the crate documents) they join back into the text.
#[verifier::external_body]
fn split_word_bounds(text: &str) -> (pieces: Vec<String>)
    ensures
        pieces@.map_values(|p: String| p@) == word_bounds(text@),
        joined(pieces@.map_values(|p: String| p@)) == text@,
{
    text.split_word_bounds().map(|piece| piece.to_string()).collect()
}

/// Calls `UnicodeWidthStr::width`. Claims only that the result is
/// `display_width` of the text.
#[verifier::external_body]
fn str_width(text: &str) -> (w: usize)
    ensures
        w == display_width(text@),
{
    UnicodeWidthStr::width(text)
}

/// Whether `c` has the Unicode `White_Space` property (what
/// `char::is_whitespace` tests).
pub open spec fn is_white_space(c: char) -> bool {
    let v = c as u32;
    ||| 0x09 <= v <= 0x0d
    ||| v == 0x20
    ||| v == 0x85
    ||| v == 0xa0
    ||| v == 0x1680
    ||| 0x2000 <= v <= 0x200a
    ||| v == 0x2028
    ||| v == 0x2029
    ||| v == 0x202f
    ||| v == 0x205f
    ||| v == 0x3000
}

/// Whether a piece of text holds only white space (so trimming leaves it empty).
pub open spec fn is_blank(s: Seq<char>) -> bool {
    forall|i: int| 0 <= i < s.len() ==> is_white_space(#[trigger] s[i])
}

fn char_is_white_space(c: char) -> (r: bool)
    ensures
        r == is_white_space(c),
{
    let v = c as u32;
    (0x09 <= v && v <= 0x0d) || v == 0x20 || v == 0x85 || v == 0xa0 || v == 0x1680 || (0x2000 <= v
        && v <= 0x200a) || v == 0x2028 || v == 0x2029 || v == 0x202f || v == 0x205f || v == 0x3000
}

fn str_is_blank(s: &str) -> (r: bool)
    ensures
        r == is_blank(s@),
{
    let n = s.unicode_len();
    let mut i: usize = 0;
    while i < n
        invariant
            n == s@.len(),
            i <= n,
            forall|j: int| 0 <= j < i ==> is_white_space(#[trigger] s@[j]),
        decreases n - i,
    {
        if !char_is_white_space(s.get_char(i)) {
            return false;
        }
        i = i + 1;
    }
    true
}

/// A count of cells, held as a `u16` (larger counts become `u16::MAX`).
pub open spec fn cells(n: usize) -> u16 {
    if n > u16::MAX {
        u16::MAX
    } else {
        n as u16
    }
}

/// The width of each word-boundary piece of a text, in cells.
pub open spec fn piece_widths(text: Seq<char>) -> Seq<u16> {
    word_bounds(text).map_values(|p: Seq<char>| cells(display_width(p)))
}

/// Which word-boundary pieces of a text are blank.
pub open spec fn piece_blanks(text: Seq<char>) -> Seq<bool> {
    word_bounds(text).map_values(|p: Seq<char>| is_blank(p))
}

/// Greedy line filling after the first `i` pieces: (lines, width of the
/// current line, widest finished line). Blank pieces are dropped at the
/// start of a line and where they would overflow it; a piece that does not
/// fit starts a new line.
pub open spec fn wrap_fill(widths: Seq<u16>, blanks: Seq<bool>, max_width: u16, i: int) -> (
    u16,
    u16,
    u16,
)
    decreases i,
{
    if i <= 0 {
        (1u16, 0u16, 0u16)
    } else {
        let (lines, current, widest) = wrap_fill(widths, blanks, max_width, i - 1);
        let w = widths[i - 1];
        let blank = blanks[i - 1];
        let widest_now = if widest < current {
            current
        } else {
            widest
        };
        if current == 0 && blank {
            (lines, current, widest)
        } else if current + w > max_width {
            if blank {
                (lines.saturating_add(1), 0u16, widest_now)
            } else if current > 0 {
                (lines.saturating_add(1), w, widest_now)
            } else {
                (lines, w, widest)
            }
        } else {
            (lines, (current + w) as u16, widest)
        }
    }
}

/// The size of wrapped text with the given piece widths: the widest line,
/// and the number of lines.
pub open spec fn spec_wrap_pieces(widths: Seq<u16>, blanks: Seq<bool>, max_width: u16) -> Size {
    let (lines, current, widest) = wrap_fill(widths, blanks, max_width, widths.len() as int);
    Size { width: if widest < current {
        current
    } else {
        widest
    }, height: lines }
}

/// Lays out pieces of the given widths on lines at most `max_width` wide.
pub fn wrap_pieces(widths: &Vec<u16>, blanks: &Vec<bool>, max_width: u16) -> (s: Size)
    requires
        widths@.len() == blanks@.len(),
    ensures
        s == spec_wrap_pieces(widths@, blanks@, max_width),
{
    let mut lines: u16 = 1;
    let mut current: u16 = 0;
    let mut widest: u16 = 0;
    let mut i: usize = 0;
    while i < widths.len()
        invariant
            widths@.len() == blanks@.len(),
            i <= widths@.len(),
            (lines, current, widest) == wrap_fill(widths@, blanks@, max_width, i as int),
            current <= max_width || i > 0,
        decreases widths@.len() - i,
    {
        let w = widths[i];
        let blank = blanks[i];
        if current == 0 && blank {
        } else if (current as u32) + (w as u32) > (max_width as u32) {
            if blank {
                if widest < current {
                    widest = current;
                }
                lines = lines.saturating_add(1);
                current = 0;
            } else {
                if current > 0 {
                    if widest < current {
                        widest = current;
                    }
                    lines = lines.saturating_add(1);
                }
                current = w;
            }
        } else {
            current = current + w;
        }
        i = i + 1;
    }
    if widest < current {
        widest = current;
    }
    Size::new(widest, lines)
}

/// The widest of the pieces, in cells (zero when there are none).
pub open spec fn spec_widest(widths: Seq<u16>) -> u16
    decreases widths.len(),
{
    if widths.len() == 0 {
        0
    } else {
        let m = spec_widest(widths.drop_last());
        if m < widths.last() {
            widths.last()
        } else {
            m
        }
    }
}

/// The widest of the given piece widths.
pub fn widest_piece(widths: &Vec<u16>) -> (w: u16)
    ensures
        w == spec_widest(widths@),
{
    let mut best: u16 = 0;
    let mut i: usize = 0;
    assert(widths@.take(0) =~= Seq::<u16>::empty());
    while i < widths.len()
        invariant
            i <= widths@.len(),
            best == spec_widest(widths@.take(i as int)),
        decreases widths@.len() - i,
    {
        assert(widths@.take(i as int + 1).drop_last() =~= widths@.take(i as int));
        if best < widths[i] {
            best = widths[i];
        }
        i = i + 1;
    }
    assert(widths@.take(widths@.len() as int) =~= widths@);
    best
}

/// Size of text on one line: its display width, and one line unless empty.
pub open spec fn spec_measure_no_wrap(text: Seq<char>) -> Size {
    Size { width: cells(display_width(text)), height: if text.len() == 0 {
        0
    } else {
        1
    } }
}

/// Size of text wrapped at `max_width` (nothing for empty text or no width).
pub open spec fn spec_measure_wrap(text: Seq<char>, max_width: u16) -> Size {
    if text.len() == 0 || max_width == 0 {
        Size { width: 0, height: 0 }
    } else {
        spec_wrap_pieces(piece_widths(text), piece_blanks(text), max_width)
    }
}

/// Size of text at its min-content width: its widest piece, one line unless empty.
pub open spec fn spec_measure_min_content(text: Seq<char>) -> Size {
    Size { width: spec_widest(piece_widths(text)), height: if text.len() == 0 {
        0
    } else {
        1
    } }
}

/// What `measure_text` gives.
pub open spec fn spec_measure_text(
    text: Seq<char>,
    white_space: WhiteSpace,
    available_width: AvailableSpace,
) -> Size {
    match white_space {
        WhiteSpace::NoWrap | WhiteSpace::Pre => spec_measure_no_wrap(text),
        WhiteSpace::Normal | WhiteSpace::PreWrap => match available_width {
            AvailableSpace::Definite(w) => spec_measure_wrap(text, w),
            AvailableSpace::MinContent => spec_measure_min_content(text),
            AvailableSpace::MaxContent => spec_measure_no_wrap(text),
        },
    }
}

fn width_cells(text: &str) -> (w: u16)
    ensures
        w == cells(display_width(text@)),
{
    let w = str_width(text);
    if w > 65535 {
        u16::MAX
    } else {
        w as u16
    }
}

/// The width in cells and the blankness of each word-boundary piece.
fn measure_pieces(text: &str) -> (r: (Vec<u16>, Vec<bool>))
    ensures
        r.0@ == piece_widths(text@),
        r.1@ == piece_blanks(text@),
{
    let pieces = split_word_bounds(text);
    let ghost views = pieces@.map_values(|p: String| p@);
    let mut widths: Vec<u16> = Vec::new();
    let mut blanks: Vec<bool> = Vec::new();
    let mut i: usize = 0;
    while i < pieces.len()
        invariant
            i <= pieces@.len(),
            views == pieces@.map_values(|p: String| p@),
            views == word_bounds(text@),
            widths@ == views.take(i as int).map_values(|p: Seq<char>| cells(display_width(p))),
            blanks@ == views.take(i as int).map_values(|p: Seq<char>| is_blank(p)),
        decreases pieces@.len() - i,
    {
        let piece = pieces[i].as_str();
        assert(piece@ == views[i as int]);
        widths.push(width_cells(piece));
        blanks.push(str_is_blank(piece));
        i = i + 1;
        assert(widths@ =~= views.take(i as int).map_values(|p: Seq<char>| cells(display_width(p))));
        assert(blanks@ =~= views.take(i as int).map_values(|p: Seq<char>| is_blank(p)));
    }
    assert(views.take(pieces@.len() as int) =~= views);
    (widths, blanks)
}

fn measure_no_wrap(text: &str) -> (s: Size)
    ensures
        s == spec_measure_no_wrap(text@),
{
    let width = width_cells(text);
    let height: u16 = if text.unicode_len() == 0 {
        0
    } else {
        1
    };
    Size::new(width, height)
}

fn measure_wrap(text: &str, max_width: u16) -> (s: Size)
    ensures
        s == spec_measure_wrap(text@, max_width),
{
    if text.unicode_len() == 0 || max_width == 0 {
        return Size::zero();
    }
    let (widths, blanks) = measure_pieces(text);
    wrap_pieces(&widths, &blanks, max_width)
}

fn measure_min_content(text: &str) -> (s: Size)
    ensures
        s == spec_measure_min_content(text@),
{
    let (widths, _blanks) = measure_pieces(text);
    let width = widest_piece(&widths);
    let height: u16 = if text.unicode_len() == 0 {
        0
    } else {
        1
    };
    Size::new(width, height)
}

/// Measures text in terminal cells for the given `white-space` mode and
/// available width.
pub fn measure_text(text: &str, white_space: WhiteSpace, available_width: AvailableSpace) -> (s: Size)
    ensures
        s == spec_measure_text(text@, white_space, available_width),
{
    match white_space {
        WhiteSpace::NoWrap | WhiteSpace::Pre => measure_no_wrap(text),
        WhiteSpace::Normal | WhiteSpace::PreWrap => match available_width {
            AvailableSpace::Definite(width) => measure_wrap(text, width),
            AvailableSpace::MinContent => measure_min_content(text),
            AvailableSpace::MaxContent => measure_no_wrap(text),
        },
    }
}

/// The cells of the pieces that are not blank among the first `i`.
pub open spec fn ink(widths: Seq<u16>, blanks: Seq<bool>, i: int) -> int
    decreases i,
{
    if i <= 0 {
        0
    } else {
        ink(widths, blanks, i - 1) + if blanks[i - 1] {
            0
        } else {
            widths[i - 1] as int
        }
    }
}

proof fn lemma_wrap_fill_ink(widths: Seq<u16>, blanks: Seq<bool>, max_width: u16, i: int)
    requires
        0 <= i <= widths.len(),
        widths.len() == blanks.len(),
        forall|k: int| 0 <= k < widths.len() ==> #[trigger] widths[k] <= max_width,
    ensures
        ({
            let (lines, current, widest) = wrap_fill(widths, blanks, max_width, i);
            &&& 1 <= lines
            &&& current <= max_width
            &&& widest <= max_width
            &&& lines < u16::MAX ==> ink(widths, blanks, i) <= (lines - 1) * max_width + current
        }),
    decreases i,
{
    if i > 0 {
        lemma_wrap_fill_ink(widths, blanks, max_width, i - 1);
        let (l0, c0, w0) = wrap_fill(widths, blanks, max_width, i - 1);
        let (l1, c1, w1) = wrap_fill(widths, blanks, max_width, i);
        let m = max_width as int;
        assert(widths[i - 1] <= max_width);
        if l1 < u16::MAX {
            assert(l0 <= l1);
            assert((l0 - 1) * m + m == l0 * m) by (nonlinear_arith);
        }
    }
}

/// Wrapped text takes enough lines for what it holds: where every piece
/// fits in `max_width` and the line count did not run into the largest
/// `u16`, the non-blank pieces' cells are at most the lines times
/// `max_width`; and no line is wider than `max_width`.
pub proof fn lemma_wrap_lines_hold_ink(widths: Seq<u16>, blanks: Seq<bool>, max_width: u16)
    requires
        widths.len() == blanks.len(),
        forall|k: int| 0 <= k < widths.len() ==> #[trigger] widths[k] <= max_width,
    ensures
        spec_wrap_pieces(widths, blanks, max_width).width <= max_width,
        spec_wrap_pieces(widths, blanks, max_width).height < u16::MAX ==> ink(
            widths,
            blanks,
            widths.len() as int,
        ) <= spec_wrap_pieces(widths, blanks, max_width).height as int * max_width as int,
{
    lemma_wrap_fill_ink(widths, blanks, max_width, widths.len() as int);
    let (l, c, w) = wrap_fill(widths, blanks, max_width, widths.len() as int);
    let m = max_width as int;
    assert((l - 1) * m + m == l * m) by (nonlinear_arith);
}

} // verus!
