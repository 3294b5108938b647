use vstd::prelude::*;

use crate::strings::str_equals;

verus! {

/// A terminal color.
#[derive(Debug, Clone, Copy, PartialEq, Eq, Hash, Structural)]
pub enum Color {
    /// The terminal's own default color.
    Reset,
    Basic(BasicColor),
    Bright(BasicColor),
    /// An entry of the 256-color palette.
    Ansi(u8),
    Rgb(u8, u8, u8),
}

impl Default for Color {
    fn default() -> (c: Self)
        ensures
            c == Color::Reset,
    {
        Color::Reset
    }
}

impl Color {
    pub fn black() -> (c: Self)
        ensures
            c == Color::Basic(BasicColor::Black),
    {
        Color::Basic(BasicColor::Black)
    }

    pub fn red() -> (c: Self)
        ensures
            c == Color::Basic(BasicColor::Red),
    {
        Color::Basic(BasicColor::Red)
    }

    pub fn green() -> (c: Self)
        ensures
            c == Color::Basic(BasicColor::Green),
    {
        Color::Basic(BasicColor::Green)
    }

    pub fn yellow() -> (c: Self)
        ensures
            c == Color::Basic(BasicColor::Yellow),
    {
        Color::Basic(BasicColor::Yellow)
    }

    pub fn blue() -> (c: Self)
        ensures
            c == Color::Basic(BasicColor::Blue),
    {
        Color::Basic(BasicColor::Blue)
    }

    pub fn magenta() -> (c: Self)
        ensures
            c == Color::Basic(BasicColor::Magenta),
    {
        Color::Basic(BasicColor::Magenta)
    }

    pub fn cyan() -> (c: Self)
        ensures
            c == Color::Basic(BasicColor::Cyan),
    {
        Color::Basic(BasicColor::Cyan)
    }

    pub fn white() -> (c: Self)
        ensures
            c == Color::Basic(BasicColor::White),
    {
        Color::Basic(BasicColor::White)
    }
}

/// The eight basic terminal colors, in the order of their ANSI codes 0 to 7.
#[derive(Debug, Clone, Copy, PartialEq, Eq, Hash, Structural)]
pub enum BasicColor {
    Black,
    Red,
    Green,
    Yellow,
    Blue,
    Magenta,
    Cyan,
    White,
}

impl BasicColor {
    /// The color's ANSI code.
    pub open spec fn spec_ansi_code(self) -> u8 {
        match self {
            BasicColor::Black => 0,
            BasicColor::Red => 1,
            BasicColor::Green => 2,
            BasicColor::Yellow => 3,
            BasicColor::Blue => 4,
            BasicColor::Magenta => 5,
            BasicColor::Cyan => 6,
            BasicColor::White => 7,
        }
    }

    /// The color's CSS name.
    pub open spec fn spec_name(self) -> Seq<char> {
        match self {
            BasicColor::Black => "black"@,
            BasicColor::Red => "red"@,
            BasicColor::Green => "green"@,
            BasicColor::Yellow => "yellow"@,
            BasicColor::Blue => "blue"@,
            BasicColor::Magenta => "magenta"@,
            BasicColor::Cyan => "cyan"@,
            BasicColor::White => "white"@,
        }
    }

    /// The color whose name is `s`, if any.
    pub open spec fn named(s: Seq<char>) -> Option<Self> {
        if s == "black"@ {
            Some(BasicColor::Black)
        } else if s == "red"@ {
            Some(BasicColor::Red)
        } else if s == "green"@ {
            Some(BasicColor::Green)
        } else if s == "yellow"@ {
            Some(BasicColor::Yellow)
        } else if s == "blue"@ {
            Some(BasicColor::Blue)
        } else if s == "magenta"@ {
            Some(BasicColor::Magenta)
        } else if s == "cyan"@ {
            Some(BasicColor::Cyan)
        } else if s == "white"@ {
            Some(BasicColor::White)
        } else {
            None
        }
    }

    pub fn from_name(name: &str) -> (r: Option<Self>)
        ensures
            r == Self::named(name@),
    {
        if str_equals(name, "black") {
            return Some(BasicColor::Black);
        }
        if str_equals(name, "red") {
            return Some(BasicColor::Red);
        }
        if str_equals(name, "green") {
            return Some(BasicColor::Green);
        }
        if str_equals(name, "yellow") {
            return Some(BasicColor::Yellow);
        }
        if str_equals(name, "blue") {
            return Some(BasicColor::Blue);
        }
        if str_equals(name, "magenta") {
            return Some(BasicColor::Magenta);
        }
        if str_equals(name, "cyan") {
            return Some(BasicColor::Cyan);
        }
        if str_equals(name, "white") {
            return Some(BasicColor::White);
        }
        None
    }

    pub fn ansi_code(self) -> (c: u8)
        ensures
            c == self.spec_ansi_code(),
    {
        match self {
            BasicColor::Black => 0,
            BasicColor::Red => 1,
            BasicColor::Green => 2,
            BasicColor::Yellow => 3,
            BasicColor::Blue => 4,
            BasicColor::Magenta => 5,
            BasicColor::Cyan => 6,
            BasicColor::White => 7,
        }
    }

    /// The ANSI code of the bright variant: eight above the basic one.
    pub fn bright_ansi_code(self) -> (c: u8)
        ensures
            c == self.spec_ansi_code() + 8,
    {
        self.ansi_code() + 8
    }
}

/// Each basic color is found again by its name, and the codes of distinct
/// colors differ.
pub proof fn lemma_basic_color_names(c: BasicColor, d: BasicColor)
    ensures
        BasicColor::named(c.spec_name()) == Some(c),
        c.spec_ansi_code() < 8,
        c != d ==> c.spec_ansi_code() != d.spec_ansi_code(),
{
    match c {
        BasicColor::Black => {
            reveal_strlit("black");
        },
        BasicColor::Red => {
            reveal_strlit("red");
            reveal_strlit("black");
            assert("red"@.len() != "black"@.len());
        },
        BasicColor::Green => {
            reveal_strlit("green");
            reveal_strlit("black");
            assert("green"@[0] != "black"@[0]);
            reveal_strlit("red");
            assert("green"@.len() != "red"@.len());
        },
        BasicColor::Yellow => {
            reveal_strlit("yellow");
            reveal_strlit("black");
            assert("yellow"@.len() != "black"@.len());
            reveal_strlit("red");
            assert("yellow"@.len() != "red"@.len());
            reveal_strlit("green");
            assert("yellow"@.len() != "green"@.len());
        },
        BasicColor::Blue => {
            reveal_strlit("blue");
            reveal_strlit("black");
            assert("blue"@.len() != "black"@.len());
            reveal_strlit("red");
            assert("blue"@.len() != "red"@.len());
            reveal_strlit("green");
            assert("blue"@.len() != "green"@.len());
            reveal_strlit("yellow");
            assert("blue"@.len() != "yellow"@.len());
        },
        BasicColor::Magenta => {
            reveal_strlit("magenta");
            reveal_strlit("black");
            assert("magenta"@.len() != "black"@.len());
            reveal_strlit("red");
            assert("magenta"@.len() != "red"@.len());
            reveal_strlit("green");
            assert("magenta"@.len() != "green"@.len());
            reveal_strlit("yellow");
            assert("magenta"@.len() != "yellow"@.len());
            reveal_strlit("blue");
            assert("magenta"@.len() != "blue"@.len());
        },
        BasicColor::Cyan => {
            reveal_strlit("cyan");
            reveal_strlit("black");
            assert("cyan"@.len() != "black"@.len());
            reveal_strlit("red");
            assert("cyan"@.len() != "red"@.len());
            reveal_strlit("green");
            assert("cyan"@.len() != "green"@.len());
            reveal_strlit("yellow");
            assert("cyan"@.len() != "yellow"@.len());
            reveal_strlit("blue");
            assert("cyan"@[0] != "blue"@[0]);
            reveal_strlit("magenta");
            assert("cyan"@.len() != "magenta"@.len());
        },
        BasicColor::White => {
            reveal_strlit("white");
            reveal_strlit("black");
            assert("white"@[0] != "black"@[0]);
            reveal_strlit("red");
            assert("white"@.len() != "red"@.len());
            reveal_strlit("green");
            assert("white"@[0] != "green"@[0]);
            reveal_strlit("yellow");
            assert("white"@.len() != "yellow"@.len());
            reveal_strlit("blue");
            assert("white"@.len() != "blue"@.len());
            reveal_strlit("magenta");
            assert("white"@.len() != "magenta"@.len());
            reveal_strlit("cyan");
            assert("white"@.len() != "cyan"@.len());
        },
    }
}


/// The value of a hexadecimal digit, either case.
pub open spec fn spec_hex_digit(c: char) -> Option<u8> {
    let n = c as u32;
    if 48 <= n <= 57 {
        Some((n - 48) as u8)
    } else if 97 <= n <= 102 {
        Some((n - 87) as u8)
    } else if 65 <= n <= 70 {
        Some((n - 55) as u8)
    } else {
        None
    }
}

/// Whether the first `n` characters of `s` are hexadecimal digits.
pub open spec fn all_hex_digits(s: Seq<char>, n: int) -> bool {
    forall|i: int| 0 <= i < n ==> (#[trigger] spec_hex_digit(s[i])) is Some
}

/// The digit at `i` of `s`, as a number.
pub open spec fn digit_at(s: Seq<char>, i: int) -> int {
    spec_hex_digit(s[i])->0 as int
}

/// The red, green and blue of a hex color written without its `#`: six
/// digits, two per channel, or three, each standing for itself twice.
pub open spec fn spec_hex_color(s: Seq<char>) -> Option<(u8, u8, u8)> {
    if s.len() == 6 && all_hex_digits(s, 6) {
        Some(
            (
                (digit_at(s, 0) * 16 + digit_at(s, 1)) as u8,
                (digit_at(s, 2) * 16 + digit_at(s, 3)) as u8,
                (digit_at(s, 4) * 16 + digit_at(s, 5)) as u8,
            ),
        )
    } else if s.len() == 3 && all_hex_digits(s, 3) {
        Some(
            (
                (digit_at(s, 0) * 17) as u8,
                (digit_at(s, 1) * 17) as u8,
                (digit_at(s, 2) * 17) as u8,
            ),
        )
    } else {
        None
    }
}

/// The value of a hexadecimal digit, either case.
pub fn hex_digit(c: char) -> (r: Option<u8>)
    ensures
        r == spec_hex_digit(c),
        r matches Some(d) ==> d < 16,
{
    let n = c as u32;
    if 48 <= n && n <= 57 {
        Some((n - 48) as u8)
    } else if 97 <= n && n <= 102 {
        Some((n - 87) as u8)
    } else if 65 <= n && n <= 70 {
        Some((n - 55) as u8)
    } else {
        None
    }
}

/// Reads a hex color written without its `#`, as `spec_hex_color` says.
pub fn parse_hex_color(hex: &str) -> (r: Option<(u8, u8, u8)>)
    ensures
        r == spec_hex_color(hex@),
{
    let n = hex.unicode_len();
    if n != 6 && n != 3 {
        return None;
    }
    let mut digits: Vec<u8> = Vec::new();
    let mut i: usize = 0;
    while i < n
        invariant
            n == hex@.len(),
            n == 6 || n == 3,
            i <= n,
            digits@.len() == i,
            all_hex_digits(hex@, i as int),
            forall|j: int| 0 <= j < i ==> digits@[j] == #[trigger] digit_at(hex@, j),
            forall|j: int| 0 <= j < i ==> #[trigger] digits@[j] < 16,
        decreases n - i,
    {
        match hex_digit(hex.get_char(i)) {
            Some(d) => {
                digits.push(d);
            },
            None => {
                assert(!all_hex_digits(hex@, n as int));
                return None;
            },
        }
        i = i + 1;
    }
    proof {
        assert(digit_at(hex@, 0) == digits@[0]);
        assert(digit_at(hex@, 1) == digits@[1]);
        assert(digit_at(hex@, 2) == digits@[2]);
    }
    if n == 6 {
        proof {
            assert(digit_at(hex@, 3) == digits@[3]);
            assert(digit_at(hex@, 4) == digits@[4]);
            assert(digit_at(hex@, 5) == digits@[5]);
        }
        Some((digits[0] * 16 + digits[1], digits[2] * 16 + digits[3], digits[4] * 16 + digits[5]))
    } else {
        Some((digits[0] * 17, digits[1] * 17, digits[2] * 17))
    }
}

/// Whether the characters of `a` from `k` on are those of `b`.
fn suffix_equals(a: &str, k: usize, b: &str) -> (r: bool)
    requires
        k <= a@.len(),
    ensures
        r == (a@.skip(k as int) == b@),
{
    let n = a.unicode_len();
    if n - k != b.unicode_len() {
        proof {
            assert(a@.skip(k as int).len() != b@.len());
        }
        return false;
    }
    let mut i: usize = 0;
    while i < n - k
        invariant
            n == a@.len(),
            k <= n,
            n - k == b@.len(),
            i <= n - k,
            forall|j: int| 0 <= j < i ==> a@[k + j] == b@[j],
        decreases n - k - i,
    {
        if a.get_char(k + i) != b.get_char(i) {
            proof {
                assert(a@.skip(k as int)[i as int] != b@[i as int]);
            }
            return false;
        }
        i = i + 1;
    }
    assert(a@.skip(k as int) =~= b@);
    true
}

/// The basic color named by the characters of `name` from `k` on.
fn basic_color_after(name: &str, k: usize) -> (r: Option<BasicColor>)
    requires
        k <= name@.len(),
    ensures
        r == BasicColor::named(name@.skip(k as int)),
{
    if suffix_equals(name, k, "black") {
        Some(BasicColor::Black)
    } else if suffix_equals(name, k, "red") {
        Some(BasicColor::Red)
    } else if suffix_equals(name, k, "green") {
        Some(BasicColor::Green)
    } else if suffix_equals(name, k, "yellow") {
        Some(BasicColor::Yellow)
    } else if suffix_equals(name, k, "blue") {
        Some(BasicColor::Blue)
    } else if suffix_equals(name, k, "magenta") {
        Some(BasicColor::Magenta)
    } else if suffix_equals(name, k, "cyan") {
        Some(BasicColor::Cyan)
    } else if suffix_equals(name, k, "white") {
        Some(BasicColor::White)
    } else {
        None
    }
}

/// The color that a keyword names: `reset` or `default` for the
/// terminal's own, `bright-` and a basic name for its bright variant, or a
/// basic name.
pub open spec fn spec_color_keyword(s: Seq<char>) -> Option<Color> {
    if s == "reset"@ || s == "default"@ {
        Some(Color::Reset)
    } else if s.len() >= 7 && s.take(7) == "bright-"@ && BasicColor::named(s.skip(7)) is Some {
        Some(Color::Bright(BasicColor::named(s.skip(7))->0))
    } else {
        match BasicColor::named(s) {
            Some(b) => Some(Color::Basic(b)),
            None => None,
        }
    }
}

impl Color {
    /// The color that a keyword (in lower case) names, if any.
    pub fn from_keyword(name: &str) -> (r: Option<Color>)
        ensures
            r == spec_color_keyword(name@),
    {
        proof {
            reveal_strlit("reset");
            reveal_strlit("default");
            reveal_strlit("bright-");
        }
        if str_equals(name, "reset") || str_equals(name, "default") {
            return Some(Color::Reset);
        }
        let n = name.unicode_len();
        if n >= 7 {
            let prefix = "bright-";
            let mut i: usize = 0;
            let mut same = true;
            while i < 7
                invariant
                    n == name@.len(),
                    n >= 7,
                    prefix@ == "bright-"@,
                    prefix@.len() == 7,
                    i <= 7,
                    same == forall|j: int| 0 <= j < i ==> name@[j] == prefix@[j],
                decreases 7 - i,
            {
                if name.get_char(i) != prefix.get_char(i) {
                    same = false;
                }
                i = i + 1;
            }
            proof {
                if same {
                    assert(name@.take(7) =~= "bright-"@);
                } else {
                    let j = choose|j: int| 0 <= j < 7 && !(name@[j] == prefix@[j]);
                    assert(name@.take(7)[j] != "bright-"@[j]);
                }
            }
            if same {
                if let Some(b) = basic_color_after(name, 7) {
                    return Some(Color::Bright(b));
                }
            }
        }
        match BasicColor::from_name(name) {
            Some(b) => Some(Color::Basic(b)),
            None => None,
        }
    }
}

} // verus!
