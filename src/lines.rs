//! The shape of a single registry line.
//!
//! Every entity line is a fixed-width hexadecimal id, two spaces and a free
//! text name. Its depth is given by leading tabs. Shapes that are shared by the
//! two hierarchies (a tab and two digits; two tabs and two digits) are only
//! told apart by the section that the parser has reached.

use vstd::prelude::*;

verus! {

pub const TAB: u8 = 9;

pub const NEWLINE: u8 = 10;

pub const CARRIAGE_RETURN: u8 = 13;

pub const SPACE: u8 = 32;

pub const HASH: u8 = 35;

pub const UPPER_A: u8 = 65;

pub const UPPER_C: u8 = 67;

pub const UPPER_T: u8 = 84;

/// The syntactic kind of one registry line, before any context is applied.
#[derive(Clone, Copy, Debug, PartialEq, Eq, Structural)]
pub enum LineKind {
    /// An empty line.
    Blank,
    /// A line that starts with `#`.
    Comment,
    /// A line that starts with `AT `: the section after the classes.
    TypeMarker,
    /// `C hh  name`: a class header.
    ClassHeader(u8),
    /// `hhhh  name`: a vendor.
    Vendor(u16),
    /// A tab, then `hhhh  name`: a device of the open vendor.
    Device(u16),
    /// A tab, then `hh  name`: a subclass of the open class.
    SubClass(u8),
    /// Two tabs, then `hh  name`: an interface in the vendor section, a
    /// protocol in the class section.
    Nested(u8),
    /// Any other line; such lines are skipped.
    Unrecognized,
}

pub open spec fn is_hex_digit(b: u8) -> bool {
    (48 <= b <= 57) || (65 <= b <= 70) || (97 <= b <= 102)
}

pub open spec fn hex_digit_value(b: u8) -> int {
    if b <= 57 {
        b - 48
    } else if b <= 70 {
        b - 55
    } else {
        b - 87
    }
}

/// The `n` bytes of `l` from `at` on are all hexadecimal digits.
pub open spec fn hex_run(l: Seq<u8>, at: int, n: int) -> bool {
    forall|i: int| at <= i < at + n ==> #[trigger] is_hex_digit(l[i])
}

pub open spec fn hex2(l: Seq<u8>, at: int) -> int {
    16 * hex_digit_value(l[at]) + hex_digit_value(l[at + 1])
}

pub open spec fn hex4(l: Seq<u8>, at: int) -> int {
    256 * hex2(l, at) + hex2(l, at + 2)
}

pub open spec fn two_spaces_at(l: Seq<u8>, at: int) -> bool {
    l[at] == SPACE && l[at + 1] == SPACE
}

/// The kind of the line `l` (without its line terminator).
pub open spec fn line_kind(l: Seq<u8>) -> LineKind {
    if l.len() == 0 {
        LineKind::Blank
    } else if l[0] == HASH {
        LineKind::Comment
    } else if l.len() >= 3 && l[0] == UPPER_A && l[1] == UPPER_T && l[2] == SPACE {
        LineKind::TypeMarker
    } else if l.len() >= 6 && l[0] == UPPER_C && l[1] == SPACE && hex_run(l, 2, 2)
        && two_spaces_at(l, 4) {
        LineKind::ClassHeader(hex2(l, 2) as u8)
    } else if l.len() >= 6 && hex_run(l, 0, 4) && two_spaces_at(l, 4) {
        LineKind::Vendor(hex4(l, 0) as u16)
    } else if l.len() >= 7 && l[0] == TAB && hex_run(l, 1, 4) && two_spaces_at(l, 5) {
        LineKind::Device(hex4(l, 1) as u16)
    } else if l.len() >= 5 && l[0] == TAB && hex_run(l, 1, 2) && two_spaces_at(l, 3) {
        LineKind::SubClass(hex2(l, 1) as u8)
    } else if l.len() >= 6 && l[0] == TAB && l[1] == TAB && hex_run(l, 2, 2) && two_spaces_at(
        l,
        4,
    ) {
        LineKind::Nested(hex2(l, 2) as u8)
    } else {
        LineKind::Unrecognized
    }
}

/// The line starts with `C `, the mark of the class section. Any such line
/// ends the vendor section, whether or not it is a well-formed class header.
pub open spec fn marks_class_section(l: Seq<u8>) -> bool {
    l.len() >= 2 && l[0] == UPPER_C && l[1] == SPACE
}

/// Where the name begins on a line of kind `k`.
pub open spec fn name_start(k: LineKind) -> int {
    match k {
        LineKind::Device(_) => 7,
        LineKind::SubClass(_) => 5,
        LineKind::ClassHeader(_) | LineKind::Vendor(_) | LineKind::Nested(_) => 6,
        _ => 0,
    }
}

/// The name carried by the line `l`.
pub open spec fn line_name(l: Seq<u8>) -> Seq<u8> {
    l.subrange(name_start(line_kind(l)), l.len() as int)
}

/// `l` without one trailing carriage return.
pub open spec fn strip_cr(l: Seq<u8>) -> Seq<u8> {
    if l.len() > 0 && l.last() == CARRIAGE_RETURN {
        l.drop_last()
    } else {
        l
    }
}

/// The lines of `text` from position `i` on, where the line in progress
/// began at `start`. Lines end at a newline; a trailing carriage return is
/// not part of the line, and text after the last newline is a last line.
pub open spec fn lines_from(text: Seq<u8>, start: int, i: int) -> Seq<Seq<u8>>
    decreases text.len() - i,
{
    if i >= text.len() {
        if start < text.len() {
            seq![strip_cr(text.subrange(start, text.len() as int))]
        } else {
            seq![]
        }
    } else if text[i] == NEWLINE {
        seq![strip_cr(text.subrange(start, i))] + lines_from(text, i + 1, i + 1)
    } else {
        lines_from(text, start, i + 1)
    }
}

/// The lines of a registry text.
pub open spec fn registry_lines(text: Seq<u8>) -> Seq<Seq<u8>> {
    lines_from(text, 0, 0)
}

fn hex_digit(b: u8) -> (r: Option<u8>)
    ensures
        match r {
            Some(v) => is_hex_digit(b) && v == hex_digit_value(b),
            None => !is_hex_digit(b),
        },
{
    if 48 <= b && b <= 57 {
        Some(b - 48)
    } else if 65 <= b && b <= 70 {
        Some(b - 55)
    } else if 97 <= b && b <= 102 {
        Some(b - 87)
    } else {
        None
    }
}

/// Reads the two hexadecimal digits at `at`.
fn read_hex2(l: &[u8], at: usize) -> (r: Option<u8>)
    requires
        at + 2 <= l@.len(),
    ensures
        match r {
            Some(v) => hex_run(l@, at as int, 2) && v == hex2(l@, at as int),
            None => !hex_run(l@, at as int, 2),
        },
{
    match (hex_digit(l[at]), hex_digit(l[at + 1])) {
        (Some(hi), Some(lo)) => {
            assert(hex_run(l@, at as int, 2)) by {
                assert forall|i: int| at <= i < at + 2 implies #[trigger] is_hex_digit(l@[i]) by {
                    if i == at as int {
                    } else {
                        assert(i == at + 1);
                    }
                }
            }
            Some(16 * hi + lo)
        },
        (None, _) => {
            assert(!is_hex_digit(l@[at as int]));
            None
        },
        (_, None) => {
            assert(!is_hex_digit(l@[at + 1]));
            None
        },
    }
}

/// Reads the four hexadecimal digits at `at`.
fn read_hex4(l: &[u8], at: usize) -> (r: Option<u16>)
    requires
        at + 4 <= l@.len(),
    ensures
        match r {
            Some(v) => hex_run(l@, at as int, 4) && v == hex4(l@, at as int),
            None => !hex_run(l@, at as int, 4),
        },
{
    let len: usize = l.len();
    assert(at + 2 < len);
    match (read_hex2(l, at), read_hex2(l, at + 2)) {
        (Some(hi), Some(lo)) => {
            assert(hex_run(l@, at as int, 4)) by {
                assert forall|i: int| at <= i < at + 4 implies #[trigger] is_hex_digit(l@[i]) by {
                    if i < at + 2 {
                        assert(hex_run(l@, at as int, 2));
                    } else {
                        assert(hex_run(l@, at + 2, 2));
                    }
                }
            }
            Some(256 * (hi as u16) + lo as u16)
        },
        _ => None,
    }
}

fn two_spaces(l: &[u8], at: usize) -> (r: bool)
    requires
        at + 2 <= l@.len(),
    ensures
        r == two_spaces_at(l@, at as int),
{
    l[at] == SPACE && l[at + 1] == SPACE
}

/// Tells whether the line starts with `C `.
pub fn is_class_section_mark(l: &[u8]) -> (r: bool)
    ensures
        r == marks_class_section(l@),
{
    l.len() >= 2 && l[0] == UPPER_C && l[1] == SPACE
}

/// Classifies one line, given without its line terminator.
pub fn classify_line(l: &[u8]) -> (k: LineKind)
    ensures
        k == line_kind(l@),
{
    let n = l.len();
    if n == 0 {
        return LineKind::Blank;
    }
    if l[0] == HASH {
        return LineKind::Comment;
    }
    if n >= 3 && l[0] == UPPER_A && l[1] == UPPER_T && l[2] == SPACE {
        return LineKind::TypeMarker;
    }
    if n >= 6 && l[0] == UPPER_C && l[1] == SPACE && two_spaces(l, 4) {
        if let Some(id) = read_hex2(l, 2) {
            return LineKind::ClassHeader(id);
        }
    }
    if n >= 6 && two_spaces(l, 4) {
        if let Some(id) = read_hex4(l, 0) {
            return LineKind::Vendor(id);
        }
    }
    if n >= 7 && l[0] == TAB && two_spaces(l, 5) {
        if let Some(id) = read_hex4(l, 1) {
            return LineKind::Device(id);
        }
    }
    if n >= 5 && l[0] == TAB && two_spaces(l, 3) {
        if let Some(id) = read_hex2(l, 1) {
            return LineKind::SubClass(id);
        }
    }
    if n >= 6 && l[0] == TAB && l[1] == TAB && two_spaces(l, 4) {
        if let Some(id) = read_hex2(l, 2) {
            return LineKind::Nested(id);
        }
    }
    LineKind::Unrecognized
}

} // verus!
