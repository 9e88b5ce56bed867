//! Plain data carried through the engine: RGB colors with their hex
//! notation, text styles, and the modifier-key state.

use vstd::prelude::*;

use crate::text::{
    all_hex_digits, hex_digit_of, hex_val, lower_chars, lower_seq, push_char, to_chars,
};
use vstd::string::StringExecFns;

verus! {

/// An RGB color.
#[derive(Debug, PartialEq, Eq, Structural, Clone, Copy)]
pub struct Color {
    pub r: u8,
    pub g: u8,
    pub b: u8,
}

impl Default for Color {
    fn default() -> (r: Self)
        ensures
            r == (Color { r: 0, g: 0, b: 0 }),
    {
        Color { r: 0, g: 0, b: 0 }
    }
}

/// The lower-case hex digit of a value below sixteen.
pub open spec fn hex_digit_char(d: int) -> char {
    if d == 0 {
        '0'
    } else if d == 1 {
        '1'
    } else if d == 2 {
        '2'
    } else if d == 3 {
        '3'
    } else if d == 4 {
        '4'
    } else if d == 5 {
        '5'
    } else if d == 6 {
        '6'
    } else if d == 7 {
        '7'
    } else if d == 8 {
        '8'
    } else if d == 9 {
        '9'
    } else if d == 10 {
        'a'
    } else if d == 11 {
        'b'
    } else if d == 12 {
        'c'
    } else if d == 13 {
        'd'
    } else if d == 14 {
        'e'
    } else {
        'f'
    }
}

/// The two lower-case hex digits of a byte.
pub open spec fn byte_hex(b: u8) -> Seq<char> {
    seq![hex_digit_char(b as int / 16), hex_digit_char(b as int % 16)]
}

/// The hex notation of a color: `#` and six lower-case digits.
pub open spec fn color_hex_spec(c: Color) -> Seq<char> {
    seq!['#'] + byte_hex(c.r) + byte_hex(c.g) + byte_hex(c.b)
}

/// The lower-case hex digit of a value below sixteen.
pub fn hex_digit_char_exec(d: u8) -> (r: char)
    requires
        d < 16,
    ensures
        r == hex_digit_char(d as int),
{
    match d {
        0 => '0',
        1 => '1',
        2 => '2',
        3 => '3',
        4 => '4',
        5 => '5',
        6 => '6',
        7 => '7',
        8 => '8',
        9 => '9',
        10 => 'a',
        11 => 'b',
        12 => 'c',
        13 => 'd',
        14 => 'e',
        _ => 'f',
    }
}

fn push_byte_hex(s: &mut String, b: u8)
    ensures
        final(s)@ == old(s)@ + byte_hex(b),
{
    let ghost before = s@;
    push_char(s, hex_digit_char_exec(b / 16));
    push_char(s, hex_digit_char_exec(b % 16));
    proof {
        assert(s@ =~= before + byte_hex(b));
    }
}

/// The hex prefixes the parser strips: a leading `0x`, then a leading
/// `#`.
pub open spec fn strip_hex_prefixes(s: Seq<char>) -> Seq<char> {
    let s1 = if s.len() >= 2 && s[0] == '0' && s[1] == 'x' {
        s.skip(2)
    } else {
        s
    };
    if s1.len() >= 1 && s1[0] == '#' {
        s1.skip(1)
    } else {
        s1
    }
}

/// The value of a two-digit hex pair, or zero where either character is
/// not a hex digit.
pub open spec fn hex_byte_or_zero(two: Seq<char>) -> int {
    if all_hex_digits(two) {
        hex_val(two)
    } else {
        0
    }
}

/// What parsing a hex color notation yields: after lower-casing and
/// prefix stripping, exactly six characters are accepted, each
/// two-digit component reading as its hex value or as zero when
/// malformed.
pub open spec fn color_from_hex_spec(s: Seq<char>) -> Option<Color> {
    let t = strip_hex_prefixes(lower_seq(s));
    if t.len() == 6 {
        Some(
            Color {
                r: hex_byte_or_zero(t.subrange(0, 2)) as u8,
                g: hex_byte_or_zero(t.subrange(2, 4)) as u8,
                b: hex_byte_or_zero(t.subrange(4, 6)) as u8,
            },
        )
    } else {
        None
    }
}

fn hex_pair_or_zero(cs: &Vec<char>, at: usize) -> (r: u8)
    requires
        at + 2 <= cs@.len(),
    ensures
        r as int == hex_byte_or_zero(cs@.subrange(at as int, at + 2)),
{
    let n = cs.len();
    let ghost two = cs@.subrange(at as int, at + 2);
    proof {
        assert(two.len() == 2);
        assert(two[0] == cs@[at as int]);
        assert(two[1] == cs@[at + 1]);
        assert(two.drop_last() =~= seq![cs@[at as int]]);
        assert(two.drop_last().drop_last() =~= Seq::<char>::empty());
    }
    let hi = hex_digit_of(cs[at]);
    let lo = hex_digit_of(cs[at + 1]);
    match (hi, lo) {
        (Some(h), Some(l)) => {
            proof {
                assert(all_hex_digits(two));
                assert(hex_val(Seq::<char>::empty()) == 0);
                assert(two.drop_last().last() == cs@[at as int]);
                assert(hex_val(two.drop_last()) == h as int);
                assert(hex_val(two) == h as int * 16 + l as int);
            }
            16 * h + l
        },
        _ => {
            proof {
                assert(!all_hex_digits(two));
            }
            0
        },
    }
}

impl Color {
    /// Parses a hex color notation, case-insensitively, allowing a `0x`
    /// or `#` prefix; any length other than six digits is rejected,
    /// while malformed digits read as zero.
    pub fn from_hex(hex: &str) -> (r: Option<Color>)
        ensures
            r == color_from_hex_spec(hex@),
    {
        let cs = to_chars(hex);
        let low = lower_chars(&cs);
        let mut start: usize = 0;
        if low.len() >= 2 && low[0] == '0' && low[1] == 'x' {
            start = 2;
        }
        if low.len() >= start + 1 && low[start] == '#' {
            start = start + 1;
        }
        let ghost t = strip_hex_prefixes(lower_seq(hex@));
        proof {
            assert(low@.skip(start as int) =~= t);
        }
        if low.len() - start != 6 {
            return None;
        }
        let r = hex_pair_or_zero(&low, start);
        let g = hex_pair_or_zero(&low, start + 2);
        let b = hex_pair_or_zero(&low, start + 4);
        proof {
            assert(low@.subrange(start as int, start + 2) =~= t.subrange(0, 2));
            assert(low@.subrange(start + 2, start + 4) =~= t.subrange(2, 4));
            assert(low@.subrange(start + 4, start + 6) =~= t.subrange(4, 6));
        }
        Some(Color { r, g, b })
    }

    /// The hex notation of this color.
    pub fn to_hex(&self) -> (r: String)
        ensures
            r@ == color_hex_spec(*self),
    {
        let mut s = String::new();
        push_char(&mut s, '#');
        push_byte_hex(&mut s, self.r);
        push_byte_hex(&mut s, self.g);
        push_byte_hex(&mut s, self.b);
        proof {
            assert(s@ =~= color_hex_spec(*self));
        }
        s
    }

    /// Parses `hex`, falling back to `optb` when `hex` is rejected.
    pub fn from_hex_or(hex: &str, optb: &str) -> (r: Option<Color>)
        ensures
            r == if color_from_hex_spec(hex@) is Some {
                color_from_hex_spec(hex@)
            } else {
                color_from_hex_spec(optb@)
            },
    {
        let first = Self::from_hex(hex);
        if first.is_some() {
            first
        } else {
            Self::from_hex(optb)
        }
    }

    /// The color with every component flipped.
    pub fn inverted(&self) -> (r: Color)
        ensures
            r.r == 255 - self.r,
            r.g == 255 - self.g,
            r.b == 255 - self.b,
    {
        Color { r: 255 - self.r, g: 255 - self.g, b: 255 - self.b }
    }
}

/// A named set of fonts for the board renderer.
#[derive(Debug)]
pub struct TextStyle {
    pub name: String,
    pub header_font: String,
    pub pad_header_font: String,
    pub pad_text_font: String,
    pub pad_id_font: String,
}

impl Clone for TextStyle {
    fn clone(&self) -> (r: Self)
        ensures
            r.name@ == self.name@,
            r.header_font@ == self.header_font@,
            r.pad_header_font@ == self.pad_header_font@,
            r.pad_text_font@ == self.pad_text_font@,
            r.pad_id_font@ == self.pad_id_font@,
    {
        TextStyle {
            name: self.name.clone(),
            header_font: self.header_font.clone(),
            pad_header_font: self.pad_header_font.clone(),
            pad_text_font: self.pad_text_font.clone(),
            pad_id_font: self.pad_id_font.clone(),
        }
    }
}

impl Default for TextStyle {
    fn default() -> (r: Self)
        ensures
            r.name@ == "default"@,
            r.header_font@ == "Impact Bold 24"@,
            r.pad_header_font@ == "Consolas 9"@,
            r.pad_text_font@ == "Arial Bold 12"@,
            r.pad_id_font@ == "Impact Bold 10"@,
    {
        TextStyle {
            name: "default".to_owned(),
            header_font: "Impact Bold 24".to_owned(),
            pad_header_font: "Consolas 9".to_owned(),
            pad_text_font: "Arial Bold 12".to_owned(),
            pad_id_font: "Impact Bold 10".to_owned(),
        }
    }
}

/// The state of the four modifier keys.
#[derive(Debug, PartialEq, Eq, Structural, Clone, Copy)]
pub struct ModifierState {
    pub ctrl: bool,
    pub shift: bool,
    pub alt: bool,
    pub super_key: bool,
}

impl Default for ModifierState {
    fn default() -> (r: Self)
        ensures
            r == (ModifierState { ctrl: false, shift: false, alt: false, super_key: false }),
    {
        ModifierState { ctrl: false, shift: false, alt: false, super_key: false }
    }
}

/// The names of the held modifiers, in fixed order.
pub open spec fn modifier_parts(m: ModifierState) -> Seq<Seq<char>> {
    (if m.ctrl {
        seq!["Ctrl"@]
    } else {
        seq![]
    }) + (if m.shift {
        seq!["Shift"@]
    } else {
        seq![]
    }) + (if m.alt {
        seq!["Alt"@]
    } else {
        seq![]
    }) + (if m.super_key {
        seq!["Super"@]
    } else {
        seq![]
    })
}

/// Parts joined with `+`.
pub open spec fn join_plus(parts: Seq<Seq<char>>) -> Seq<char>
    decreases parts.len(),
{
    if parts.len() == 0 {
        seq![]
    } else if parts.len() == 1 {
        parts[0]
    } else {
        join_plus(parts.drop_last()) + seq!['+'] + parts.last()
    }
}

/// The text of a modifier state: the held modifiers' names joined with
/// `+`.
pub open spec fn modifier_text_spec(m: ModifierState) -> Seq<char> {
    join_plus(modifier_parts(m))
}

proof fn lemma_join_push(parts: Seq<Seq<char>>, x: Seq<char>)
    ensures
        join_plus(parts.push(x)) == if parts.len() == 0 {
            x
        } else {
            join_plus(parts) + seq!['+'] + x
        },
{
    assert(parts.push(x).drop_last() =~= parts);
    assert(parts.push(x).last() == x);
    if parts.len() == 0 {
        assert(join_plus(parts.push(x)) == parts.push(x)[0]);
    }
}

impl ModifierState {
    /// Whether no modifier is held.
    pub fn is_none(&self) -> (r: bool)
        ensures
            r == (!self.ctrl && !self.shift && !self.alt && !self.super_key),
    {
        !self.ctrl && !self.shift && !self.alt && !self.super_key
    }

    /// The display text of this state, e.g. `Ctrl+Alt`.
    pub fn text(&self) -> (r: String)
        ensures
            r@ == modifier_text_spec(*self),
    {
        let mut s = String::new();
        let mut first = true;
        let ghost mut parts: Seq<Seq<char>> = Seq::empty();
        proof {
            assert(s@ =~= join_plus(parts));
        }
        if self.ctrl {
            s = push_part(s, first, "Ctrl");
            proof {
                lemma_join_push(parts, "Ctrl"@);
                parts = parts.push("Ctrl"@);
            }
            first = false;
        }
        if self.shift {
            s = push_part(s, first, "Shift");
            proof {
                lemma_join_push(parts, "Shift"@);
                parts = parts.push("Shift"@);
            }
            first = false;
        }
        if self.alt {
            s = push_part(s, first, "Alt");
            proof {
                lemma_join_push(parts, "Alt"@);
                parts = parts.push("Alt"@);
            }
            first = false;
        }
        if self.super_key {
            s = push_part(s, first, "Super");
            proof {
                lemma_join_push(parts, "Super"@);
                parts = parts.push("Super"@);
            }
        }
        proof {
            assert(parts =~= modifier_parts(*self));
        }
        s
    }
}

/// Appends one part, preceded by `+` unless it is the first.
fn push_part(s: String, first: bool, part: &str) -> (r: String)
    ensures
        first ==> r@ == s@ + part@,
        !first ==> r@ == s@ + seq!['+'] + part@,
{
    let mut s = s;
    if !first {
        push_char(&mut s, '+');
    }
    let r = s.concat(part);
    proof {
        if first {
            assert(r@ =~= r@);
        }
    }
    r
}

} // verus!
