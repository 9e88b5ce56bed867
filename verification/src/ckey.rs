//! Character-to-key resolution: a fixed table mapping characters to a
//! key plus shift state, with an optional layout remapping consulted
//! before the table.

use vstd::prelude::*;

use crate::vkey::{vkm, VirtualKey, VirtualKeyModel};

verus! {

/// Spec-level image of a resolved character key.
#[verifier::ext_equal]
pub ghost struct CharacterKeyModel {
    pub vkey: VirtualKeyModel,
    pub shift: bool,
}

/// A key together with the shift state needed to type one character.
#[derive(Debug)]
pub struct CharacterKey {
    pub vkey: VirtualKey,
    pub shift: bool,
}

impl View for CharacterKey {
    type V = CharacterKeyModel;

    open spec fn view(&self) -> CharacterKeyModel {
        CharacterKeyModel { vkey: self.vkey@, shift: self.shift }
    }
}

impl Clone for CharacterKey {
    fn clone(&self) -> (r: Self)
        ensures
            r@ == self@,
    {
        CharacterKey { vkey: self.vkey.clone(), shift: self.shift }
    }
}

impl CharacterKey {
    /// A character key typed without shift.
    pub fn new(vkey: VirtualKey) -> (r: Self)
        ensures
            r@ == (CharacterKeyModel { vkey: vkey@, shift: false }),
    {
        CharacterKey { vkey, shift: false }
    }

    /// A character key typed with shift held.
    pub fn new_sh(vkey: VirtualKey) -> (r: Self)
        ensures
            r@ == (CharacterKeyModel { vkey: vkey@, shift: true }),
    {
        CharacterKey { vkey, shift: true }
    }
}

pub open spec fn ckm(vkey: u16, linux_key: u16, title: Seq<char>, shift: bool) -> Option<
    CharacterKeyModel,
> {
    Some(CharacterKeyModel { vkey: vkm(vkey, linux_key, title), shift })
}

/// The fixed character table: letters carry shift when upper-case,
/// digits and punctuation map their shifted symbol onto the same key
/// with shift, and space maps to the space key. Every other character
/// resolves to nothing.
pub open spec fn char_key_spec(c: char) -> Option<CharacterKeyModel> {
    match c {
        'a' => ckm(0x41, 30, "a"@, false),
        'b' => ckm(0x42, 48, "b"@, false),
        'c' => ckm(0x43, 46, "c"@, false),
        'd' => ckm(0x44, 32, "d"@, false),
        'e' => ckm(0x45, 18, "e"@, false),
        'f' => ckm(0x46, 33, "f"@, false),
        'g' => ckm(0x47, 34, "g"@, false),
        'h' => ckm(0x48, 35, "h"@, false),
        'i' => ckm(0x49, 23, "i"@, false),
        'j' => ckm(0x4A, 36, "j"@, false),
        'k' => ckm(0x4B, 37, "k"@, false),
        'l' => ckm(0x4C, 38, "l"@, false),
        'm' => ckm(0x4D, 50, "m"@, false),
        'n' => ckm(0x4E, 49, "n"@, false),
        'o' => ckm(0x4F, 24, "o"@, false),
        'p' => ckm(0x50, 25, "p"@, false),
        'q' => ckm(0x51, 16, "q"@, false),
        'r' => ckm(0x52, 19, "r"@, false),
        's' => ckm(0x53, 31, "s"@, false),
        't' => ckm(0x54, 20, "t"@, false),
        'u' => ckm(0x55, 22, "u"@, false),
        'v' => ckm(0x56, 47, "v"@, false),
        'w' => ckm(0x57, 17, "w"@, false),
        'x' => ckm(0x58, 45, "x"@, false),
        'y' => ckm(0x59, 21, "y"@, false),
        'z' => ckm(0x5A, 44, "z"@, false),
        'A' => ckm(0x41, 30, "a"@, true),
        'B' => ckm(0x42, 48, "b"@, true),
        'C' => ckm(0x43, 46, "c"@, true),
        'D' => ckm(0x44, 32, "d"@, true),
        'E' => ckm(0x45, 18, "e"@, true),
        'F' => ckm(0x46, 33, "f"@, true),
        'G' => ckm(0x47, 34, "g"@, true),
        'H' => ckm(0x48, 35, "h"@, true),
        'I' => ckm(0x49, 23, "i"@, true),
        'J' => ckm(0x4A, 36, "j"@, true),
        'K' => ckm(0x4B, 37, "k"@, true),
        'L' => ckm(0x4C, 38, "l"@, true),
        'M' => ckm(0x4D, 50, "m"@, true),
        'N' => ckm(0x4E, 49, "n"@, true),
        'O' => ckm(0x4F, 24, "o"@, true),
        'P' => ckm(0x50, 25, "p"@, true),
        'Q' => ckm(0x51, 16, "q"@, true),
        'R' => ckm(0x52, 19, "r"@, true),
        'S' => ckm(0x53, 31, "s"@, true),
        'T' => ckm(0x54, 20, "t"@, true),
        'U' => ckm(0x55, 22, "u"@, true),
        'V' => ckm(0x56, 47, "v"@, true),
        'W' => ckm(0x57, 17, "w"@, true),
        'X' => ckm(0x58, 45, "x"@, true),
        'Y' => ckm(0x59, 21, "y"@, true),
        'Z' => ckm(0x5A, 44, "z"@, true),
        '1' => ckm(0x31, 2, "1"@, false),
        '!' => ckm(0x31, 2, "1"@, true),
        '2' => ckm(0x32, 3, "2"@, false),
        '@' => ckm(0x32, 3, "2"@, true),
        '3' => ckm(0x33, 4, "3"@, false),
        '#' => ckm(0x33, 4, "3"@, true),
        '4' => ckm(0x34, 5, "4"@, false),
        '$' => ckm(0x34, 5, "4"@, true),
        '5' => ckm(0x35, 6, "5"@, false),
        '%' => ckm(0x35, 6, "5"@, true),
        '6' => ckm(0x36, 7, "6"@, false),
        '^' => ckm(0x36, 7, "6"@, true),
        '7' => ckm(0x37, 8, "7"@, false),
        '&' => ckm(0x37, 8, "7"@, true),
        '8' => ckm(0x38, 9, "8"@, false),
        '*' => ckm(0x38, 9, "8"@, true),
        '9' => ckm(0x39, 10, "9"@, false),
        '(' => ckm(0x39, 10, "9"@, true),
        '0' => ckm(0x30, 11, "0"@, false),
        ')' => ckm(0x30, 11, "0"@, true),
        ';' => ckm(0xBA, 39, ";"@, false),
        ':' => ckm(0xBA, 39, ";"@, true),
        '=' => ckm(0xBB, 13, "="@, false),
        '+' => ckm(0xBB, 13, "="@, true),
        '-' => ckm(0xBD, 12, "-"@, false),
        '_' => ckm(0xBD, 12, "-"@, true),
        ',' => ckm(0xBC, 51, ","@, false),
        '<' => ckm(0xBC, 51, ","@, true),
        '.' => ckm(0xBE, 52, "."@, false),
        '>' => ckm(0xBE, 52, "."@, true),
        '/' => ckm(0xBF, 53, "/"@, false),
        '?' => ckm(0xBF, 53, "/"@, true),
        '`' => ckm(0xC0, 41, "`"@, false),
        '~' => ckm(0xC0, 41, "`"@, true),
        '[' => ckm(0xDB, 26, "["@, false),
        '{' => ckm(0xDB, 26, "["@, true),
        ']' => ckm(0xDD, 27, "]"@, false),
        '}' => ckm(0xDD, 27, "]"@, true),
        '\'' => ckm(0xDE, 40, "'"@, false),
        '"' => ckm(0xDE, 40, "'"@, true),
        '\\' => ckm(0xDC, 43, "\\"@, false),
        '|' => ckm(0xDC, 43, "\\"@, true),
        ' ' => ckm(0x20, 57, "space"@, false),
        _ => None,
    }
}

/// Resolves one character against the fixed character table.
pub fn resolve_default(c: char) -> (r: Option<CharacterKey>)
    ensures
        match r {
            Some(k) => char_key_spec(c) == Some(k@),
            None => char_key_spec(c) is None,
        },
{
    match c {
        'a' => Some(CharacterKey::new(VirtualKey::new(0x41, 30, "a"))),
        'b' => Some(CharacterKey::new(VirtualKey::new(0x42, 48, "b"))),
        'c' => Some(CharacterKey::new(VirtualKey::new(0x43, 46, "c"))),
        'd' => Some(CharacterKey::new(VirtualKey::new(0x44, 32, "d"))),
        'e' => Some(CharacterKey::new(VirtualKey::new(0x45, 18, "e"))),
        'f' => Some(CharacterKey::new(VirtualKey::new(0x46, 33, "f"))),
        'g' => Some(CharacterKey::new(VirtualKey::new(0x47, 34, "g"))),
        'h' => Some(CharacterKey::new(VirtualKey::new(0x48, 35, "h"))),
        'i' => Some(CharacterKey::new(VirtualKey::new(0x49, 23, "i"))),
        'j' => Some(CharacterKey::new(VirtualKey::new(0x4A, 36, "j"))),
        'k' => Some(CharacterKey::new(VirtualKey::new(0x4B, 37, "k"))),
        'l' => Some(CharacterKey::new(VirtualKey::new(0x4C, 38, "l"))),
        'm' => Some(CharacterKey::new(VirtualKey::new(0x4D, 50, "m"))),
        'n' => Some(CharacterKey::new(VirtualKey::new(0x4E, 49, "n"))),
        'o' => Some(CharacterKey::new(VirtualKey::new(0x4F, 24, "o"))),
        'p' => Some(CharacterKey::new(VirtualKey::new(0x50, 25, "p"))),
        'q' => Some(CharacterKey::new(VirtualKey::new(0x51, 16, "q"))),
        'r' => Some(CharacterKey::new(VirtualKey::new(0x52, 19, "r"))),
        's' => Some(CharacterKey::new(VirtualKey::new(0x53, 31, "s"))),
        't' => Some(CharacterKey::new(VirtualKey::new(0x54, 20, "t"))),
        'u' => Some(CharacterKey::new(VirtualKey::new(0x55, 22, "u"))),
        'v' => Some(CharacterKey::new(VirtualKey::new(0x56, 47, "v"))),
        'w' => Some(CharacterKey::new(VirtualKey::new(0x57, 17, "w"))),
        'x' => Some(CharacterKey::new(VirtualKey::new(0x58, 45, "x"))),
        'y' => Some(CharacterKey::new(VirtualKey::new(0x59, 21, "y"))),
        'z' => Some(CharacterKey::new(VirtualKey::new(0x5A, 44, "z"))),
        'A' => Some(CharacterKey::new_sh(VirtualKey::new(0x41, 30, "a"))),
        'B' => Some(CharacterKey::new_sh(VirtualKey::new(0x42, 48, "b"))),
        'C' => Some(CharacterKey::new_sh(VirtualKey::new(0x43, 46, "c"))),
        'D' => Some(CharacterKey::new_sh(VirtualKey::new(0x44, 32, "d"))),
        'E' => Some(CharacterKey::new_sh(VirtualKey::new(0x45, 18, "e"))),
        'F' => Some(CharacterKey::new_sh(VirtualKey::new(0x46, 33, "f"))),
        'G' => Some(CharacterKey::new_sh(VirtualKey::new(0x47, 34, "g"))),
        'H' => Some(CharacterKey::new_sh(VirtualKey::new(0x48, 35, "h"))),
        'I' => Some(CharacterKey::new_sh(VirtualKey::new(0x49, 23, "i"))),
        'J' => Some(CharacterKey::new_sh(VirtualKey::new(0x4A, 36, "j"))),
        'K' => Some(CharacterKey::new_sh(VirtualKey::new(0x4B, 37, "k"))),
        'L' => Some(CharacterKey::new_sh(VirtualKey::new(0x4C, 38, "l"))),
        'M' => Some(CharacterKey::new_sh(VirtualKey::new(0x4D, 50, "m"))),
        'N' => Some(CharacterKey::new_sh(VirtualKey::new(0x4E, 49, "n"))),
        'O' => Some(CharacterKey::new_sh(VirtualKey::new(0x4F, 24, "o"))),
        'P' => Some(CharacterKey::new_sh(VirtualKey::new(0x50, 25, "p"))),
        'Q' => Some(CharacterKey::new_sh(VirtualKey::new(0x51, 16, "q"))),
        'R' => Some(CharacterKey::new_sh(VirtualKey::new(0x52, 19, "r"))),
        'S' => Some(CharacterKey::new_sh(VirtualKey::new(0x53, 31, "s"))),
        'T' => Some(CharacterKey::new_sh(VirtualKey::new(0x54, 20, "t"))),
        'U' => Some(CharacterKey::new_sh(VirtualKey::new(0x55, 22, "u"))),
        'V' => Some(CharacterKey::new_sh(VirtualKey::new(0x56, 47, "v"))),
        'W' => Some(CharacterKey::new_sh(VirtualKey::new(0x57, 17, "w"))),
        'X' => Some(CharacterKey::new_sh(VirtualKey::new(0x58, 45, "x"))),
        'Y' => Some(CharacterKey::new_sh(VirtualKey::new(0x59, 21, "y"))),
        'Z' => Some(CharacterKey::new_sh(VirtualKey::new(0x5A, 44, "z"))),
        '1' => Some(CharacterKey::new(VirtualKey::new(0x31, 2, "1"))),
        '!' => Some(CharacterKey::new_sh(VirtualKey::new(0x31, 2, "1"))),
        '2' => Some(CharacterKey::new(VirtualKey::new(0x32, 3, "2"))),
        '@' => Some(CharacterKey::new_sh(VirtualKey::new(0x32, 3, "2"))),
        '3' => Some(CharacterKey::new(VirtualKey::new(0x33, 4, "3"))),
        '#' => Some(CharacterKey::new_sh(VirtualKey::new(0x33, 4, "3"))),
        '4' => Some(CharacterKey::new(VirtualKey::new(0x34, 5, "4"))),
        '$' => Some(CharacterKey::new_sh(VirtualKey::new(0x34, 5, "4"))),
        '5' => Some(CharacterKey::new(VirtualKey::new(0x35, 6, "5"))),
        '%' => Some(CharacterKey::new_sh(VirtualKey::new(0x35, 6, "5"))),
        '6' => Some(CharacterKey::new(VirtualKey::new(0x36, 7, "6"))),
        '^' => Some(CharacterKey::new_sh(VirtualKey::new(0x36, 7, "6"))),
        '7' => Some(CharacterKey::new(VirtualKey::new(0x37, 8, "7"))),
        '&' => Some(CharacterKey::new_sh(VirtualKey::new(0x37, 8, "7"))),
        '8' => Some(CharacterKey::new(VirtualKey::new(0x38, 9, "8"))),
        '*' => Some(CharacterKey::new_sh(VirtualKey::new(0x38, 9, "8"))),
        '9' => Some(CharacterKey::new(VirtualKey::new(0x39, 10, "9"))),
        '(' => Some(CharacterKey::new_sh(VirtualKey::new(0x39, 10, "9"))),
        '0' => Some(CharacterKey::new(VirtualKey::new(0x30, 11, "0"))),
        ')' => Some(CharacterKey::new_sh(VirtualKey::new(0x30, 11, "0"))),
        ';' => Some(CharacterKey::new(VirtualKey::new(0xBA, 39, ";"))),
        ':' => Some(CharacterKey::new_sh(VirtualKey::new(0xBA, 39, ";"))),
        '=' => Some(CharacterKey::new(VirtualKey::new(0xBB, 13, "="))),
        '+' => Some(CharacterKey::new_sh(VirtualKey::new(0xBB, 13, "="))),
        '-' => Some(CharacterKey::new(VirtualKey::new(0xBD, 12, "-"))),
        '_' => Some(CharacterKey::new_sh(VirtualKey::new(0xBD, 12, "-"))),
        ',' => Some(CharacterKey::new(VirtualKey::new(0xBC, 51, ","))),
        '<' => Some(CharacterKey::new_sh(VirtualKey::new(0xBC, 51, ","))),
        '.' => Some(CharacterKey::new(VirtualKey::new(0xBE, 52, "."))),
        '>' => Some(CharacterKey::new_sh(VirtualKey::new(0xBE, 52, "."))),
        '/' => Some(CharacterKey::new(VirtualKey::new(0xBF, 53, "/"))),
        '?' => Some(CharacterKey::new_sh(VirtualKey::new(0xBF, 53, "/"))),
        '`' => Some(CharacterKey::new(VirtualKey::new(0xC0, 41, "`"))),
        '~' => Some(CharacterKey::new_sh(VirtualKey::new(0xC0, 41, "`"))),
        '[' => Some(CharacterKey::new(VirtualKey::new(0xDB, 26, "["))),
        '{' => Some(CharacterKey::new_sh(VirtualKey::new(0xDB, 26, "["))),
        ']' => Some(CharacterKey::new(VirtualKey::new(0xDD, 27, "]"))),
        '}' => Some(CharacterKey::new_sh(VirtualKey::new(0xDD, 27, "]"))),
        '\'' => Some(CharacterKey::new(VirtualKey::new(0xDE, 40, "'"))),
        '"' => Some(CharacterKey::new_sh(VirtualKey::new(0xDE, 40, "'"))),
        '\\' => Some(CharacterKey::new(VirtualKey::new(0xDC, 43, "\\"))),
        '|' => Some(CharacterKey::new_sh(VirtualKey::new(0xDC, 43, "\\"))),
        ' ' => Some(CharacterKey::new(VirtualKey::new(0x20, 57, "space"))),
        _ => None,
    }
}

/// The substitute that a layout mapping names for `c`, scanning from
/// pair `i`; `c` itself where no pair applies.
pub open spec fn mapped_from(mapping: Seq<(char, char)>, c: char, i: int) -> char
    decreases mapping.len() - i,
{
    if i < 0 || i >= mapping.len() {
        c
    } else if mapping[i].0 == c {
        mapping[i].1
    } else {
        mapped_from(mapping, c, i + 1)
    }
}

/// The character a layout mapping substitutes for `c` (first pair wins),
/// or `c` itself.
pub open spec fn mapped_char(mapping: Seq<(char, char)>, c: char) -> char {
    mapped_from(mapping, c, 0)
}

/// What character resolution yields for `c` under a layout mapping.
pub open spec fn resolve_spec(mapping: Seq<(char, char)>, c: char) -> Option<CharacterKeyModel> {
    char_key_spec(mapped_char(mapping, c))
}

fn apply_mapping(mapping: &Vec<(char, char)>, c: char) -> (r: char)
    ensures
        r == mapped_char(mapping@, c),
{
    let n = mapping.len();
    let mut i: usize = 0;
    while i < n
        invariant
            n == mapping@.len(),
            i <= n,
            mapped_char(mapping@, c) == mapped_from(mapping@, c, i as int),
        decreases n - i,
    {
        if mapping[i].0 == c {
            return mapping[i].1;
        }
        proof {
            assert(mapped_from(mapping@, c, i as int) == mapped_from(mapping@, c, i + 1));
        }
        i += 1;
    }
    c
}

/// Resolves `c` after consulting the layout mapping.
pub fn find_mapped_ckey(ch: char, mapping: &Vec<(char, char)>) -> (r: Option<CharacterKey>)
    ensures
        match r {
            Some(k) => resolve_spec(mapping@, ch) == Some(k@),
            None => resolve_spec(mapping@, ch) is None,
        },
{
    let substituted = apply_mapping(mapping, ch);
    resolve_default(substituted)
}

/// A character resolver carrying a layout mapping.
pub struct WithLayout {
    pub mapping: Vec<(char, char)>,
}

impl WithLayout {
    /// Resolves `ch` under this layout.
    pub fn find_ckey(&self, ch: char) -> (r: Option<CharacterKey>)
        ensures
            match r {
                Some(k) => resolve_spec(self.mapping@, ch) == Some(k@),
                None => resolve_spec(self.mapping@, ch) is None,
            },
    {
        find_mapped_ckey(ch, &self.mapping)
    }
}

/// Wraps a layout mapping into a character resolver.
pub fn with_layout(mapping: Vec<(char, char)>) -> (r: WithLayout)
    ensures
        r.mapping@ == mapping@,
{
    WithLayout { mapping }
}

/// The lower-case letters of the character table, in table order.
pub open spec fn lower_letter_chars() -> Seq<char> {
    seq![
        'a', 'b', 'c', 'd', 'e', 'f', 'g', 'h', 'i', 'j', 'k', 'l', 'm', 'n', 'o', 'p', 'q', 'r',
        's', 't', 'u', 'v', 'w', 'x', 'y', 'z',
    ]
}

/// The upper-case letters of the character table, in table order.
pub open spec fn upper_letter_chars() -> Seq<char> {
    seq![
        'A', 'B', 'C', 'D', 'E', 'F', 'G', 'H', 'I', 'J', 'K', 'L', 'M', 'N', 'O', 'P', 'Q', 'R',
        'S', 'T', 'U', 'V', 'W', 'X', 'Y', 'Z',
    ]
}

/// The digit-row characters, each base digit followed by its shifted
/// symbol.
pub open spec fn digit_pair_chars() -> Seq<char> {
    seq![
        '1', '!', '2', '@', '3', '#', '4', '$', '5', '%', '6', '^', '7', '&', '8', '*', '9', '(',
        '0', ')',
    ]
}

/// The punctuation characters, each base character followed by its
/// shifted symbol.
pub open spec fn punct_pair_chars() -> Seq<char> {
    seq![
        ';', ':', '=', '+', '-', '_', ',', '<', '.', '>', '/', '?', '`', '~', '[', '{', ']', '}',
        '\'', '"', '\\', '|',
    ]
}

/// Every character the fixed table resolves, in table order: the letters
/// in both cases, each digit with its shifted symbol, each punctuation
/// key with its shifted symbol, and space.
pub open spec fn default_chars() -> Seq<char> {
    lower_letter_chars() + upper_letter_chars() + digit_pair_chars() + punct_pair_chars()
        + seq![' ']
}

/// Resolves a character the table is known to hold and appends its
/// entry.
fn push_entry(r: &mut Vec<(char, CharacterKey)>, c: char)
    requires
        char_key_spec(c) is Some,
    ensures
        final(r)@.len() == old(r)@.len() + 1,
        forall|k: int| 0 <= k < old(r)@.len() ==> final(r)@[k] == old(r)@[k],
        final(r)@[old(r)@.len() as int].0 == c,
        char_key_spec(c) == Some(final(r)@[old(r)@.len() as int].1@),
{
    if let Some(ck) = resolve_default(c) {
        r.push((c, ck));
    }
}

fn push_lower_letter_entries(r: &mut Vec<(char, CharacterKey)>)
    ensures
        final(r)@.len() == old(r)@.len() + lower_letter_chars().len(),
        forall|k: int| 0 <= k < old(r)@.len() ==> final(r)@[k] == old(r)@[k],
        forall|k: int|
            0 <= k < lower_letter_chars().len() ==> (#[trigger] final(r)@[old(r)@.len() + k]).0
                == lower_letter_chars()[k] && char_key_spec(final(r)@[old(r)@.len() + k].0) == Some(
                final(r)@[old(r)@.len() + k].1@,
            ),
{
    push_entry(r, 'a');
    push_entry(r, 'b');
    push_entry(r, 'c');
    push_entry(r, 'd');
    push_entry(r, 'e');
    push_entry(r, 'f');
    push_entry(r, 'g');
    push_entry(r, 'h');
    push_entry(r, 'i');
    push_entry(r, 'j');
    push_entry(r, 'k');
    push_entry(r, 'l');
    push_entry(r, 'm');
    push_entry(r, 'n');
    push_entry(r, 'o');
    push_entry(r, 'p');
    push_entry(r, 'q');
    push_entry(r, 'r');
    push_entry(r, 's');
    push_entry(r, 't');
    push_entry(r, 'u');
    push_entry(r, 'v');
    push_entry(r, 'w');
    push_entry(r, 'x');
    push_entry(r, 'y');
    push_entry(r, 'z');
}

fn push_upper_letter_entries(r: &mut Vec<(char, CharacterKey)>)
    ensures
        final(r)@.len() == old(r)@.len() + upper_letter_chars().len(),
        forall|k: int| 0 <= k < old(r)@.len() ==> final(r)@[k] == old(r)@[k],
        forall|k: int|
            0 <= k < upper_letter_chars().len() ==> (#[trigger] final(r)@[old(r)@.len() + k]).0
                == upper_letter_chars()[k] && char_key_spec(final(r)@[old(r)@.len() + k].0) == Some(
                final(r)@[old(r)@.len() + k].1@,
            ),
{
    push_entry(r, 'A');
    push_entry(r, 'B');
    push_entry(r, 'C');
    push_entry(r, 'D');
    push_entry(r, 'E');
    push_entry(r, 'F');
    push_entry(r, 'G');
    push_entry(r, 'H');
    push_entry(r, 'I');
    push_entry(r, 'J');
    push_entry(r, 'K');
    push_entry(r, 'L');
    push_entry(r, 'M');
    push_entry(r, 'N');
    push_entry(r, 'O');
    push_entry(r, 'P');
    push_entry(r, 'Q');
    push_entry(r, 'R');
    push_entry(r, 'S');
    push_entry(r, 'T');
    push_entry(r, 'U');
    push_entry(r, 'V');
    push_entry(r, 'W');
    push_entry(r, 'X');
    push_entry(r, 'Y');
    push_entry(r, 'Z');
}

fn push_digit_entries(r: &mut Vec<(char, CharacterKey)>)
    ensures
        final(r)@.len() == old(r)@.len() + digit_pair_chars().len(),
        forall|k: int| 0 <= k < old(r)@.len() ==> final(r)@[k] == old(r)@[k],
        forall|k: int|
            0 <= k < digit_pair_chars().len() ==> (#[trigger] final(r)@[old(r)@.len() + k]).0
                == digit_pair_chars()[k] && char_key_spec(final(r)@[old(r)@.len() + k].0) == Some(
                final(r)@[old(r)@.len() + k].1@,
            ),
{
    push_entry(r, '1');
    push_entry(r, '!');
    push_entry(r, '2');
    push_entry(r, '@');
    push_entry(r, '3');
    push_entry(r, '#');
    push_entry(r, '4');
    push_entry(r, '$');
    push_entry(r, '5');
    push_entry(r, '%');
    push_entry(r, '6');
    push_entry(r, '^');
    push_entry(r, '7');
    push_entry(r, '&');
    push_entry(r, '8');
    push_entry(r, '*');
    push_entry(r, '9');
    push_entry(r, '(');
    push_entry(r, '0');
    push_entry(r, ')');
}

fn push_punct_entries(r: &mut Vec<(char, CharacterKey)>)
    ensures
        final(r)@.len() == old(r)@.len() + punct_pair_chars().len(),
        forall|k: int| 0 <= k < old(r)@.len() ==> final(r)@[k] == old(r)@[k],
        forall|k: int|
            0 <= k < punct_pair_chars().len() ==> (#[trigger] final(r)@[old(r)@.len() + k]).0
                == punct_pair_chars()[k] && char_key_spec(final(r)@[old(r)@.len() + k].0) == Some(
                final(r)@[old(r)@.len() + k].1@,
            ),
{
    push_entry(r, ';');
    push_entry(r, ':');
    push_entry(r, '=');
    push_entry(r, '+');
    push_entry(r, '-');
    push_entry(r, '_');
    push_entry(r, ',');
    push_entry(r, '<');
    push_entry(r, '.');
    push_entry(r, '>');
    push_entry(r, '/');
    push_entry(r, '?');
    push_entry(r, '`');
    push_entry(r, '~');
    push_entry(r, '[');
    push_entry(r, '{');
    push_entry(r, ']');
    push_entry(r, '}');
    push_entry(r, '\'');
    push_entry(r, '"');
    push_entry(r, '\\');
    push_entry(r, '|');
}

/// The full default character table, one entry per resolvable character
/// in table order: entry `i` pairs `default_chars()[i]` with exactly the
/// key the character table gives it.
pub fn default_map() -> (r: Vec<(char, CharacterKey)>)
    ensures
        r@.len() == default_chars().len(),
        r@.len() == 95,
        forall|i: int| 0 <= i < r@.len() ==> (#[trigger] r@[i]).0 == default_chars()[i],
        forall|i: int|
            0 <= i < r@.len() ==> char_key_spec(#[trigger] r@[i].0) == Some(r@[i].1@),
{
    let mut r: Vec<(char, CharacterKey)> = Vec::new();
    push_lower_letter_entries(&mut r);
    let ghost r1 = r@;
    push_upper_letter_entries(&mut r);
    let ghost r2 = r@;
    push_digit_entries(&mut r);
    let ghost r3 = r@;
    push_punct_entries(&mut r);
    let ghost r4 = r@;
    push_entry(&mut r, ' ');
    proof {
        assert(r@.len() == default_chars().len());
        assert forall|i: int|
            0 <= i < r@.len() implies (#[trigger] r@[i]).0 == default_chars()[i] && char_key_spec(
            r@[i].0,
        ) == Some(r@[i].1@) by {
            if i < 26 {
                assert(r@[i] == r4[i] && r4[i] == r3[i] && r3[i] == r2[i] && r2[i] == r1[i]);
                assert(r1[0 + i].0 == lower_letter_chars()[i]);
                assert(char_key_spec(r1[0 + i].0) == Some(r1[0 + i].1@));
                assert(default_chars()[i] == lower_letter_chars()[i]);
            } else if i < 52 {
                assert(r@[i] == r4[i] && r4[i] == r3[i] && r3[i] == r2[i]);
                assert(r2[26 + (i - 26)].0 == upper_letter_chars()[i - 26]);
                assert(char_key_spec(r2[26 + (i - 26)].0) == Some(r2[26 + (i - 26)].1@));
                assert(default_chars()[i] == upper_letter_chars()[i - 26]);
            } else if i < 72 {
                assert(r@[i] == r4[i] && r4[i] == r3[i]);
                assert(r3[52 + (i - 52)].0 == digit_pair_chars()[i - 52]);
                assert(char_key_spec(r3[52 + (i - 52)].0) == Some(r3[52 + (i - 52)].1@));
                assert(default_chars()[i] == digit_pair_chars()[i - 52]);
            } else if i < 94 {
                assert(r@[i] == r4[i]);
                assert(r4[72 + (i - 72)].0 == punct_pair_chars()[i - 72]);
                assert(char_key_spec(r4[72 + (i - 72)].0) == Some(r4[72 + (i - 72)].1@));
                assert(default_chars()[i] == punct_pair_chars()[i - 72]);
            } else {
                assert(r@[94].0 == ' ');
                assert(char_key_spec(r@[94].0) == Some(r@[94].1@));
                assert(default_chars()[94] == ' ');
            }
        }
    }
    r
}

} // verus!
