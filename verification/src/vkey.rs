//! The key table: a fixed bidirectional mapping between abstract key
//! codes, platform key codes and key names, with case-insensitive
//! lookup by name and lookup by abstract code.

use vstd::prelude::*;

use crate::text::{eq_chars, lower_chars, lower_seq, to_chars};

verus! {

/// Spec-level image of one key table entry.
#[verifier::ext_equal]
pub ghost struct VirtualKeyModel {
    pub vkey: u16,
    pub linux_key: u16,
    pub title: Seq<char>,
}

/// One key of the table: an abstract key code (stable across platforms),
/// the platform key code to emit, and a lower-case name.
#[derive(Debug, PartialEq, Eq)]
pub struct VirtualKey {
    pub vkey: u16,
    pub linux_key: u16,
    pub title: String,
}

impl View for VirtualKey {
    type V = VirtualKeyModel;

    open spec fn view(&self) -> VirtualKeyModel {
        VirtualKeyModel { vkey: self.vkey, linux_key: self.linux_key, title: self.title@ }
    }
}

impl Clone for VirtualKey {
    fn clone(&self) -> (r: Self)
        ensures
            r@ == self@,
    {
        VirtualKey { vkey: self.vkey, linux_key: self.linux_key, title: self.title.clone() }
    }
}

pub open spec fn vkm(vkey: u16, linux_key: u16, title: Seq<char>) -> VirtualKeyModel {
    VirtualKeyModel { vkey, linux_key, title }
}

impl VirtualKey {
    pub fn new(vkey: u16, linux_key: u16, title: &str) -> (r: Self)
        ensures
            r@ == vkm(vkey, linux_key, title@),
    {
        VirtualKey { vkey, linux_key, title: title.to_owned() }
    }

    /// Case-insensitive comparison of this key's name with `text`.
    pub fn matches(&self, text: &str) -> (r: bool)
        ensures
            r == (lower_seq(self.title@) == lower_seq(text@)),
    {
        let a = to_chars(self.title.as_str());
        let b = to_chars(text);
        let la = lower_chars(&a);
        let lb = lower_chars(&b);
        eq_chars(&la, &lb)
    }
}

/// Control and navigation keys.
pub open spec fn table_nav() -> Seq<VirtualKeyModel> {
    seq![
        vkm(0x08, 14, "back"@),
        vkm(0x09, 15, "tab"@),
        vkm(0x0D, 28, "enter"@),
        vkm(0x10, 42, "shift"@),
        vkm(0x11, 29, "ctrl"@),
        vkm(0x12, 56, "alt"@),
        vkm(0x13, 119, "pause"@),
        vkm(0x14, 58, "capslock"@),
        vkm(0x1B, 1, "esc"@),
        vkm(0x20, 57, "space"@),
        vkm(0x21, 104, "pgup"@),
        vkm(0x22, 109, "pgdown"@),
        vkm(0x23, 107, "end"@),
        vkm(0x24, 102, "home"@),
        vkm(0x25, 105, "larrow"@),
        vkm(0x26, 103, "uarrow"@),
        vkm(0x27, 106, "rarrow"@),
        vkm(0x28, 108, "darrow"@),
        vkm(0x2C, 99, "prtscrn"@),
        vkm(0x2D, 110, "ins"@),
        vkm(0x2E, 111, "del"@),
    ]
}

/// The digit row.
pub open spec fn table_digits() -> Seq<VirtualKeyModel> {
    seq![
        vkm(0x30, 11, "0"@),
        vkm(0x31, 2, "1"@),
        vkm(0x32, 3, "2"@),
        vkm(0x33, 4, "3"@),
        vkm(0x34, 5, "4"@),
        vkm(0x35, 6, "5"@),
        vkm(0x36, 7, "6"@),
        vkm(0x37, 8, "7"@),
        vkm(0x38, 9, "8"@),
        vkm(0x39, 10, "9"@),
    ]
}

/// The letter keys.
pub open spec fn table_letters() -> Seq<VirtualKeyModel> {
    seq![
        vkm(0x41, 30, "a"@),
        vkm(0x42, 48, "b"@),
        vkm(0x43, 46, "c"@),
        vkm(0x44, 32, "d"@),
        vkm(0x45, 18, "e"@),
        vkm(0x46, 33, "f"@),
        vkm(0x47, 34, "g"@),
        vkm(0x48, 35, "h"@),
        vkm(0x49, 23, "i"@),
        vkm(0x4A, 36, "j"@),
        vkm(0x4B, 37, "k"@),
        vkm(0x4C, 38, "l"@),
        vkm(0x4D, 50, "m"@),
        vkm(0x4E, 49, "n"@),
        vkm(0x4F, 24, "o"@),
        vkm(0x50, 25, "p"@),
        vkm(0x51, 16, "q"@),
        vkm(0x52, 19, "r"@),
        vkm(0x53, 31, "s"@),
        vkm(0x54, 20, "t"@),
        vkm(0x55, 22, "u"@),
        vkm(0x56, 47, "v"@),
        vkm(0x57, 17, "w"@),
        vkm(0x58, 45, "x"@),
        vkm(0x59, 21, "y"@),
        vkm(0x5A, 44, "z"@),
    ]
}

/// Meta keys and the numeric keypad.
pub open spec fn table_numpad() -> Seq<VirtualKeyModel> {
    seq![
        vkm(0x5B, 125, "lwin"@),
        vkm(0x5C, 126, "rwin"@),
        vkm(0x60, 82, "numpad0"@),
        vkm(0x61, 79, "numpad1"@),
        vkm(0x62, 80, "numpad2"@),
        vkm(0x63, 81, "numpad3"@),
        vkm(0x64, 75, "numpad4"@),
        vkm(0x65, 76, "numpad5"@),
        vkm(0x66, 77, "numpad6"@),
        vkm(0x67, 71, "numpad7"@),
        vkm(0x68, 72, "numpad8"@),
        vkm(0x69, 73, "numpad9"@),
        vkm(0x6A, 55, "multiply"@),
        vkm(0x6B, 78, "add"@),
        vkm(0x6D, 74, "subtract"@),
        vkm(0x6E, 83, "decimal"@),
        vkm(0x6F, 98, "divide"@),
    ]
}

/// Function keys and the lock keys.
pub open spec fn table_function() -> Seq<VirtualKeyModel> {
    seq![
        vkm(0x70, 59, "f1"@),
        vkm(0x71, 60, "f2"@),
        vkm(0x72, 61, "f3"@),
        vkm(0x73, 62, "f4"@),
        vkm(0x74, 63, "f5"@),
        vkm(0x75, 64, "f6"@),
        vkm(0x76, 65, "f7"@),
        vkm(0x77, 66, "f8"@),
        vkm(0x78, 67, "f9"@),
        vkm(0x79, 68, "f10"@),
        vkm(0x7A, 87, "f11"@),
        vkm(0x7B, 88, "f12"@),
        vkm(0x90, 69, "numlock"@),
        vkm(0x91, 70, "scrllock"@),
    ]
}

/// Sided modifiers and punctuation keys.
pub open spec fn table_punct() -> Seq<VirtualKeyModel> {
    seq![
        vkm(0xA0, 42, "lshift"@),
        vkm(0xA1, 54, "rshift"@),
        vkm(0xA2, 29, "lctrl"@),
        vkm(0xA3, 97, "rctrl"@),
        vkm(0xA4, 56, "lalt"@),
        vkm(0xA5, 100, "ralt"@),
        vkm(0xBA, 39, ";"@),
        vkm(0xBB, 13, "="@),
        vkm(0xBC, 51, ","@),
        vkm(0xBD, 12, "-"@),
        vkm(0xBE, 52, "."@),
        vkm(0xBF, 53, "/"@),
        vkm(0xC0, 41, "`"@),
        vkm(0xDB, 26, "["@),
        vkm(0xDC, 43, "\\"@),
        vkm(0xDD, 27, "]"@),
        vkm(0xDE, 40, "'"@),
    ]
}

/// The whole key table, in declaration order.
pub open spec fn table_spec() -> Seq<VirtualKeyModel> {
    table_nav() + table_digits() + table_letters() + table_numpad() + table_function()
        + table_punct()
}

fn push_nav(v: &mut Vec<VirtualKey>)
    ensures
        final(v)@.len() == old(v)@.len() + table_nav().len(),
        forall|k: int| 0 <= k < old(v)@.len() ==> final(v)@[k] == old(v)@[k],
        forall|k: int|
            0 <= k < table_nav().len() ==> final(v)@[old(v)@.len() + k]@ == table_nav()[k],
{
    v.push(VirtualKey::new(0x08, 14, "back"));
    v.push(VirtualKey::new(0x09, 15, "tab"));
    v.push(VirtualKey::new(0x0D, 28, "enter"));
    v.push(VirtualKey::new(0x10, 42, "shift"));
    v.push(VirtualKey::new(0x11, 29, "ctrl"));
    v.push(VirtualKey::new(0x12, 56, "alt"));
    v.push(VirtualKey::new(0x13, 119, "pause"));
    v.push(VirtualKey::new(0x14, 58, "capslock"));
    v.push(VirtualKey::new(0x1B, 1, "esc"));
    v.push(VirtualKey::new(0x20, 57, "space"));
    v.push(VirtualKey::new(0x21, 104, "pgup"));
    v.push(VirtualKey::new(0x22, 109, "pgdown"));
    v.push(VirtualKey::new(0x23, 107, "end"));
    v.push(VirtualKey::new(0x24, 102, "home"));
    v.push(VirtualKey::new(0x25, 105, "larrow"));
    v.push(VirtualKey::new(0x26, 103, "uarrow"));
    v.push(VirtualKey::new(0x27, 106, "rarrow"));
    v.push(VirtualKey::new(0x28, 108, "darrow"));
    v.push(VirtualKey::new(0x2C, 99, "prtscrn"));
    v.push(VirtualKey::new(0x2D, 110, "ins"));
    v.push(VirtualKey::new(0x2E, 111, "del"));
}

fn push_digits(v: &mut Vec<VirtualKey>)
    ensures
        final(v)@.len() == old(v)@.len() + table_digits().len(),
        forall|k: int| 0 <= k < old(v)@.len() ==> final(v)@[k] == old(v)@[k],
        forall|k: int|
            0 <= k < table_digits().len() ==> final(v)@[old(v)@.len() + k]@ == table_digits()[k],
{
    v.push(VirtualKey::new(0x30, 11, "0"));
    v.push(VirtualKey::new(0x31, 2, "1"));
    v.push(VirtualKey::new(0x32, 3, "2"));
    v.push(VirtualKey::new(0x33, 4, "3"));
    v.push(VirtualKey::new(0x34, 5, "4"));
    v.push(VirtualKey::new(0x35, 6, "5"));
    v.push(VirtualKey::new(0x36, 7, "6"));
    v.push(VirtualKey::new(0x37, 8, "7"));
    v.push(VirtualKey::new(0x38, 9, "8"));
    v.push(VirtualKey::new(0x39, 10, "9"));
}

fn push_letters(v: &mut Vec<VirtualKey>)
    ensures
        final(v)@.len() == old(v)@.len() + table_letters().len(),
        forall|k: int| 0 <= k < old(v)@.len() ==> final(v)@[k] == old(v)@[k],
        forall|k: int|
            0 <= k < table_letters().len() ==> final(v)@[old(v)@.len() + k]@ == table_letters()[k],
{
    v.push(VirtualKey::new(0x41, 30, "a"));
    v.push(VirtualKey::new(0x42, 48, "b"));
    v.push(VirtualKey::new(0x43, 46, "c"));
    v.push(VirtualKey::new(0x44, 32, "d"));
    v.push(VirtualKey::new(0x45, 18, "e"));
    v.push(VirtualKey::new(0x46, 33, "f"));
    v.push(VirtualKey::new(0x47, 34, "g"));
    v.push(VirtualKey::new(0x48, 35, "h"));
    v.push(VirtualKey::new(0x49, 23, "i"));
    v.push(VirtualKey::new(0x4A, 36, "j"));
    v.push(VirtualKey::new(0x4B, 37, "k"));
    v.push(VirtualKey::new(0x4C, 38, "l"));
    v.push(VirtualKey::new(0x4D, 50, "m"));
    v.push(VirtualKey::new(0x4E, 49, "n"));
    v.push(VirtualKey::new(0x4F, 24, "o"));
    v.push(VirtualKey::new(0x50, 25, "p"));
    v.push(VirtualKey::new(0x51, 16, "q"));
    v.push(VirtualKey::new(0x52, 19, "r"));
    v.push(VirtualKey::new(0x53, 31, "s"));
    v.push(VirtualKey::new(0x54, 20, "t"));
    v.push(VirtualKey::new(0x55, 22, "u"));
    v.push(VirtualKey::new(0x56, 47, "v"));
    v.push(VirtualKey::new(0x57, 17, "w"));
    v.push(VirtualKey::new(0x58, 45, "x"));
    v.push(VirtualKey::new(0x59, 21, "y"));
    v.push(VirtualKey::new(0x5A, 44, "z"));
}

fn push_numpad(v: &mut Vec<VirtualKey>)
    ensures
        final(v)@.len() == old(v)@.len() + table_numpad().len(),
        forall|k: int| 0 <= k < old(v)@.len() ==> final(v)@[k] == old(v)@[k],
        forall|k: int|
            0 <= k < table_numpad().len() ==> final(v)@[old(v)@.len() + k]@ == table_numpad()[k],
{
    v.push(VirtualKey::new(0x5B, 125, "lwin"));
    v.push(VirtualKey::new(0x5C, 126, "rwin"));
    v.push(VirtualKey::new(0x60, 82, "numpad0"));
    v.push(VirtualKey::new(0x61, 79, "numpad1"));
    v.push(VirtualKey::new(0x62, 80, "numpad2"));
    v.push(VirtualKey::new(0x63, 81, "numpad3"));
    v.push(VirtualKey::new(0x64, 75, "numpad4"));
    v.push(VirtualKey::new(0x65, 76, "numpad5"));
    v.push(VirtualKey::new(0x66, 77, "numpad6"));
    v.push(VirtualKey::new(0x67, 71, "numpad7"));
    v.push(VirtualKey::new(0x68, 72, "numpad8"));
    v.push(VirtualKey::new(0x69, 73, "numpad9"));
    v.push(VirtualKey::new(0x6A, 55, "multiply"));
    v.push(VirtualKey::new(0x6B, 78, "add"));
    v.push(VirtualKey::new(0x6D, 74, "subtract"));
    v.push(VirtualKey::new(0x6E, 83, "decimal"));
    v.push(VirtualKey::new(0x6F, 98, "divide"));
}

fn push_function(v: &mut Vec<VirtualKey>)
    ensures
        final(v)@.len() == old(v)@.len() + table_function().len(),
        forall|k: int| 0 <= k < old(v)@.len() ==> final(v)@[k] == old(v)@[k],
        forall|k: int|
            0 <= k < table_function().len() ==> final(v)@[old(v)@.len() + k]@
                == table_function()[k],
{
    v.push(VirtualKey::new(0x70, 59, "f1"));
    v.push(VirtualKey::new(0x71, 60, "f2"));
    v.push(VirtualKey::new(0x72, 61, "f3"));
    v.push(VirtualKey::new(0x73, 62, "f4"));
    v.push(VirtualKey::new(0x74, 63, "f5"));
    v.push(VirtualKey::new(0x75, 64, "f6"));
    v.push(VirtualKey::new(0x76, 65, "f7"));
    v.push(VirtualKey::new(0x77, 66, "f8"));
    v.push(VirtualKey::new(0x78, 67, "f9"));
    v.push(VirtualKey::new(0x79, 68, "f10"));
    v.push(VirtualKey::new(0x7A, 87, "f11"));
    v.push(VirtualKey::new(0x7B, 88, "f12"));
    v.push(VirtualKey::new(0x90, 69, "numlock"));
    v.push(VirtualKey::new(0x91, 70, "scrllock"));
}

fn push_punct(v: &mut Vec<VirtualKey>)
    ensures
        final(v)@.len() == old(v)@.len() + table_punct().len(),
        forall|k: int| 0 <= k < old(v)@.len() ==> final(v)@[k] == old(v)@[k],
        forall|k: int|
            0 <= k < table_punct().len() ==> final(v)@[old(v)@.len() + k]@ == table_punct()[k],
{
    v.push(VirtualKey::new(0xA0, 42, "lshift"));
    v.push(VirtualKey::new(0xA1, 54, "rshift"));
    v.push(VirtualKey::new(0xA2, 29, "lctrl"));
    v.push(VirtualKey::new(0xA3, 97, "rctrl"));
    v.push(VirtualKey::new(0xA4, 56, "lalt"));
    v.push(VirtualKey::new(0xA5, 100, "ralt"));
    v.push(VirtualKey::new(0xBA, 39, ";"));
    v.push(VirtualKey::new(0xBB, 13, "="));
    v.push(VirtualKey::new(0xBC, 51, ","));
    v.push(VirtualKey::new(0xBD, 12, "-"));
    v.push(VirtualKey::new(0xBE, 52, "."));
    v.push(VirtualKey::new(0xBF, 53, "/"));
    v.push(VirtualKey::new(0xC0, 41, "`"));
    v.push(VirtualKey::new(0xDB, 26, "["));
    v.push(VirtualKey::new(0xDC, 43, "\\"));
    v.push(VirtualKey::new(0xDD, 27, "]"));
    v.push(VirtualKey::new(0xDE, 40, "'"));
}

/// Builds the key table; entry `i` realizes `table_spec()[i]`.
pub fn key_table() -> (r: Vec<VirtualKey>)
    ensures
        r@.len() == table_spec().len(),
        forall|i: int| 0 <= i < r@.len() ==> r@[i]@ == table_spec()[i],
{
    let mut v: Vec<VirtualKey> = Vec::new();
    push_nav(&mut v);
    push_digits(&mut v);
    push_letters(&mut v);
    push_numpad(&mut v);
    push_function(&mut v);
    push_punct(&mut v);
    v
}

/// Whether a table segment carries strictly ascending abstract codes.
pub open spec fn codes_ascending(s: Seq<VirtualKeyModel>) -> bool {
    forall|i: int| 0 <= i < s.len() - 1 ==> (#[trigger] s[i]).vkey < s[i + 1].vkey
}

proof fn lemma_ascending_concat(s1: Seq<VirtualKeyModel>, s2: Seq<VirtualKeyModel>)
    requires
        codes_ascending(s1),
        codes_ascending(s2),
        s1.len() > 0 && s2.len() > 0 ==> s1.last().vkey < s2.first().vkey,
    ensures
        codes_ascending(s1 + s2),
{
    let s = s1 + s2;
    assert forall|i: int| 0 <= i < s.len() - 1 implies (#[trigger] s[i]).vkey < s[i + 1].vkey by {
        if i < s1.len() - 1 {
            assert(s[i] == s1[i] && s[i + 1] == s1[i + 1]);
        } else if i == s1.len() - 1 {
            assert(s[i] == s1.last() && s[i + 1] == s2.first());
        } else {
            assert(s[i] == s2[i - s1.len()] && s[i + 1] == s2[i - s1.len() + 1]);
        }
    }
}

proof fn lemma_ascending_distinct(s: Seq<VirtualKeyModel>, i: int, j: int)
    requires
        codes_ascending(s),
        0 <= i < j < s.len(),
    ensures
        s[i].vkey < s[j].vkey,
    decreases j - i,
{
    if i + 1 < j {
        lemma_ascending_distinct(s, i + 1, j);
    }
}

/// Law: the key table has no duplicate abstract code — its codes ascend
/// strictly in declaration order.
pub proof fn lemma_table_codes_distinct()
    ensures
        forall|i: int, j: int|
            0 <= i < j < table_spec().len() ==> (#[trigger] table_spec()[i]).vkey != (
            #[trigger] table_spec()[j]).vkey,
{
    assert(codes_ascending(table_nav()));
    assert(codes_ascending(table_digits()));
    assert(codes_ascending(table_letters()));
    assert(codes_ascending(table_numpad()));
    assert(codes_ascending(table_function()));
    assert(codes_ascending(table_punct()));
    lemma_ascending_concat(table_nav(), table_digits());
    lemma_ascending_concat(table_nav() + table_digits(), table_letters());
    lemma_ascending_concat(table_nav() + table_digits() + table_letters(), table_numpad());
    lemma_ascending_concat(
        table_nav() + table_digits() + table_letters() + table_numpad(),
        table_function(),
    );
    lemma_ascending_concat(
        table_nav() + table_digits() + table_letters() + table_numpad() + table_function(),
        table_punct(),
    );
    assert forall|i: int, j: int|
        0 <= i < j < table_spec().len() implies (#[trigger] table_spec()[i]).vkey != (
    #[trigger] table_spec()[j]).vkey by {
        lemma_ascending_distinct(table_spec(), i, j);
    }
}

/// Case-insensitive match of an entry's name against a requested name.
pub open spec fn title_matches(m: VirtualKeyModel, name: Seq<char>) -> bool {
    lower_seq(m.title) == lower_seq(name)
}

/// First table entry from position `i` on whose name matches `name`.
pub open spec fn vkey_by_name_from(name: Seq<char>, i: int) -> Option<VirtualKeyModel>
    decreases table_spec().len() - i,
{
    if i < 0 || i >= table_spec().len() {
        None
    } else if title_matches(table_spec()[i], name) {
        Some(table_spec()[i])
    } else {
        vkey_by_name_from(name, i + 1)
    }
}

/// The table entry found for a (case-insensitive) key name.
pub open spec fn find_vkey_spec(name: Seq<char>) -> Option<VirtualKeyModel> {
    vkey_by_name_from(name, 0)
}

/// First table entry from position `i` on with abstract code `code`.
pub open spec fn vkey_by_code_from(code: u16, i: int) -> Option<VirtualKeyModel>
    decreases table_spec().len() - i,
{
    if i < 0 || i >= table_spec().len() {
        None
    } else if table_spec()[i].vkey == code {
        Some(table_spec()[i])
    } else {
        vkey_by_code_from(code, i + 1)
    }
}

/// The table entry found for an abstract key code.
pub open spec fn get_vkey_spec(code: u16) -> Option<VirtualKeyModel> {
    vkey_by_code_from(code, 0)
}

/// Looks a key up by name, case-insensitively; the first matching entry
/// wins.
pub fn find_vkey(text: &str) -> (r: Result<VirtualKey, &'static str>)
    ensures
        match r {
            Ok(k) => find_vkey_spec(text@) == Some(k@),
            Err(m) => find_vkey_spec(text@) is None && m@ == "Unknown virtual key"@,
        },
{
    let table = key_table();
    let cs = to_chars(text);
    let lowered = lower_chars(&cs);
    let n = table.len();
    let mut i: usize = 0;
    while i < n
        invariant
            n == table@.len() == table_spec().len(),
            forall|k: int| 0 <= k < n ==> table@[k]@ == table_spec()[k],
            i <= n,
            lowered@ == lower_seq(text@),
            find_vkey_spec(text@) == vkey_by_name_from(text@, i as int),
        decreases n - i,
    {
        let t = to_chars(table[i].title.as_str());
        let lt = lower_chars(&t);
        if eq_chars(&lt, &lowered) {
            proof {
                assert(title_matches(table_spec()[i as int], text@));
            }
            return Ok(table[i].clone());
        }
        proof {
            assert(!title_matches(table_spec()[i as int], text@));
            assert(vkey_by_name_from(text@, i as int) == vkey_by_name_from(text@, i + 1));
        }
        i += 1;
    }
    Err("Unknown virtual key")
}

/// Looks a key up by abstract code; the first matching entry wins.
pub fn get_vkey(vk_code: u16) -> (r: Result<VirtualKey, &'static str>)
    ensures
        match r {
            Ok(k) => get_vkey_spec(vk_code) == Some(k@),
            Err(m) => get_vkey_spec(vk_code) is None && m@ == "Unknown virtual key code"@,
        },
{
    let table = key_table();
    let n = table.len();
    let mut i: usize = 0;
    while i < n
        invariant
            n == table@.len() == table_spec().len(),
            forall|k: int| 0 <= k < n ==> table@[k]@ == table_spec()[k],
            i <= n,
            get_vkey_spec(vk_code) == vkey_by_code_from(vk_code, i as int),
        decreases n - i,
    {
        if table[i].vkey == vk_code {
            return Ok(table[i].clone());
        }
        proof {
            assert(vkey_by_code_from(vk_code, i as int) == vkey_by_code_from(vk_code, i + 1));
        }
        i += 1;
    }
    Err("Unknown virtual key code")
}

} // verus!
