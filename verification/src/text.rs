//! Character and string helpers shared by the key table, the script
//! compiler and the parsers: ASCII case folding, splitting, searching,
//! and numeric parsing, all specified over `Seq<char>`.

use vstd::prelude::*;

verus! {

/// ASCII lower-casing of one character; everything outside 'A'..='Z'
/// is left unchanged.
pub open spec fn lower_char(c: char) -> char {
    if 'A' <= c && c <= 'Z' {
        (((c as u32) + 32) as u8) as char
    } else {
        c
    }
}

/// ASCII lower-casing of a character sequence.
pub open spec fn lower_seq(s: Seq<char>) -> Seq<char> {
    s.map_values(|c: char| lower_char(c))
}

/// Lower-cases one character (ASCII range only).
pub fn lower_char_exec(c: char) -> (r: char)
    ensures
        r == lower_char(c),
{
    let u = c as u32;
    if 65 <= u && u <= 90 {
        ((u + 32) as u8) as char
    } else {
        c
    }
}

/// Collects the characters of a string slice into a vector.
pub fn to_chars(s: &str) -> (r: Vec<char>)
    ensures
        r@ == s@,
{
    let n = s.unicode_len();
    let mut r: Vec<char> = Vec::new();
    let mut i: usize = 0;
    while i < n
        invariant
            n == s@.len(),
            i <= n,
            r@ == s@.take(i as int),
        decreases n - i,
    {
        r.push(s.get_char(i));
        i += 1;
        proof {
            assert(r@ =~= s@.take(i as int));
        }
    }
    proof {
        assert(s@.take(n as int) =~= s@);
    }
    r
}

/// Relies on String::push: appends exactly one character to the string.
#[verifier::external_body]
pub fn push_char(s: &mut String, c: char)
    ensures
        final(s)@ == old(s)@.push(c),
{
    s.push(c);
}

/// Builds a string from a character vector.
pub fn chars_to_string(cs: &Vec<char>) -> (r: String)
    ensures
        r@ == cs@,
{
    let mut r = String::new();
    let mut i: usize = 0;
    while i < cs.len()
        invariant
            i <= cs@.len(),
            r@ == cs@.take(i as int),
        decreases cs@.len() - i,
    {
        push_char(&mut r, cs[i]);
        i += 1;
        proof {
            assert(r@ =~= cs@.take(i as int));
        }
    }
    proof {
        assert(cs@.take(cs@.len() as int) =~= cs@);
    }
    r
}

/// Lower-cases a character vector.
pub fn lower_chars(cs: &Vec<char>) -> (r: Vec<char>)
    ensures
        r@ == lower_seq(cs@),
{
    let mut r: Vec<char> = Vec::new();
    let mut i: usize = 0;
    while i < cs.len()
        invariant
            i <= cs@.len(),
            r@ == lower_seq(cs@.take(i as int)),
        decreases cs@.len() - i,
    {
        r.push(lower_char_exec(cs[i]));
        i += 1;
        proof {
            assert(r@ =~= lower_seq(cs@.take(i as int)));
        }
    }
    proof {
        assert(cs@.take(cs@.len() as int) =~= cs@);
    }
    r
}

/// ASCII whitespace, the separator class used by the parsers here.
pub open spec fn is_ws(c: char) -> bool {
    c == ' ' || c == '\t' || c == '\r' || c == '\n'
}

/// Whether `c` is ASCII whitespace.
pub fn is_ws_exec(c: char) -> (r: bool)
    ensures
        r == is_ws(c),
{
    c == ' ' || c == '\t' || c == '\r' || c == '\n'
}

/// Index of the first occurrence of `sep` at or after `i`, or `s.len()`
/// if there is none.
pub open spec fn find_char_from(s: Seq<char>, sep: char, i: int) -> int
    decreases s.len() - i,
{
    if i < 0 || i >= s.len() {
        s.len() as int
    } else if s[i] == sep {
        i
    } else {
        find_char_from(s, sep, i + 1)
    }
}

pub proof fn lemma_find_char_from(s: Seq<char>, sep: char, i: int)
    requires
        0 <= i <= s.len(),
    ensures
        i <= find_char_from(s, sep, i) <= s.len(),
        find_char_from(s, sep, i) < s.len() ==> s[find_char_from(s, sep, i)] == sep,
        forall|k: int| i <= k < find_char_from(s, sep, i) ==> s[k] != sep,
    decreases s.len() - i,
{
    if i < s.len() && s[i] != sep {
        lemma_find_char_from(s, sep, i + 1);
    }
}

/// The segments of `s` from position `i` on, split on `sep`; adjacent
/// separators yield empty segments, as `str::split` does.
pub open spec fn split_char_from(s: Seq<char>, sep: char, i: int) -> Seq<Seq<char>>
    decreases s.len() - i,
    via split_char_from_decreases
{
    if i < 0 || i > s.len() {
        seq![]
    } else {
        let j = find_char_from(s, sep, i);
        if j >= s.len() {
            seq![s.subrange(i, s.len() as int)]
        } else {
            seq![s.subrange(i, j)] + split_char_from(s, sep, j + 1)
        }
    }
}

#[via_fn]
proof fn split_char_from_decreases(s: Seq<char>, sep: char, i: int) {
    if 0 <= i <= s.len() {
        lemma_find_char_from(s, sep, i);
    }
}

/// Splits on a separator character.
pub open spec fn split_char_spec(s: Seq<char>, sep: char) -> Seq<Seq<char>> {
    split_char_from(s, sep, 0)
}

/// Splits a character vector on a separator character.
pub fn split_char(s: &Vec<char>, sep: char) -> (r: Vec<Vec<char>>)
    ensures
        r@.map_values(|p: Vec<char>| p@) == split_char_spec(s@, sep),
{
    let ghost full = s@;
    let mut r: Vec<Vec<char>> = Vec::new();
    let mut start: usize = 0;
    proof {
        assert(r@.map_values(|p: Vec<char>| p@) =~= Seq::<Seq<char>>::empty());
        assert(Seq::<Seq<char>>::empty() + split_char_from(full, sep, 0) =~= split_char_from(
            full,
            sep,
            0,
        ));
    }
    loop
        invariant_except_break
            split_char_from(full, sep, 0) == r@.map_values(|p: Vec<char>| p@) + split_char_from(
                full,
                sep,
                start as int,
            ),
        invariant
            start <= s@.len(),
            s@ == full,
        ensures
            r@.map_values(|p: Vec<char>| p@) == split_char_from(full, sep, 0),
        decreases s@.len() - start + 1,
    {
        // scan for the next separator
        let mut j: usize = start;
        while j < s.len() && s[j] != sep
            invariant
                start <= j <= s@.len(),
                s@ == full,
                forall|k: int| start <= k < j ==> full[k] != sep,
            decreases s@.len() - j,
        {
            j += 1;
        }
        proof {
            // the scan found exactly `find_char_from`
            lemma_find_char_from(full, sep, start as int);
            let f = find_char_from(full, sep, start as int);
            if f < j {
                assert(full[f] != sep);
                assert(false);
            }
            if j < f {
                assert(j < full.len());
                assert(full[j as int] != sep);
                assert(false);
            }
        }
        let mut seg: Vec<char> = Vec::new();
        let mut i: usize = start;
        while i < j
            invariant
                start <= i <= j <= s@.len(),
                s@ == full,
                seg@ == full.subrange(start as int, i as int),
            decreases j - i,
        {
            seg.push(s[i]);
            i += 1;
            proof {
                assert(seg@ =~= full.subrange(start as int, i as int));
            }
        }
        let ghost r_map_old = r@.map_values(|p: Vec<char>| p@);
        let ghost seg_view = seg@;
        r.push(seg);
        proof {
            assert(r@.map_values(|p: Vec<char>| p@) =~= r_map_old + seq![seg_view]);
        }
        if j >= s.len() {
            proof {
                assert(split_char_from(full, sep, start as int) == seq![full.subrange(
                    start as int,
                    full.len() as int,
                )]);
                assert(r@.map_values(|p: Vec<char>| p@) =~= split_char_from(full, sep, 0));
            }
            break;
        }
        proof {
            assert(split_char_from(full, sep, start as int) == seq![full.subrange(
                start as int,
                j as int,
            )] + split_char_from(full, sep, j + 1));
            assert(r_map_old + seq![seg_view] + split_char_from(full, sep, j + 1) =~= r_map_old + (
            seq![seg_view] + split_char_from(full, sep, j + 1)));
        }
        start = j + 1;
    }
    r
}

/// Copies the first `n` characters of `l`.
pub fn copy_prefix(l: &Vec<char>, n: usize) -> (r: Vec<char>)
    requires
        n <= l@.len(),
    ensures
        r@ == l@.take(n as int),
{
    let mut r: Vec<char> = Vec::new();
    let mut i: usize = 0;
    while i < n
        invariant
            i <= n <= l@.len(),
            r@ == l@.take(i as int),
        decreases n - i,
    {
        r.push(l[i]);
        i += 1;
        proof {
            assert(r@ =~= l@.take(i as int));
        }
    }
    r
}

/// Copies the characters of `l` between `from` and `to`.
pub fn copy_range(l: &Vec<char>, from: usize, to: usize) -> (r: Vec<char>)
    requires
        from <= to <= l@.len(),
    ensures
        r@ == l@.subrange(from as int, to as int),
{
    let mut r: Vec<char> = Vec::new();
    let mut i: usize = from;
    while i < to
        invariant
            from <= i <= to <= l@.len(),
            r@ == l@.subrange(from as int, i as int),
        decreases to - i,
    {
        r.push(l[i]);
        i += 1;
        proof {
            assert(r@ =~= l@.subrange(from as int, i as int));
        }
    }
    r
}

/// A line with a trailing carriage return removed.
pub open spec fn strip_cr(l: Seq<char>) -> Seq<char> {
    if l.len() > 0 && l.last() == '\r' {
        l.drop_last()
    } else {
        l
    }
}

/// The lines of `s`: segments split on `'\n'`, each inner segment with a
/// trailing `'\r'` removed, and without a final empty segment.
pub open spec fn lines_spec(s: Seq<char>) -> Seq<Seq<char>> {
    let p = split_char_spec(s, '\n');
    let q = Seq::new(p.len(), |i: int| if i < p.len() - 1 { strip_cr(p[i]) } else { p[i] });
    if q.len() > 0 && q.last().len() == 0 {
        q.drop_last()
    } else {
        q
    }
}

fn strip_cr_exec(l: &Vec<char>) -> (r: Vec<char>)
    ensures
        r@ == strip_cr(l@),
{
    if l.len() > 0 && l[l.len() - 1] == '\r' {
        let r = copy_prefix(l, l.len() - 1);
        proof {
            assert(l@.take(l@.len() - 1) =~= l@.drop_last());
        }
        r
    } else {
        copy_prefix(l, l.len())
    }
}

/// Splits a character vector into lines.
pub fn lines(s: &Vec<char>) -> (r: Vec<Vec<char>>)
    ensures
        r@.map_values(|p: Vec<char>| p@) == lines_spec(s@),
{
    let parts = split_char(s, '\n');
    let ghost pm = parts@.map_values(|p: Vec<char>| p@);
    let ghost q = Seq::new(pm.len(), |i: int| if i < pm.len() - 1 { strip_cr(pm[i]) } else { pm[i] });
    let mut r: Vec<Vec<char>> = Vec::new();
    let n = parts.len();
    let mut i: usize = 0;
    proof {
        assert(pm.len() == parts@.len());
    }
    while i < n
        invariant
            n == parts@.len(),
            i <= n,
            pm == parts@.map_values(|p: Vec<char>| p@),
            q == Seq::new(pm.len(), |k: int| if k < pm.len() - 1 { strip_cr(pm[k]) } else { pm[k] }),
            r@.map_values(|p: Vec<char>| p@) == q.take(i as int),
        decreases n - i,
    {
        let seg = if i + 1 < n {
            strip_cr_exec(&parts[i])
        } else {
            copy_prefix(&parts[i], parts[i].len())
        };
        proof {
            assert(parts[i as int]@.take(parts[i as int]@.len() as int) =~= parts[i as int]@);
            assert(pm[i as int] == parts[i as int]@);
            assert(seg@ == q[i as int]);
        }
        let ghost r_map_old = r@.map_values(|p: Vec<char>| p@);
        r.push(seg);
        i += 1;
        proof {
            assert(r@.map_values(|p: Vec<char>| p@) =~= r_map_old.push(q[i - 1]));
            assert(r_map_old.push(q[i - 1]) =~= q.take(i as int));
        }
    }
    // drop a final empty segment
    if r.len() > 0 && r[r.len() - 1].len() == 0 {
        let ghost r_map_old = r@.map_values(|p: Vec<char>| p@);
        let _ = r.pop();
        proof {
            assert(q.take(n as int) =~= q);
            assert(r@.map_values(|p: Vec<char>| p@) =~= r_map_old.drop_last());
            assert(r_map_old.drop_last() =~= lines_spec(s@));
        }
    } else {
        proof {
            assert(q.take(n as int) =~= q);
        }
    }
    r
}

/// Whether `needle` occurs in `hay` starting at position `i`.
pub open spec fn is_match_at(hay: Seq<char>, needle: Seq<char>, i: int) -> bool {
    0 <= i && i + needle.len() <= hay.len() && hay.subrange(i, i + needle.len()) == needle
}

/// Whether `needle` occurs anywhere in `hay`.
pub open spec fn contains_seq(hay: Seq<char>, needle: Seq<char>) -> bool {
    exists|i: int| is_match_at(hay, needle, i)
}

fn eq_from(hay: &Vec<char>, needle: &Vec<char>, i: usize) -> (r: bool)
    requires
        i + needle@.len() <= hay@.len(),
    ensures
        r == (hay@.subrange(i as int, i + needle@.len()) == needle@),
{
    let hl = hay.len();
    let mut j: usize = 0;
    while j < needle.len()
        invariant
            j <= needle@.len(),
            i + needle@.len() <= hay@.len(),
            hay@.len() == hl,
            forall|k: int| 0 <= k < j ==> hay@[i + k] == needle@[k],
        decreases needle@.len() - j,
    {
        if hay[i + j] != needle[j] {
            proof {
                assert(hay@.subrange(i as int, i + needle@.len())[j as int] != needle@[j as int]);
            }
            return false;
        }
        j += 1;
    }
    proof {
        assert(hay@.subrange(i as int, i + needle@.len()) =~= needle@);
    }
    true
}

/// Whether one character vector contains another.
pub fn contains_chars(hay: &Vec<char>, needle: &Vec<char>) -> (r: bool)
    ensures
        r == contains_seq(hay@, needle@),
{
    if needle.len() > hay.len() {
        return false;
    }
    if needle.len() == 0 {
        proof {
            assert(hay@.subrange(0, 0) =~= needle@);
            assert(is_match_at(hay@, needle@, 0));
        }
        return true;
    }
    let hl = hay.len();
    let last = hay.len() - needle.len();
    let mut i: usize = 0;
    while i <= last
        invariant
            hay@.len() == hl,
            1 <= needle@.len(),
            last == hay@.len() - needle@.len(),
            i <= last + 1,
            forall|k: int| 0 <= k < i ==> !is_match_at(hay@, needle@, k),
        decreases last - i + 1,
    {
        if eq_from(hay, needle, i) {
            proof {
                assert(is_match_at(hay@, needle@, i as int));
            }
            return true;
        }
        i += 1;
    }
    false
}

/// Whether `s` starts with `prefix`.
pub fn starts_with_chars(s: &Vec<char>, prefix: &Vec<char>) -> (r: bool)
    ensures
        r == (s@.len() >= prefix@.len() && s@.subrange(0, prefix@.len() as int) == prefix@),
{
    if prefix.len() > s.len() {
        return false;
    }
    eq_from(s, prefix, 0)
}

/// Whether two character vectors hold the same characters.
pub fn eq_chars(a: &Vec<char>, b: &Vec<char>) -> (r: bool)
    ensures
        r == (a@ == b@),
{
    if a.len() != b.len() {
        return false;
    }
    let r = eq_from(a, b, 0);
    proof {
        assert(a@.subrange(0, b@.len() as int) =~= a@);
    }
    r
}

/// Index of the first non-whitespace character at or after `i`, or
/// `s.len()` if there is none.
pub open spec fn first_non_ws_from(s: Seq<char>, i: int) -> int
    decreases s.len() - i,
{
    if i < 0 || i >= s.len() {
        s.len() as int
    } else if !is_ws(s[i]) {
        i
    } else {
        first_non_ws_from(s, i + 1)
    }
}

/// Index of the first whitespace character at or after `i`, or `s.len()`
/// if there is none.
pub open spec fn first_ws_from(s: Seq<char>, i: int) -> int
    decreases s.len() - i,
{
    if i < 0 || i >= s.len() {
        s.len() as int
    } else if is_ws(s[i]) {
        i
    } else {
        first_ws_from(s, i + 1)
    }
}

pub proof fn lemma_first_non_ws_from(s: Seq<char>, i: int)
    requires
        0 <= i <= s.len(),
    ensures
        i <= first_non_ws_from(s, i) <= s.len(),
        first_non_ws_from(s, i) < s.len() ==> !is_ws(s[first_non_ws_from(s, i)]),
        forall|k: int| i <= k < first_non_ws_from(s, i) ==> is_ws(s[k]),
    decreases s.len() - i,
{
    if i < s.len() && is_ws(s[i]) {
        lemma_first_non_ws_from(s, i + 1);
    }
}

pub proof fn lemma_first_ws_from(s: Seq<char>, i: int)
    requires
        0 <= i <= s.len(),
    ensures
        i <= first_ws_from(s, i) <= s.len(),
        first_ws_from(s, i) < s.len() ==> is_ws(s[first_ws_from(s, i)]),
        forall|k: int| i <= k < first_ws_from(s, i) ==> !is_ws(s[k]),
    decreases s.len() - i,
{
    if i < s.len() && !is_ws(s[i]) {
        lemma_first_ws_from(s, i + 1);
    }
}

/// Index of the last non-whitespace character, or `-1` if there is none.
pub open spec fn last_non_ws(s: Seq<char>) -> int
    decreases s.len(),
{
    if s.len() == 0 {
        -1
    } else if !is_ws(s.last()) {
        s.len() - 1
    } else {
        last_non_ws(s.drop_last())
    }
}

pub proof fn lemma_last_non_ws(s: Seq<char>)
    ensures
        -1 <= last_non_ws(s) < s.len(),
        last_non_ws(s) >= 0 ==> !is_ws(s[last_non_ws(s)]),
        forall|k: int| last_non_ws(s) < k < s.len() ==> is_ws(s[k]),
    decreases s.len(),
{
    if s.len() > 0 && is_ws(s.last()) {
        lemma_last_non_ws(s.drop_last());
        assert(forall|k: int| 0 <= k < s.len() - 1 ==> s.drop_last()[k] == s[k]);
    }
}

pub proof fn lemma_last_non_ws_at_least(s: Seq<char>, k: int)
    requires
        0 <= k < s.len(),
        !is_ws(s[k]),
    ensures
        last_non_ws(s) >= k,
    decreases s.len(),
{
    if s.len() > 0 && is_ws(s.last()) {
        lemma_last_non_ws_at_least(s.drop_last(), k);
    }
}

/// `s` with leading and trailing ASCII whitespace removed.
pub open spec fn trim_spec(s: Seq<char>) -> Seq<char> {
    let a = first_non_ws_from(s, 0);
    if a >= s.len() {
        Seq::empty()
    } else {
        s.subrange(a, last_non_ws(s) + 1)
    }
}

/// Trims ASCII whitespace from both ends.
pub fn trim(s: &Vec<char>) -> (r: Vec<char>)
    ensures
        r@ == trim_spec(s@),
{
    let n = s.len();
    let mut a: usize = 0;
    while a < n && is_ws_exec(s[a])
        invariant
            a <= n == s@.len(),
            forall|k: int| 0 <= k < a ==> is_ws(s@[k]),
        decreases n - a,
    {
        a += 1;
    }
    proof {
        lemma_first_non_ws_from(s@, 0);
        let f = first_non_ws_from(s@, 0);
        if f < a {
            assert(is_ws(s@[f]));
            assert(false);
        }
        if a < f {
            assert(a < s@.len());
            assert(is_ws(s@[a as int]));
            assert(false);
        }
    }
    if a >= n {
        let r: Vec<char> = Vec::new();
        proof {
            assert(r@ =~= trim_spec(s@));
        }
        return r;
    }
    let mut b: usize = n;
    while b > a && is_ws_exec(s[b - 1])
        invariant
            a < n == s@.len(),
            a <= b <= n,
            !is_ws(s@[a as int]),
            forall|k: int| b <= k < n ==> is_ws(s@[k]),
        decreases b,
    {
        b -= 1;
    }
    proof {
        lemma_last_non_ws(s@);
        lemma_last_non_ws_at_least(s@, a as int);
        let l = last_non_ws(s@);
        // the scan stopped exactly one past the last non-whitespace character
        if l + 1 < b {
            assert(!is_ws(s@[b - 1]));
            assert(false);
        }
        if b < l + 1 {
            assert(is_ws(s@[l]));
            assert(false);
        }
    }
    copy_range(s, a, b)
}

/// The whitespace-separated words of `s` from position `i` on.
pub open spec fn split_ws_from(s: Seq<char>, i: int) -> Seq<Seq<char>>
    decreases s.len() - i,
    via split_ws_from_decreases
{
    if i < 0 || i >= s.len() {
        seq![]
    } else {
        let a = first_non_ws_from(s, i);
        if a >= s.len() {
            seq![]
        } else {
            let b = first_ws_from(s, a);
            seq![s.subrange(a, b)] + split_ws_from(s, b)
        }
    }
}

#[via_fn]
proof fn split_ws_from_decreases(s: Seq<char>, i: int) {
    if 0 <= i < s.len() {
        lemma_first_non_ws_from(s, i);
        let a = first_non_ws_from(s, i);
        if a < s.len() {
            lemma_first_ws_from(s, a);
        }
    }
}

/// The whitespace-separated words of `s`.
pub open spec fn split_ws_spec(s: Seq<char>) -> Seq<Seq<char>> {
    split_ws_from(s, 0)
}

/// Splits a character vector into whitespace-separated words.
pub fn split_whitespace(s: &Vec<char>) -> (r: Vec<Vec<char>>)
    ensures
        r@.map_values(|p: Vec<char>| p@) == split_ws_spec(s@),
{
    let ghost full = s@;
    let n = s.len();
    let mut r: Vec<Vec<char>> = Vec::new();
    let mut i: usize = 0;
    proof {
        assert(r@.map_values(|p: Vec<char>| p@) =~= Seq::<Seq<char>>::empty());
        assert(Seq::<Seq<char>>::empty() + split_ws_from(full, 0) =~= split_ws_from(full, 0));
    }
    while i < n
        invariant
            i <= n == s@.len(),
            s@ == full,
            split_ws_from(full, 0) == r@.map_values(|p: Vec<char>| p@) + split_ws_from(
                full,
                i as int,
            ),
        decreases n - i,
    {
        // skip whitespace
        let mut a: usize = i;
        while a < n && is_ws_exec(s[a])
            invariant
                i <= a <= n == s@.len(),
                s@ == full,
                forall|k: int| i <= k < a ==> is_ws(full[k]),
            decreases n - a,
        {
            a += 1;
        }
        proof {
            lemma_first_non_ws_from(full, i as int);
            let f = first_non_ws_from(full, i as int);
            if f < a {
                assert(is_ws(full[f]));
                assert(false);
            }
            if a < f {
                assert(!is_ws(full[a as int]));
                assert(false);
            }
        }
        if a >= n {
            proof {
                assert(split_ws_from(full, i as int) =~= Seq::<Seq<char>>::empty());
                assert(r@.map_values(|p: Vec<char>| p@) + Seq::<Seq<char>>::empty()
                    =~= r@.map_values(|p: Vec<char>| p@));
            }
            return r;
        }
        // scan the word
        let mut b: usize = a;
        while b < n && !is_ws_exec(s[b])
            invariant
                a <= b <= n == s@.len(),
                s@ == full,
                forall|k: int| a <= k < b ==> !is_ws(full[k]),
            decreases n - b,
        {
            b += 1;
        }
        proof {
            lemma_first_ws_from(full, a as int);
            let f = first_ws_from(full, a as int);
            if f < b {
                assert(!is_ws(full[f]));
                assert(false);
            }
            if b < f {
                assert(is_ws(full[b as int]));
                assert(false);
            }
        }
        let seg = copy_range(s, a, b);
        let ghost r_map_old = r@.map_values(|p: Vec<char>| p@);
        let ghost seg_view = seg@;
        r.push(seg);
        proof {
            assert(r@.map_values(|p: Vec<char>| p@) =~= r_map_old.push(seg_view));
            assert(split_ws_from(full, i as int) == seq![full.subrange(a as int, b as int)]
                + split_ws_from(full, b as int));
            assert(r_map_old.push(seg_view) + split_ws_from(full, b as int) =~= r_map_old + (
            seq![seg_view] + split_ws_from(full, b as int)));
        }
        i = b;
    }
    proof {
        assert(split_ws_from(full, n as int) =~= Seq::<Seq<char>>::empty());
        assert(r@.map_values(|p: Vec<char>| p@) + Seq::<Seq<char>>::empty() =~= r@.map_values(
            |p: Vec<char>| p@,
        ));
    }
    r
}

/// Index of the last occurrence of `c` in `s`, or `-1` if there is none.
pub open spec fn rfind_char_spec(s: Seq<char>, c: char) -> int
    decreases s.len(),
{
    if s.len() == 0 {
        -1
    } else if s.last() == c {
        s.len() - 1
    } else {
        rfind_char_spec(s.drop_last(), c)
    }
}

pub proof fn lemma_rfind_char(s: Seq<char>, c: char)
    ensures
        -1 <= rfind_char_spec(s, c) < s.len(),
        rfind_char_spec(s, c) >= 0 ==> s[rfind_char_spec(s, c)] == c,
        forall|k: int| rfind_char_spec(s, c) < k < s.len() ==> s[k] != c,
    decreases s.len(),
{
    if s.len() > 0 && s.last() != c {
        lemma_rfind_char(s.drop_last(), c);
        assert(forall|k: int| 0 <= k < s.len() - 1 ==> s.drop_last()[k] == s[k]);
    }
}

/// Finds the last occurrence of `c`, if any.
pub fn rfind_char(s: &Vec<char>, c: char) -> (r: Option<usize>)
    ensures
        match r {
            Some(i) => i == rfind_char_spec(s@, c),
            None => rfind_char_spec(s@, c) == -1,
        },
{
    let mut b: usize = s.len();
    while b > 0
        invariant
            b <= s@.len(),
            forall|k: int| b <= k < s@.len() ==> s@[k] != c,
        decreases b,
    {
        if s[b - 1] == c {
            proof {
                lemma_rfind_char(s@, c);
                let rf = rfind_char_spec(s@, c);
                if rf < b - 1 {
                    assert(s@[b - 1] != c);
                    assert(false);
                }
                if rf > b - 1 {
                    assert(s@[rf] != c);
                    assert(false);
                }
            }
            return Some(b - 1);
        }
        b -= 1;
    }
    proof {
        lemma_rfind_char(s@, c);
        let rf = rfind_char_spec(s@, c);
        if rf >= 0 {
            assert(s@[rf] != c);
            assert(false);
        }
    }
    None
}

/// Index of the first character differing from `c` at or after `i`, or
/// `s.len()` if there is none.
pub open spec fn first_not_char_from(s: Seq<char>, c: char, i: int) -> int
    decreases s.len() - i,
{
    if i < 0 || i >= s.len() {
        s.len() as int
    } else if s[i] != c {
        i
    } else {
        first_not_char_from(s, c, i + 1)
    }
}

pub proof fn lemma_first_not_char_from(s: Seq<char>, c: char, i: int)
    requires
        0 <= i <= s.len(),
    ensures
        i <= first_not_char_from(s, c, i) <= s.len(),
        first_not_char_from(s, c, i) < s.len() ==> s[first_not_char_from(s, c, i)] != c,
        forall|k: int| i <= k < first_not_char_from(s, c, i) ==> s[k] == c,
    decreases s.len() - i,
{
    if i < s.len() && s[i] == c {
        lemma_first_not_char_from(s, c, i + 1);
    }
}

/// Index of the last character differing from `c`, or `-1` if there is
/// none.
pub open spec fn last_not_char(s: Seq<char>, c: char) -> int
    decreases s.len(),
{
    if s.len() == 0 {
        -1
    } else if s.last() != c {
        s.len() - 1
    } else {
        last_not_char(s.drop_last(), c)
    }
}

pub proof fn lemma_last_not_char(s: Seq<char>, c: char)
    ensures
        -1 <= last_not_char(s, c) < s.len(),
        last_not_char(s, c) >= 0 ==> s[last_not_char(s, c)] != c,
        forall|k: int| last_not_char(s, c) < k < s.len() ==> s[k] == c,
    decreases s.len(),
{
    if s.len() > 0 && s.last() == c {
        lemma_last_not_char(s.drop_last(), c);
        assert(forall|k: int| 0 <= k < s.len() - 1 ==> s.drop_last()[k] == s[k]);
    }
}

pub proof fn lemma_last_not_char_at_least(s: Seq<char>, c: char, k: int)
    requires
        0 <= k < s.len(),
        s[k] != c,
    ensures
        last_not_char(s, c) >= k,
    decreases s.len(),
{
    if s.len() > 0 && s.last() == c {
        lemma_last_not_char_at_least(s.drop_last(), c, k);
    }
}

/// `s` with every leading and trailing occurrence of `c` removed.
pub open spec fn trim_char_spec(s: Seq<char>, c: char) -> Seq<char> {
    let a = first_not_char_from(s, c, 0);
    if a >= s.len() {
        Seq::empty()
    } else {
        s.subrange(a, last_not_char(s, c) + 1)
    }
}

/// Trims every occurrence of `c` from both ends.
pub fn trim_char(s: &Vec<char>, c: char) -> (r: Vec<char>)
    ensures
        r@ == trim_char_spec(s@, c),
{
    let n = s.len();
    let mut a: usize = 0;
    while a < n && s[a] == c
        invariant
            a <= n == s@.len(),
            forall|k: int| 0 <= k < a ==> s@[k] == c,
        decreases n - a,
    {
        a += 1;
    }
    proof {
        lemma_first_not_char_from(s@, c, 0);
        let f = first_not_char_from(s@, c, 0);
        if f < a {
            assert(s@[f] == c);
            assert(false);
        }
        if a < f {
            assert(a < s@.len());
            assert(s@[a as int] == c);
            assert(false);
        }
    }
    if a >= n {
        let r: Vec<char> = Vec::new();
        proof {
            assert(r@ =~= trim_char_spec(s@, c));
        }
        return r;
    }
    let mut b: usize = n;
    while b > a && s[b - 1] == c
        invariant
            a < n == s@.len(),
            a <= b <= n,
            s@[a as int] != c,
            forall|k: int| b <= k < n ==> s@[k] == c,
        decreases b,
    {
        b -= 1;
    }
    proof {
        lemma_last_not_char(s@, c);
        lemma_last_not_char_at_least(s@, c, a as int);
        let l = last_not_char(s@, c);
        if l + 1 < b {
            assert(s@[b - 1] == c);
            assert(false);
        }
        if b < l + 1 {
            assert(s@[l] == c);
            assert(false);
        }
    }
    copy_range(s, a, b)
}

/// Parts joined with a separator character between them.
pub open spec fn join_char(parts: Seq<Seq<char>>, sep: char) -> Seq<char>
    decreases parts.len(),
{
    if parts.len() == 0 {
        seq![]
    } else if parts.len() == 1 {
        parts[0]
    } else {
        join_char(parts.drop_last(), sep) + seq![sep] + parts.last()
    }
}

pub proof fn lemma_join_char_push(parts: Seq<Seq<char>>, x: Seq<char>, sep: char)
    ensures
        join_char(parts.push(x), sep) == if parts.len() == 0 {
            x
        } else {
            join_char(parts, sep) + seq![sep] + x
        },
{
    assert(parts.push(x).drop_last() =~= parts);
    assert(parts.push(x).last() == x);
    if parts.len() == 0 {
        assert(join_char(parts.push(x), sep) == parts.push(x)[0]);
    }
}

/// Joins the parts from position `from` on with a separator character.
pub fn join_from(parts: &Vec<Vec<char>>, from: usize, sep: char) -> (r: Vec<char>)
    requires
        from <= parts@.len(),
    ensures
        r@ == join_char(parts@.map_values(|p: Vec<char>| p@).skip(from as int), sep),
{
    let ghost pm = parts@.map_values(|p: Vec<char>| p@);
    let n = parts.len();
    let mut r: Vec<char> = Vec::new();
    let mut i: usize = from;
    proof {
        assert(pm.skip(from as int).take(0) =~= Seq::<Seq<char>>::empty());
        assert(r@ =~= join_char(pm.skip(from as int).take(0), sep));
    }
    while i < n
        invariant
            n == parts@.len(),
            pm == parts@.map_values(|p: Vec<char>| p@),
            from <= i <= n,
            r@ == join_char(pm.skip(from as int).take(i - from), sep),
        decreases n - i,
    {
        let ghost sofar = pm.skip(from as int).take(i - from);
        proof {
            lemma_join_char_push(sofar, pm[i as int], sep);
            assert(pm.skip(from as int).take(i + 1 - from) =~= sofar.push(pm[i as int]));
        }
        if i > from {
            r.push(sep);
        }
        let ghost r_old = r@;
        let part = &parts[i];
        let mut k: usize = 0;
        while k < part.len()
            invariant
                k <= part@.len(),
                r@ == r_old + part@.take(k as int),
            decreases part@.len() - k,
        {
            r.push(part[k]);
            k += 1;
            proof {
                assert(r@ =~= r_old + part@.take(k as int));
            }
        }
        proof {
            assert(part@.take(part@.len() as int) =~= part@);
            if i == from {
                assert(sofar.len() == 0);
                assert(r@ =~= pm[i as int]);
            } else {
                assert(sofar.len() > 0);
                assert(r@ =~= join_char(sofar, sep) + seq![sep] + pm[i as int]);
            }
        }
        i += 1;
    }
    proof {
        assert(pm.skip(from as int).take(n - from) =~= pm.skip(from as int));
    }
    r
}

/// Whether `c` is a decimal digit.
pub open spec fn is_digit(c: char) -> bool {
    '0' <= c && c <= '9'
}

/// The value of a decimal digit.
pub open spec fn digit_val(c: char) -> int {
    c as u32 - 48
}

/// Whether every character of `s` is a decimal digit.
pub open spec fn all_digits(s: Seq<char>) -> bool {
    forall|i: int| 0 <= i < s.len() ==> is_digit(s[i])
}

/// The value of `s` read as a decimal numeral.
pub open spec fn dec_val(s: Seq<char>) -> int
    decreases s.len(),
{
    if s.len() == 0 {
        0
    } else {
        dec_val(s.drop_last()) * 10 + digit_val(s.last())
    }
}

/// Whether `c` is a hexadecimal digit.
pub open spec fn is_hex_digit(c: char) -> bool {
    ('0' <= c && c <= '9') || ('a' <= c && c <= 'f') || ('A' <= c && c <= 'F')
}

/// The value of a hexadecimal digit.
pub open spec fn hex_digit_val(c: char) -> int {
    if '0' <= c && c <= '9' {
        c as u32 - 48
    } else if 'a' <= c && c <= 'f' {
        c as u32 - 87
    } else {
        c as u32 - 55
    }
}

/// Whether every character of `s` is a hexadecimal digit.
pub open spec fn all_hex_digits(s: Seq<char>) -> bool {
    forall|i: int| 0 <= i < s.len() ==> is_hex_digit(s[i])
}

/// The value of `s` read as a hexadecimal numeral.
pub open spec fn hex_val(s: Seq<char>) -> int
    decreases s.len(),
{
    if s.len() == 0 {
        0
    } else {
        hex_val(s.drop_last()) * 16 + hex_digit_val(s.last())
    }
}

/// The value of a decimal digit, or `None` for any other character.
pub fn digit_of(c: char) -> (r: Option<u8>)
    ensures
        match r {
            Some(d) => is_digit(c) && d as int == digit_val(c),
            None => !is_digit(c),
        },
{
    let u = c as u32;
    if 48 <= u && u <= 57 {
        Some((u - 48) as u8)
    } else {
        None
    }
}

/// The value of a hexadecimal digit, or `None` for any other character.
pub fn hex_digit_of(c: char) -> (r: Option<u8>)
    ensures
        match r {
            Some(d) => is_hex_digit(c) && d as int == hex_digit_val(c),
            None => !is_hex_digit(c),
        },
{
    let u = c as u32;
    if 48 <= u && u <= 57 {
        Some((u - 48) as u8)
    } else if 97 <= u && u <= 102 {
        Some((u - 87) as u8)
    } else if 65 <= u && u <= 70 {
        Some((u - 55) as u8)
    } else {
        None
    }
}

proof fn lemma_dec_val_nonneg(s: Seq<char>)
    requires
        all_digits(s),
    ensures
        dec_val(s) >= 0,
    decreases s.len(),
{
    if s.len() > 0 {
        assert(all_digits(s.drop_last())) by {
            assert(forall|i: int| 0 <= i < s.len() - 1 ==> s.drop_last()[i] == s[i]);
        }
        lemma_dec_val_nonneg(s.drop_last());
    }
}

proof fn lemma_dec_val_grows(s: Seq<char>, i: int)
    requires
        all_digits(s),
        0 <= i <= s.len(),
    ensures
        dec_val(s.take(i)) <= dec_val(s),
    decreases s.len() - i,
{
    if i < s.len() {
        let t = s.take(i + 1);
        assert(t.drop_last() =~= s.take(i));
        assert(all_digits(s.take(i + 1))) by {
            assert(forall|k: int| 0 <= k < i + 1 ==> s.take(i + 1)[k] == s[k]);
        }
        assert(all_digits(s.take(i))) by {
            assert(forall|k: int| 0 <= k < i ==> s.take(i)[k] == s[k]);
        }
        lemma_dec_val_nonneg(s.take(i));
        assert(dec_val(t) == dec_val(s.take(i)) * 10 + digit_val(s[i]));
        assert(dec_val(s.take(i)) * 10 >= dec_val(s.take(i))) by (nonlinear_arith)
            requires dec_val(s.take(i)) >= 0;
        lemma_dec_val_grows(s, i + 1);
        assert(s.take(s.len() as int) =~= s);
    } else {
        assert(s.take(s.len() as int) =~= s);
    }
}

proof fn lemma_hex_val_nonneg(s: Seq<char>)
    requires
        all_hex_digits(s),
    ensures
        hex_val(s) >= 0,
    decreases s.len(),
{
    if s.len() > 0 {
        assert(all_hex_digits(s.drop_last())) by {
            assert(forall|i: int| 0 <= i < s.len() - 1 ==> s.drop_last()[i] == s[i]);
        }
        lemma_hex_val_nonneg(s.drop_last());
    }
}

proof fn lemma_hex_val_grows(s: Seq<char>, i: int)
    requires
        all_hex_digits(s),
        0 <= i <= s.len(),
    ensures
        hex_val(s.take(i)) <= hex_val(s),
    decreases s.len() - i,
{
    if i < s.len() {
        let t = s.take(i + 1);
        assert(t.drop_last() =~= s.take(i));
        assert(all_hex_digits(s.take(i))) by {
            assert(forall|k: int| 0 <= k < i ==> s.take(i)[k] == s[k]);
        }
        lemma_hex_val_nonneg(s.take(i));
        assert(hex_val(t) == hex_val(s.take(i)) * 16 + hex_digit_val(s[i]));
        assert(hex_val(s.take(i)) * 16 >= hex_val(s.take(i))) by (nonlinear_arith)
            requires hex_val(s.take(i)) >= 0;
        lemma_hex_val_grows(s, i + 1);
    } else {
        assert(s.take(s.len() as int) =~= s);
    }
}

/// Parses a decimal numeral: `Some` exactly when `s` is non-empty, all
/// digits, and its value fits in a `u32`.
pub fn parse_u32(s: &Vec<char>) -> (r: Option<u32>)
    ensures
        match r {
            Some(v) => s@.len() > 0 && all_digits(s@) && v as int == dec_val(s@),
            None => s@.len() == 0 || !all_digits(s@) || dec_val(s@) > u32::MAX,
        },
{
    if s.len() == 0 {
        return None;
    }
    let n = s.len();
    let mut v: u64 = 0;
    let mut i: usize = 0;
    while i < n
        invariant
            0 < n == s@.len(),
            i <= n,
            all_digits(s@.take(i as int)),
            v as int == dec_val(s@.take(i as int)),
            v <= u32::MAX,
        decreases n - i,
    {
        let c = s[i];
        let d: u64 = match digit_of(c) {
            Some(d) => d as u64,
            None => {
                proof {
                    assert(!is_digit(s@[i as int]));
                }
                return None;
            },
        };
        let v2: u64 = v * 10 + d;
        proof {
            assert(s@.take(i + 1).drop_last() =~= s@.take(i as int));
            assert(is_digit(s@[i as int]));
            assert(all_digits(s@.take(i + 1))) by {
                assert(forall|k: int| 0 <= k < i ==> s@.take(i + 1)[k] == s@.take(i as int)[k]);
                assert(s@.take(i + 1)[i as int] == s@[i as int]);
            }
        }
        if v2 > 0xffff_ffff {
            proof {
                if all_digits(s@) {
                    lemma_dec_val_grows(s@, i + 1);
                }
            }
            return None;
        }
        v = v2;
        i += 1;
    }
    proof {
        assert(s@.take(n as int) =~= s@);
    }
    Some(v as u32)
}

/// Parses a hexadecimal numeral: `Some` exactly when `s` is non-empty,
/// all hexadecimal digits, and its value fits in a `u64`.
pub fn parse_hex_u64(s: &Vec<char>) -> (r: Option<u64>)
    ensures
        match r {
            Some(v) => s@.len() > 0 && all_hex_digits(s@) && v as int == hex_val(s@),
            None => s@.len() == 0 || !all_hex_digits(s@) || hex_val(s@) > u64::MAX,
        },
{
    if s.len() == 0 {
        return None;
    }
    let n = s.len();
    let mut v: u64 = 0;
    let mut i: usize = 0;
    while i < n
        invariant
            0 < n == s@.len(),
            i <= n,
            all_hex_digits(s@.take(i as int)),
            v as int == hex_val(s@.take(i as int)),
        decreases n - i,
    {
        let c = s[i];
        let d: u64 = match hex_digit_of(c) {
            Some(d) => d as u64,
            None => {
                proof {
                    assert(!is_hex_digit(s@[i as int]));
                }
                return None;
            },
        };
        proof {
            assert(s@.take(i + 1).drop_last() =~= s@.take(i as int));
            assert(is_hex_digit(s@[i as int]));
            assert(hex_digit_val(s@[i as int]) == d);
            assert(all_hex_digits(s@.take(i + 1))) by {
                assert(forall|k: int| 0 <= k < i ==> s@.take(i + 1)[k] == s@.take(i as int)[k]);
                assert(s@.take(i + 1)[i as int] == s@[i as int]);
            }
        }
        let big: u128 = (v as u128) * 16 + (d as u128);
        if big > 0xffff_ffff_ffff_ffff {
            proof {
                if all_hex_digits(s@) {
                    lemma_hex_val_grows(s@, i + 1);
                }
            }
            return None;
        }
        v = big as u64;
        i += 1;
    }
    proof {
        assert(s@.take(n as int) =~= s@);
    }
    Some(v)
}

} // verus!
