//! Parsers for the window-detection tool output: the active window id,
//! the window's process id and class, and the running-process table.
//! The host runs the tools and hands their text here.

use vstd::prelude::*;

use crate::text::{
    all_digits, all_hex_digits, chars_to_string, contains_chars, contains_seq, dec_val,
    find_char_from, hex_val, join_char, join_from, lemma_find_char_from, lemma_rfind_char, lines,
    lines_spec, parse_hex_u64, parse_u32, rfind_char, rfind_char_spec, split_char,
    split_char_spec, split_whitespace, split_ws_spec, to_chars, trim, trim_char, trim_char_spec,
    trim_spec,
};

verus! {

/// What is known about one process.
#[derive(Debug)]
pub struct ProcessInfo {
    /// The executable name.
    pub name: String,
    /// The process id.
    pub pid: u32,
    /// The window id, when window detection supplied one.
    pub window_id: Option<u64>,
    /// The window class, when window detection supplied one.
    pub window_class: Option<String>,
}

impl ProcessInfo {
    /// A process known only by name and id.
    pub fn new(name: String, pid: u32) -> (r: Self)
        ensures
            r.name@ == name@,
            r.pid == pid,
            r.window_id is None,
            r.window_class is None,
    {
        ProcessInfo { name, pid, window_id: None, window_class: None }
    }

    /// The same process, with its window attached.
    pub fn with_window_info(self, window_id: u64, window_class: Option<String>) -> (r: Self)
        ensures
            r.name@ == self.name@,
            r.pid == self.pid,
            r.window_id == Some(window_id),
            r.window_class == window_class,
    {
        ProcessInfo { window_id: Some(window_id), window_class, ..self }
    }
}

/// A string with every leading `0x` removed.
pub open spec fn strip_0x(s: Seq<char>) -> Seq<char>
    decreases s.len(),
{
    if s.len() >= 2 && s[0] == '0' && s[1] == 'x' {
        strip_0x(s.skip(2))
    } else {
        s
    }
}

fn strip_0x_exec(s: &Vec<char>) -> (r: Vec<char>)
    ensures
        r@ == strip_0x(s@),
{
    let n = s.len();
    let mut start: usize = 0;
    proof {
        assert(s@.skip(0) =~= s@);
    }
    while n - start >= 2 && s[start] == '0' && s[start + 1] == 'x'
        invariant
            start <= n == s@.len(),
            strip_0x(s@) == strip_0x(s@.skip(start as int)),
        decreases n - start,
    {
        proof {
            assert(s@.skip(start as int).skip(2) =~= s@.skip(start + 2));
        }
        start += 2;
    }
    let r = crate::text::copy_range(s, start, n);
    proof {
        assert(s@.skip(start as int) =~= s@.subrange(start as int, n as int));
        assert(strip_0x(s@.skip(start as int)) == s@.skip(start as int));
    }
    r
}

/// The hex field a line of window-id output offers: for a line holding
/// the active-window marker, the `#`-delimited second field, trimmed and
/// with any `0x` prefixes removed.
pub open spec fn window_id_field(line: Seq<char>) -> Option<Seq<char>> {
    if contains_seq(line, "_NET_ACTIVE_WINDOW"@) {
        let parts = split_char_spec(line, '#');
        if parts.len() >= 2 {
            Some(strip_0x(trim_spec(parts[1])))
        } else {
            None
        }
    } else {
        None
    }
}

/// The field of the first line that offers one, from line `i` on.
pub open spec fn first_field(
    ls: Seq<Seq<char>>,
    i: int,
    field: spec_fn(Seq<char>) -> Option<Seq<char>>,
) -> Option<Seq<char>>
    decreases ls.len() - i,
{
    if i < 0 || i >= ls.len() {
        None
    } else {
        match field(ls[i]) {
            Some(f) => Some(f),
            None => first_field(ls, i + 1, field),
        }
    }
}

/// The window-id field of a whole tool output.
pub open spec fn window_id_field_of(output: Seq<char>) -> Option<Seq<char>> {
    first_field(lines_spec(output), 0, |line: Seq<char>| window_id_field(line))
}

/// Parses the active window id from window-detection output: the first
/// line carrying the marker and a `#`-delimited field decides, its field
/// read as hexadecimal.
pub fn parse_window_id_from_xprop(output: &str) -> (r: Result<u64, &'static str>)
    ensures
        match r {
            Ok(v) => window_id_field_of(output@) matches Some(f) && f.len() > 0 && all_hex_digits(
                f,
            ) && v == hex_val(f),
            Err(m) => (window_id_field_of(output@) is None && m@
                == "no active window id in output"@) || (window_id_field_of(output@) matches Some(f)
                && !(f.len() > 0 && all_hex_digits(f) && hex_val(f) <= u64::MAX) && m@
                == "window id is not valid hexadecimal"@),
        },
{
    let ghost fieldfn = |line: Seq<char>| window_id_field(line);
    let cs = to_chars(output);
    let ls = lines(&cs);
    let ghost lsm = ls@.map_values(|p: Vec<char>| p@);
    let marker = to_chars("_NET_ACTIVE_WINDOW");
    let n = ls.len();
    let mut i: usize = 0;
    while i < n
        invariant
            n == ls@.len(),
            lsm == ls@.map_values(|p: Vec<char>| p@),
            lsm == lines_spec(output@),
            marker@ == "_NET_ACTIVE_WINDOW"@,
            i <= n,
            fieldfn == (|line: Seq<char>| window_id_field(line)),
            first_field(lsm, 0, fieldfn) == first_field(lsm, i as int, fieldfn),
        decreases n - i,
    {
        if contains_chars(&ls[i], &marker) {
            let parts = split_char(&ls[i], '#');
            if parts.len() >= 2 {
                let t = trim(&parts[1]);
                let f = strip_0x_exec(&t);
                proof {
                    assert(parts@.map_values(|p: Vec<char>| p@)[1] == parts[1]@);
                    assert(window_id_field(lsm[i as int]) == Some(f@));
                    assert(first_field(lsm, i as int, fieldfn) == Some(f@));
                }
                match parse_hex_u64(&f) {
                    Some(v) => {
                        return Ok(v);
                    },
                    None => {
                        return Err("window id is not valid hexadecimal");
                    },
                }
            }
        }
        proof {
            assert(window_id_field(lsm[i as int]) is None);
            assert(first_field(lsm, i as int, fieldfn) == first_field(lsm, i + 1, fieldfn));
        }
        i += 1;
    }
    Err("no active window id in output")
}

/// The decimal field a line of pid output offers: for a line holding the
/// pid marker, the `=`-delimited second field, trimmed.
pub open spec fn pid_field(line: Seq<char>) -> Option<Seq<char>> {
    if contains_seq(line, "_NET_WM_PID"@) {
        let parts = split_char_spec(line, '=');
        if parts.len() >= 2 {
            Some(trim_spec(parts[1]))
        } else {
            None
        }
    } else {
        None
    }
}

/// The pid field of a whole tool output.
pub open spec fn pid_field_of(output: Seq<char>) -> Option<Seq<char>> {
    first_field(lines_spec(output), 0, |line: Seq<char>| pid_field(line))
}

/// Parses the window's process id: the first line carrying the marker
/// and an `=`-delimited field decides, its field read as decimal.
pub fn parse_pid_from_xprop(output: &str) -> (r: Result<u32, &'static str>)
    ensures
        match r {
            Ok(v) => pid_field_of(output@) matches Some(f) && f.len() > 0 && all_digits(f) && v
                == dec_val(f),
            Err(m) => (pid_field_of(output@) is None && m@ == "no process id in output"@) || (
            pid_field_of(output@) matches Some(f) && !(f.len() > 0 && all_digits(f) && dec_val(f)
                <= u32::MAX) && m@ == "process id is not a valid number"@),
        },
{
    let ghost fieldfn = |line: Seq<char>| pid_field(line);
    let cs = to_chars(output);
    let ls = lines(&cs);
    let ghost lsm = ls@.map_values(|p: Vec<char>| p@);
    let marker = to_chars("_NET_WM_PID");
    let n = ls.len();
    let mut i: usize = 0;
    while i < n
        invariant
            n == ls@.len(),
            lsm == ls@.map_values(|p: Vec<char>| p@),
            lsm == lines_spec(output@),
            marker@ == "_NET_WM_PID"@,
            i <= n,
            fieldfn == (|line: Seq<char>| pid_field(line)),
            first_field(lsm, 0, fieldfn) == first_field(lsm, i as int, fieldfn),
        decreases n - i,
    {
        if contains_chars(&ls[i], &marker) {
            let parts = split_char(&ls[i], '=');
            if parts.len() >= 2 {
                let f = trim(&parts[1]);
                proof {
                    assert(parts@.map_values(|p: Vec<char>| p@)[1] == parts[1]@);
                    assert(pid_field(lsm[i as int]) == Some(f@));
                    assert(first_field(lsm, i as int, fieldfn) == Some(f@));
                }
                match parse_u32(&f) {
                    Some(v) => {
                        return Ok(v);
                    },
                    None => {
                        return Err("process id is not a valid number");
                    },
                }
            }
        }
        proof {
            assert(pid_field(lsm[i as int]) is None);
            assert(first_field(lsm, i as int, fieldfn) == first_field(lsm, i + 1, fieldfn));
        }
        i += 1;
    }
    Err("no process id in output")
}

/// The class field a line of window-class output offers: the second
/// comma-delimited name of the `=`-delimited second field, unquoted and
/// trimmed.
pub open spec fn class_field(line: Seq<char>) -> Option<Seq<char>> {
    if contains_seq(line, "WM_CLASS"@) {
        let parts = split_char_spec(line, '=');
        if parts.len() >= 2 {
            let names = split_char_spec(trim_spec(parts[1]), ',');
            if names.len() >= 2 {
                Some(trim_spec(trim_char_spec(trim_spec(names[1]), '"')))
            } else {
                None
            }
        } else {
            None
        }
    } else {
        None
    }
}

/// The class field of a whole tool output.
pub open spec fn class_field_of(output: Seq<char>) -> Option<Seq<char>> {
    first_field(lines_spec(output), 0, |line: Seq<char>| class_field(line))
}

/// Parses the window class: the second of the two quoted class names is
/// the application name.
pub fn parse_window_class_from_xprop(output: &str) -> (r: Result<String, &'static str>)
    ensures
        match r {
            Ok(v) => class_field_of(output@) matches Some(f) && v@ == f,
            Err(m) => class_field_of(output@) is None && m@ == "no window class in output"@,
        },
{
    let ghost fieldfn = |line: Seq<char>| class_field(line);
    let cs = to_chars(output);
    let ls = lines(&cs);
    let ghost lsm = ls@.map_values(|p: Vec<char>| p@);
    let marker = to_chars("WM_CLASS");
    let n = ls.len();
    let mut i: usize = 0;
    while i < n
        invariant
            n == ls@.len(),
            lsm == ls@.map_values(|p: Vec<char>| p@),
            lsm == lines_spec(output@),
            marker@ == "WM_CLASS"@,
            i <= n,
            fieldfn == (|line: Seq<char>| class_field(line)),
            first_field(lsm, 0, fieldfn) == first_field(lsm, i as int, fieldfn),
        decreases n - i,
    {
        if contains_chars(&ls[i], &marker) {
            let parts = split_char(&ls[i], '=');
            if parts.len() >= 2 {
                let class_str = trim(&parts[1]);
                let names = split_char(&class_str, ',');
                if names.len() >= 2 {
                    let f = trim(&trim_char(&trim(&names[1]), '"'));
                    proof {
                        assert(parts@.map_values(|p: Vec<char>| p@)[1] == parts[1]@);
                        assert(names@.map_values(|p: Vec<char>| p@)[1] == names[1]@);
                        assert(class_field(lsm[i as int]) == Some(f@));
                        assert(first_field(lsm, i as int, fieldfn) == Some(f@));
                    }
                    return Ok(chars_to_string(&f));
                }
            }
        }
        proof {
            assert(class_field(lsm[i as int]) is None);
            assert(first_field(lsm, i as int, fieldfn) == first_field(lsm, i + 1, fieldfn));
        }
        i += 1;
    }
    Err("no window class in output")
}

/// The executable name within a command string: a bracketed kernel
/// thread reads as the bracket content; otherwise the first word, and of
/// it only what follows the last `/`.
pub open spec fn extract_name_spec(cmd: Seq<char>) -> Seq<char> {
    let c = trim_spec(cmd);
    if c.len() > 0 && c[0] == '[' && contains_seq(c, "]"@) {
        c.subrange(1, find_char_from(c, ']', 0))
    } else {
        let w = split_ws_spec(c);
        let t = if w.len() == 0 {
            c
        } else {
            w[0]
        };
        let k = rfind_char_spec(t, '/');
        if k >= 0 {
            t.skip(k + 1)
        } else {
            t
        }
    }
}

/// Extracts the executable name from a command string.
pub fn extract_process_name(command: &str) -> (r: String)
    ensures
        r@ == extract_name_spec(command@),
{
    let cs = to_chars(command);
    let c = trim(&cs);
    let bracket = to_chars("]");
    if c.len() > 0 && c[0] == '[' && contains_chars(&c, &bracket) {
        proof {
            assert(bracket@ =~= "]"@);
        }
        // the bracket content, up to the first closing bracket
        let n = c.len();
        let mut j: usize = 0;
        while j < n && c[j] != ']'
            invariant
                j <= n == c@.len(),
                forall|k: int| 0 <= k < j ==> c@[k] != ']',
            decreases n - j,
        {
            j += 1;
        }
        proof {
            lemma_find_char_from(c@, ']', 0);
            let fj = find_char_from(c@, ']', 0);
            if fj < j {
                assert(c@[fj] != ']');
                assert(false);
            }
            if j < fj {
                assert(c@[j as int] != ']');
                assert(false);
            }
            if j == n {
                reveal_strlit("]");
                let w = choose|k: int| crate::text::is_match_at(c@, "]"@, k);
                assert("]"@.len() == 1);
                assert(c@.subrange(w, w + 1) == "]"@);
                assert(c@.subrange(w, w + 1)[0] == c@[w]);
                assert(c@[w] == ']');
                assert(false);
            }
        }
        let r = crate::text::copy_range(&c, 1, j);
        proof {
            assert(r@ =~= extract_name_spec(command@));
        }
        chars_to_string(&r)
    } else {
        proof {
            if c@.len() > 0 && c@[0] == '[' {
                // the bracket test failed on the closing bracket
                assert(!contains_seq(c@, "]"@));
            }
        }
        let words = split_whitespace(&c);
        let t = if words.len() == 0 {
            crate::text::copy_range(&c, 0, c.len())
        } else {
            crate::text::copy_range(&words[0], 0, words[0].len())
        };
        proof {
            assert(c@.subrange(0, c@.len() as int) =~= c@);
            if words@.len() > 0 {
                assert(words@.map_values(|p: Vec<char>| p@)[0] == words[0]@);
                assert(words[0]@.subrange(0, words[0]@.len() as int) =~= words[0]@);
            }
        }
        match rfind_char(&t, '/') {
            Some(k) => {
                proof {
                    lemma_rfind_char(t@, '/');
                }
                let r = crate::text::copy_range(&t, k + 1, t.len());
                proof {
                    assert(t@.subrange(k + 1, t@.len() as int) =~= t@.skip(k + 1));
                }
                chars_to_string(&r)
            },
            None => chars_to_string(&t),
        }
    }
}

/// What one line of the process table yields: eleven or more
/// whitespace-separated columns, the second a valid pid, the command
/// read from the eleventh on.
pub open spec fn ps_entry(line: Seq<char>) -> Option<(u32, Seq<char>)> {
    let w = split_ws_spec(line);
    if w.len() < 11 {
        None
    } else if w[1].len() > 0 && all_digits(w[1]) && dec_val(w[1]) <= u32::MAX {
        Some(
            (
                dec_val(w[1]) as u32,
                extract_name_spec(join_char(w.skip(10), ' ')),
            ),
        )
    } else {
        None
    }
}

/// The entries of the process table from line `i` on.
pub open spec fn ps_entries_from(ls: Seq<Seq<char>>, i: int) -> Seq<(u32, Seq<char>)>
    decreases ls.len() - i,
{
    if i < 0 || i >= ls.len() {
        seq![]
    } else {
        match ps_entry(ls[i]) {
            Some(e) => seq![e] + ps_entries_from(ls, i + 1),
            None => ps_entries_from(ls, i + 1),
        }
    }
}

/// The entries of a whole process-table output, the header line
/// skipped.
pub open spec fn ps_output_spec(output: Seq<char>) -> Seq<(u32, Seq<char>)> {
    ps_entries_from(lines_spec(output), 1)
}

/// Parses the process table: one entry per well-formed line, each
/// carrying the pid and the executable name.
pub fn parse_ps_output(output: &str) -> (r: Result<Vec<ProcessInfo>, &'static str>)
    ensures
        r is Ok,
        r matches Ok(v) ==> {
            &&& v@.len() == ps_output_spec(output@).len()
            &&& forall|k: int|
                0 <= k < v@.len() ==> (#[trigger] v@[k]).pid == ps_output_spec(output@)[k].0
                    && v@[k].name@ == ps_output_spec(output@)[k].1 && v@[k].window_id is None
                    && v@[k].window_class is None
        },
{
    let cs = to_chars(output);
    let ls = lines(&cs);
    let ghost lsm = ls@.map_values(|p: Vec<char>| p@);
    let ghost full = ps_entries_from(lsm, 1);
    let n = ls.len();
    let mut processes: Vec<ProcessInfo> = Vec::new();
    let mut i: usize = 1;
    proof {
        assert(ps_entries_from(lsm, 1) == full);
    }
    while i < n
        invariant
            n == ls@.len(),
            lsm == ls@.map_values(|p: Vec<char>| p@),
            full == ps_entries_from(lsm, 1),
            1 <= i <= n || (n == 0 && i == 1),
            full.len() == processes@.len() + ps_entries_from(lsm, i as int).len(),
            forall|k: int|
                0 <= k < processes@.len() ==> (#[trigger] processes@[k]).pid == full[k].0
                    && processes@[k].name@ == full[k].1 && processes@[k].window_id is None
                    && processes@[k].window_class is None,
            forall|k: int|
                processes@.len() <= k < full.len() ==> full[k] == ps_entries_from(
                    lsm,
                    i as int,
                )[k - processes@.len()],
        decreases n - i,
    {
        let w = split_whitespace(&ls[i]);
        let ghost wm = w@.map_values(|p: Vec<char>| p@);
        if w.len() >= 11 {
            proof {
                assert(wm[1] == w[1]@);
            }
            match parse_u32(&w[1]) {
                Some(pid) => {
                    let command = join_from(&w, 10, ' ');
                    proof {
                        assert(wm.skip(10) =~= w@.map_values(|p: Vec<char>| p@).skip(10));
                    }
                    let name = extract_process_name(chars_to_string(&command).as_str());
                    let info = ProcessInfo::new(name, pid);
                    proof {
                        assert(ps_entry(lsm[i as int]) == Some(
                            (pid, extract_name_spec(command@)),
                        ));
                        assert(ps_entries_from(lsm, i as int) == seq![
                            (pid, extract_name_spec(command@)),
                        ] + ps_entries_from(lsm, i + 1));
                    }
                    processes.push(info);
                },
                None => {
                    proof {
                        assert(ps_entry(lsm[i as int]) is None);
                        assert(ps_entries_from(lsm, i as int) == ps_entries_from(lsm, i + 1));
                    }
                },
            }
        } else {
            proof {
                assert(ps_entry(lsm[i as int]) is None);
                assert(ps_entries_from(lsm, i as int) == ps_entries_from(lsm, i + 1));
            }
        }
        i += 1;
    }
    proof {
        assert(ps_entries_from(lsm, i as int).len() == 0);
    }
    Ok(processes)
}

} // verus!
