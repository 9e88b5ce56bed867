//! Configuration data consumed by the engine: keyboard layouts, board
//! and pad-set descriptions, profiles, and the validation rules that
//! hold across them.

use vstd::prelude::*;

use crate::actions::{order_valid_spec, Action};
use crate::text::{contains_chars, contains_seq, eq_chars, lower_chars, lower_seq, to_chars};

verus! {

/// A named keyboard layout: a substitution table of characters consulted
/// before the fixed character table.
#[derive(Debug)]
pub struct KeyboardLayout {
    pub name: String,
    pub mappings: Vec<(char, char)>,
}

impl Clone for KeyboardLayout {
    fn clone(&self) -> (r: Self)
        ensures
            r.name@ == self.name@,
            r.mappings@ == self.mappings@,
    {
        KeyboardLayout { name: self.name.clone(), mappings: clone_mapping(&self.mappings) }
    }
}

impl KeyboardLayout {
    /// The empty layout: no substitutions.
    pub fn new_default() -> (r: Self)
        ensures
            r.name@ == "default"@,
            r.mappings@ == Seq::<(char, char)>::empty(),
    {
        let mappings: Vec<(char, char)> = Vec::new();
        proof {
            assert(mappings@ =~= Seq::<(char, char)>::empty());
        }
        KeyboardLayout { name: "default".to_owned(), mappings }
    }
}

/// Copies a layout substitution table.
pub fn clone_mapping(m: &Vec<(char, char)>) -> (r: Vec<(char, char)>)
    ensures
        r@ == m@,
{
    let mut r: Vec<(char, char)> = Vec::new();
    let mut i: usize = 0;
    while i < m.len()
        invariant
            i <= m@.len(),
            r@ == m@.take(i as int),
        decreases m@.len() - i,
    {
        r.push(m[i]);
        i += 1;
        proof {
            assert(r@ =~= m@.take(i as int));
        }
    }
    proof {
        assert(m@.take(m@.len() as int) =~= m@);
    }
    r
}

/// How a board claims a foreground application: by a fragment of the
/// active window's name, by an exact process name, or not at all.
#[derive(Debug)]
pub enum Detection {
    XPROP(String),
    PS(String),
    NONE,
}

impl Clone for Detection {
    fn clone(&self) -> (r: Self)
        ensures
            r == *self,
    {
        match self {
            Detection::XPROP(s) => Detection::XPROP(s.clone()),
            Detection::PS(s) => Detection::PS(s.clone()),
            Detection::NONE => Detection::NONE,
        }
    }
}

impl Default for Detection {
    fn default() -> (r: Self)
        ensures
            r is NONE,
    {
        Detection::NONE
    }
}

/// Whether a detection rule claims the given text: a window rule matches
/// case-insensitively anywhere in the text, a process rule must equal
/// the whole text case-insensitively, and no rule matches nothing.
pub open spec fn detection_matches(d: Detection, text: Seq<char>) -> bool {
    match d {
        Detection::XPROP(prop) => contains_seq(lower_seq(text), lower_seq(prop@)),
        Detection::PS(ps) => lower_seq(text) == lower_seq(ps@),
        Detection::NONE => false,
    }
}

impl Detection {
    /// Whether this rule claims `text`.
    pub fn matches(&self, text: &str) -> (r: bool)
        ensures
            r == detection_matches(*self, text@),
    {
        let low_text = lower_chars(&to_chars(text));
        match self {
            Detection::XPROP(prop) => {
                let low_prop = lower_chars(&to_chars(prop.as_str()));
                contains_chars(&low_text, &low_prop)
            },
            Detection::PS(ps) => {
                let low_ps = lower_chars(&to_chars(ps.as_str()));
                eq_chars(&low_text, &low_ps)
            },
            Detection::NONE => false,
        }
    }

    /// Whether this is a window rule.
    pub fn is_xprop(&self) -> (r: bool)
        ensures
            r == (*self matches Detection::XPROP(_)),
    {
        matches!(self, Detection::XPROP(_))
    }

    /// Whether this is a process rule.
    pub fn is_ps(&self) -> (r: bool)
        ensures
            r == (*self matches Detection::PS(_)),
    {
        matches!(self, Detection::PS(_))
    }
}

/// The kind of a board.
#[derive(Debug, PartialEq, Eq, Structural, Clone, Copy)]
pub enum BoardKind {
    Static,
    Home,
}

impl Default for BoardKind {
    fn default() -> (r: Self)
        ensures
            r == BoardKind::Static,
    {
        BoardKind::Static
    }
}

impl BoardKind {
    pub fn is_static(&self) -> (r: bool)
        ensures
            r == (*self == BoardKind::Static),
    {
        matches!(self, BoardKind::Static)
    }
}

/// The kind of a pad set.
#[derive(Debug, PartialEq, Eq, Structural, Clone, Copy)]
pub enum PadSetKind {
    Static,
}

impl Default for PadSetKind {
    fn default() -> (r: Self)
        ensures
            r == PadSetKind::Static,
    {
        PadSetKind::Static
    }
}

impl PadSetKind {
    pub fn is_static(&self) -> (r: bool)
        ensures
            r == (*self == PadSetKind::Static),
    {
        matches!(self, PadSetKind::Static)
    }
}

/// The configuration of one board.
#[derive(Debug)]
pub struct BoardConfig {
    pub kind: BoardKind,
    pub title: Option<String>,
    pub name: String,
    pub icon: Option<String>,
    pub color_scheme: Option<String>,
    pub text_style: Option<String>,
    pub detection: Detection,
    pub base_pads: Option<String>,
    pub modifier_pads: Vec<(String, String)>,
}

/// The configuration of one pad.
#[derive(Debug)]
pub struct PadConfig {
    pub header: String,
    pub text: String,
    pub icon: String,
    pub actions: Vec<Action>,
    pub board: Option<String>,
    pub color_scheme: Option<String>,
    pub text_style: Option<String>,
}

/// The configuration of one pad set.
#[derive(Debug)]
pub struct PadSetConfig {
    pub kind: PadSetKind,
    pub name: String,
    pub items: Vec<PadConfig>,
}

/// A profile: the boards it offers and the board it starts on.
#[derive(Debug)]
pub struct Profile {
    pub name: String,
    pub boards: Vec<String>,
    pub default: String,
}

/// The window geometry and style the host opens the board with.
#[derive(Debug)]
pub struct LayoutSettings {
    pub width: i32,
    pub height: i32,
    pub window_style: String,
}

/// Whether every action list of every pad keeps background work before
/// main work.
pub open spec fn padsets_order_valid(ps: Seq<PadSetConfig>) -> bool {
    forall|i: int, j: int|
        0 <= i < ps.len() && 0 <= j < (#[trigger] ps[i]).items@.len() ==> order_valid_spec(
            (#[trigger] ps[i].items@[j]).actions@,
        )
}

/// Checks the action order of every pad of every pad set; the first
/// offender, as a pad-set and pad index, is reported.
pub fn validate_action_order(padsets: &Vec<PadSetConfig>) -> (r: Option<(usize, usize)>)
    ensures
        match r {
            Some(at) => 0 <= at.0 < padsets@.len() && 0 <= at.1 < padsets@[at.0 as int].items@.len()
                && !order_valid_spec(padsets@[at.0 as int].items@[at.1 as int].actions@),
            None => padsets_order_valid(padsets@),
        },
{
    let n = padsets.len();
    let mut i: usize = 0;
    while i < n
        invariant
            n == padsets@.len(),
            i <= n,
            forall|a: int, b: int|
                0 <= a < i && 0 <= b < (#[trigger] padsets@[a]).items@.len() ==> order_valid_spec(
                    (#[trigger] padsets@[a].items@[b]).actions@,
                ),
        decreases n - i,
    {
        let m = padsets[i].items.len();
        let mut j: usize = 0;
        while j < m
            invariant
                n == padsets@.len(),
                i < n,
                m == padsets@[i as int].items@.len(),
                j <= m,
                forall|b: int|
                    0 <= b < j ==> order_valid_spec(
                        (#[trigger] padsets@[i as int].items@[b]).actions@,
                    ),
            decreases m - j,
        {
            if !crate::actions::ActionList::is_order_valid(&padsets[i].items[j].actions) {
                return Some((i, j));
            }
            j += 1;
        }
        i += 1;
    }
    None
}

/// The first position whose name already occurred earlier in the list,
/// if any: names must be unique within their category.
pub fn find_duplicate_name(names: &Vec<String>) -> (r: Option<usize>)
    ensures
        match r {
            Some(j) => 0 <= j < names@.len() && (exists|i: int|
                0 <= i < j && names@[i]@ == names@[j as int]@) && (forall|a: int, b: int|
                0 <= a < b < j ==> names@[a]@ != names@[b]@),
            None => forall|a: int, b: int|
                0 <= a < b < names@.len() ==> names@[a]@ != names@[b]@,
        },
{
    let n = names.len();
    let mut j: usize = 0;
    while j < n
        invariant
            n == names@.len(),
            j <= n,
            forall|a: int, b: int| 0 <= a < b < j ==> names@[a]@ != names@[b]@,
        decreases n - j,
    {
        let mut i: usize = 0;
        while i < j
            invariant
                j < n == names@.len(),
                i <= j,
                forall|a: int, b: int| 0 <= a < b < j ==> names@[a]@ != names@[b]@,
                forall|a: int| 0 <= a < i ==> names@[a]@ != names@[j as int]@,
            decreases j - i,
        {
            if names[i].eq(&names[j]) {
                proof {
                    assert(names@[i as int]@ == names@[j as int]@);
                }
                return Some(j);
            }
            i += 1;
        }
        j += 1;
    }
    None
}

/// Whether a name stands in a list of names.
pub open spec fn has_name(names: Seq<Seq<char>>, x: Seq<char>) -> bool {
    exists|i: int| 0 <= i < names.len() && names[i] == x
}

/// Whether a profile references only known board names, its default
/// board included.
pub open spec fn profile_boards_known(p: Profile, board_names: Seq<Seq<char>>) -> bool {
    &&& forall|k: int|
        0 <= k < p.boards@.len() ==> has_name(board_names, (#[trigger] p.boards@[k])@)
    &&& has_name(board_names, p.default@)
}

/// Checks that every profile references only known board names; the
/// first offending profile is reported.
pub fn validate_profile_board_references(profiles: &Vec<Profile>, board_names: &Vec<String>) -> (r:
    Option<usize>)
    ensures
        match r {
            Some(i) => 0 <= i < profiles@.len() && !profile_boards_known(
                profiles@[i as int],
                board_names@.map_values(|s: String| s@),
            ),
            None => forall|i: int|
                0 <= i < profiles@.len() ==> profile_boards_known(
                    #[trigger] profiles@[i],
                    board_names@.map_values(|s: String| s@),
                ),
        },
{
    let ghost nm = board_names@.map_values(|s: String| s@);
    let n = profiles.len();
    let mut i: usize = 0;
    while i < n
        invariant
            n == profiles@.len(),
            nm == board_names@.map_values(|s: String| s@),
            i <= n,
            forall|k: int| 0 <= k < i ==> profile_boards_known(#[trigger] profiles@[k], nm),
        decreases n - i,
    {
        let m = profiles[i].boards.len();
        let mut j: usize = 0;
        while j < m
            invariant
                n == profiles@.len(),
                i < n,
                nm == board_names@.map_values(|s: String| s@),
                m == profiles@[i as int].boards@.len(),
                j <= m,
                forall|k: int|
                    0 <= k < j ==> has_name(nm, (#[trigger] profiles@[i as int].boards@[k])@),
            decreases m - j,
        {
            if !contains_name(board_names, profiles[i].boards[j].as_str()) {
                return Some(i);
            }
            j += 1;
        }
        if !contains_name(board_names, profiles[i].default.as_str()) {
            return Some(i);
        }
        i += 1;
    }
    None
}

/// Whether `x` stands in `names`.
pub fn contains_name(names: &Vec<String>, x: &str) -> (r: bool)
    ensures
        r == has_name(names@.map_values(|s: String| s@), x@),
{
    let ghost nm = names@.map_values(|s: String| s@);
    let xc = to_chars(x);
    let n = names.len();
    let mut i: usize = 0;
    while i < n
        invariant
            n == names@.len(),
            nm == names@.map_values(|s: String| s@),
            xc@ == x@,
            i <= n,
            forall|k: int| 0 <= k < i ==> nm[k] != x@,
        decreases n - i,
    {
        let c = to_chars(names[i].as_str());
        if eq_chars(&c, &xc) {
            proof {
                assert(nm[i as int] == x@);
            }
            return true;
        }
        i += 1;
    }
    false
}

/// The first board of the list claimed for the given process name by its
/// detection rule, as an index.
pub fn select_board_by_process(boards: &Vec<BoardConfig>, process_name: &str) -> (r: Option<usize>)
    ensures
        match r {
            Some(i) => 0 <= i < boards@.len() && detection_matches(
                boards@[i as int].detection,
                process_name@,
            ) && forall|k: int|
                0 <= k < i ==> !detection_matches(
                    (#[trigger] boards@[k]).detection,
                    process_name@,
                ),
            None => forall|k: int|
                0 <= k < boards@.len() ==> !detection_matches(
                    (#[trigger] boards@[k]).detection,
                    process_name@,
                ),
        },
{
    let n = boards.len();
    let mut i: usize = 0;
    while i < n
        invariant
            n == boards@.len(),
            i <= n,
            forall|k: int|
                0 <= k < i ==> !detection_matches((#[trigger] boards@[k]).detection, process_name@),
        decreases n - i,
    {
        if boards[i].detection.matches(process_name) {
            return Some(i);
        }
        i += 1;
    }
    None
}

/// The first board of `boards` whose name is `name`, as an index.
pub fn find_board_config(boards: &Vec<BoardConfig>, name: &str) -> (r: Option<usize>)
    ensures
        match r {
            Some(i) => 0 <= i < boards@.len() && boards@[i as int].name@ == name@ && forall|k: int|
                0 <= k < i ==> (#[trigger] boards@[k]).name@ != name@,
            None => forall|k: int| 0 <= k < boards@.len() ==> (#[trigger] boards@[k]).name@ != name@,
        },
{
    let xc = to_chars(name);
    let n = boards.len();
    let mut i: usize = 0;
    while i < n
        invariant
            n == boards@.len(),
            xc@ == name@,
            i <= n,
            forall|k: int| 0 <= k < i ==> (#[trigger] boards@[k]).name@ != name@,
        decreases n - i,
    {
        let c = to_chars(boards[i].name.as_str());
        if eq_chars(&c, &xc) {
            return Some(i);
        }
        i += 1;
    }
    None
}

/// Whether a board's detection rule claims any of the given process
/// names.
pub open spec fn board_matches_any(b: BoardConfig, names: Seq<Seq<char>>) -> bool {
    exists|k: int| 0 <= k < names.len() && detection_matches(b.detection, names[k])
}

/// How many boards of the prefix up to `i` match some process name.
pub open spec fn count_matching(boards: Seq<BoardConfig>, names: Seq<Seq<char>>, i: int) -> int
    decreases i,
{
    if i <= 0 {
        0
    } else {
        count_matching(boards, names, i - 1) + if board_matches_any(boards[i - 1], names) {
            1int
        } else {
            0int
        }
    }
}

fn board_matches_any_exec(b: &BoardConfig, names: &Vec<String>) -> (r: bool)
    ensures
        r == board_matches_any(*b, names@.map_values(|s: String| s@)),
{
    let ghost nm = names@.map_values(|s: String| s@);
    let n = names.len();
    let mut k: usize = 0;
    while k < n
        invariant
            n == names@.len(),
            nm == names@.map_values(|s: String| s@),
            k <= n,
            forall|a: int| 0 <= a < k ==> !detection_matches(b.detection, #[trigger] nm[a]),
        decreases n - k,
    {
        if b.detection.matches(names[k].as_str()) {
            proof {
                assert(detection_matches(b.detection, nm[k as int]));
            }
            return true;
        }
        k += 1;
    }
    false
}

/// Picks a board for the running processes: with no match nothing, with
/// exactly one match that board, and with several the first one carrying
/// the profile's default name if any matching board does, else the first
/// match — as an index into `boards`.
pub fn find_board_among_running_processes(
    boards: &Vec<BoardConfig>,
    process_names: &Vec<String>,
    default_board_name: &str,
) -> (r: Option<usize>)
    ensures
        match r {
            Some(i) => {
                let nm = process_names@.map_values(|s: String| s@);
                &&& 0 <= i < boards@.len()
                &&& board_matches_any(boards@[i as int], nm)
                &&& count_matching(boards@, nm, boards@.len() as int) >= 1
                &&& (count_matching(boards@, nm, boards@.len() as int) == 1 ==> forall|k: int|
                    0 <= k < i ==> !board_matches_any(#[trigger] boards@[k], nm))
                &&& (count_matching(boards@, nm, boards@.len() as int) > 1 ==> {
                    ||| (boards@[i as int].name@ == default_board_name@ && forall|k: int|
                        0 <= k < i ==> !(board_matches_any(#[trigger] boards@[k], nm)
                            && boards@[k].name@ == default_board_name@))
                    ||| ((forall|k: int|
                        0 <= k < boards@.len() ==> !(board_matches_any(#[trigger] boards@[k], nm)
                            && boards@[k].name@ == default_board_name@)) && (forall|k: int|
                        0 <= k < i ==> !board_matches_any(#[trigger] boards@[k], nm)))
                })
            },
            None => forall|k: int|
                0 <= k < boards@.len() ==> !board_matches_any(
                    #[trigger] boards@[k],
                    process_names@.map_values(|s: String| s@),
                ),
        },
{
    let ghost nm = process_names@.map_values(|s: String| s@);
    let n = boards.len();
    // count the matching boards and remember the first match
    let mut count: usize = 0;
    let mut first: usize = n;
    let mut i: usize = 0;
    while i < n
        invariant
            n == boards@.len(),
            nm == process_names@.map_values(|s: String| s@),
            i <= n,
            count as int == count_matching(boards@, nm, i as int),
            count <= i,
            count == 0 ==> first == n && forall|k: int|
                0 <= k < i ==> !board_matches_any(#[trigger] boards@[k], nm),
            count > 0 ==> 0 <= first < i && board_matches_any(boards@[first as int], nm) && forall|
                k: int,
            |
                0 <= k < first ==> !board_matches_any(#[trigger] boards@[k], nm),
        decreases n - i,
    {
        if board_matches_any_exec(&boards[i], process_names) {
            if count == 0 {
                first = i;
            }
            count += 1;
        }
        i += 1;
    }
    if count == 0 {
        return None;
    }
    if count == 1 {
        return Some(first);
    }
    // several matches: prefer the first matching board named as the default
    let mut j: usize = 0;
    while j < n
        invariant
            n == boards@.len(),
            nm == process_names@.map_values(|s: String| s@),
            j <= n,
            count as int == count_matching(boards@, nm, n as int),
            count > 1,
            0 <= first < n,
            board_matches_any(boards@[first as int], nm),
            forall|k: int| 0 <= k < first ==> !board_matches_any(#[trigger] boards@[k], nm),
            forall|k: int|
                0 <= k < j ==> !(board_matches_any(#[trigger] boards@[k], nm) && boards@[k].name@
                    == default_board_name@),
        decreases n - j,
    {
        if board_matches_any_exec(&boards[j], process_names) {
            let c = to_chars(boards[j].name.as_str());
            let d = to_chars(default_board_name);
            if eq_chars(&c, &d) {
                return Some(j);
            }
        }
        j += 1;
    }
    Some(first)
}

} // verus!
