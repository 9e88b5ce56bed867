//! The script compiler: turns a shortcut-chord string, a free-text
//! string or a pause into an ordered sequence of input steps.
//!
//! Shortcut syntax: whitespace-separated key names; `+` separates
//! simultaneous chords; `'+'` denotes the literal plus key. Key names
//! are case-insensitive; unresolvable names are dropped. For each chord
//! the keys go down in declaration order and up in reverse order.

use vstd::prelude::*;

use crate::ckey::{resolve_spec, CharacterKeyModel, find_mapped_ckey, CharacterKey};
use crate::steps::{InputStep, KeyInput, KeyInputs, NoInput, StepModel};
use crate::text::{lower_seq, lower_chars, to_chars, chars_to_string};
use crate::vkey::{find_vkey, find_vkey_spec, VirtualKey, VirtualKeyModel};

verus! {

/// Abstract code of the shift key.
pub const VK_SHIFT_CODE: u16 = 0x10;

/// Abstract code of the enter key.
pub const VK_ENTER_CODE: u16 = 0x0D;

/// Spec-level image of a scanner token.
#[verifier::ext_equal]
pub ghost enum TokenModel {
    /// A chord separator.
    Plus,
    /// A single-character token.
    Char(Seq<char>),
    /// A quoted single-character token, `'x'`.
    Quoted(Seq<char>),
    /// A longer key name.
    Word(Seq<char>),
}

/// One token of the shortcut scanner.
#[derive(Debug, PartialEq, Eq)]
pub enum Token {
    PLUS,
    CHAR(String),
    QUOTED(String),
    WORD(String),
}

impl View for Token {
    type V = TokenModel;

    open spec fn view(&self) -> TokenModel {
        match self {
            Token::PLUS => TokenModel::Plus,
            Token::CHAR(s) => TokenModel::Char(s@),
            Token::QUOTED(s) => TokenModel::Quoted(s@),
            Token::WORD(s) => TokenModel::Word(s@),
        }
    }
}

/// Classification of one lower-cased token run: a three-character run
/// in single quotes is a quoted token, a lone `+` is the separator, any
/// other single character is a character token, the rest are words.
pub open spec fn classify_spec(run: Seq<char>) -> TokenModel {
    let low = lower_seq(run);
    if low.len() == 3 && low[0] == '\'' && low[2] == '\'' {
        TokenModel::Quoted(seq![low[1]])
    } else if low.len() == 1 && low[0] == '+' {
        TokenModel::Plus
    } else if low.len() == 1 {
        TokenModel::Char(low)
    } else {
        TokenModel::Word(low)
    }
}

fn classify(run: &Vec<char>) -> (t: Token)
    ensures
        t@ == classify_spec(run@),
{
    let low = lower_chars(run);
    if low.len() == 3 && low[0] == '\'' && low[2] == '\'' {
        let mut mid: Vec<char> = Vec::new();
        mid.push(low[1]);
        let s = chars_to_string(&mid);
        proof {
            assert(s@ =~= seq![lower_seq(run@)[1]]);
        }
        Token::QUOTED(s)
    } else if low.len() == 1 && low[0] == '+' {
        Token::PLUS
    } else if low.len() == 1 {
        Token::CHAR(chars_to_string(&low))
    } else {
        Token::WORD(chars_to_string(&low))
    }
}

/// The token a pending run contributes when it is flushed: nothing when
/// the run is empty.
pub open spec fn flush_tok(cur: Seq<char>) -> Seq<TokenModel> {
    if cur.len() == 0 {
        seq![]
    } else {
        seq![classify_spec(cur)]
    }
}

/// Whether a quoted plus, `'+'`, starts at position `i`.
pub open spec fn quoted_plus_at(text: Seq<char>, i: int) -> bool {
    0 <= i && i + 3 <= text.len() && text[i] == '\'' && text[i + 1] == '+' && text[i + 2] == '\''
}

/// The tokens of `text` from position `i` on, with `cur` the pending
/// run: space flushes the run, `+` is a separator unless written `'+'`,
/// every other character extends the run.
pub open spec fn scan_rec(text: Seq<char>, i: int, cur: Seq<char>) -> Seq<TokenModel>
    decreases text.len() - i,
{
    if i < 0 || i >= text.len() {
        flush_tok(cur)
    } else {
        let c = text[i];
        if c == ' ' {
            flush_tok(cur) + scan_rec(text, i + 1, seq![])
        } else if quoted_plus_at(text, i) {
            scan_rec(text, i + 3, cur + seq!['\'', '+', '\''])
        } else if c == '+' {
            flush_tok(cur) + seq![TokenModel::Plus] + scan_rec(text, i + 1, seq![])
        } else {
            scan_rec(text, i + 1, cur.push(c))
        }
    }
}

/// The tokens of a shortcut string.
pub open spec fn scan_spec(text: Seq<char>) -> Seq<TokenModel> {
    scan_rec(text, 0, seq![])
}

/// Tokenizes a shortcut string.
pub fn scan(text: &str) -> (r: Vec<Token>)
    ensures
        r@.map_values(|t: Token| t@) == scan_spec(text@),
{
    let cs = to_chars(text);
    let ghost full = cs@;
    let n = cs.len();
    let mut out: Vec<Token> = Vec::new();
    let mut cur: Vec<char> = Vec::new();
    let mut i: usize = 0;
    proof {
        assert(out@.map_values(|t: Token| t@) =~= Seq::<TokenModel>::empty());
        assert(Seq::<TokenModel>::empty() + scan_rec(full, 0, cur@) =~= scan_rec(full, 0, cur@));
    }
    while i < n
        invariant
            n == full.len(),
            cs@ == full,
            i <= n,
            scan_spec(full) == out@.map_values(|t: Token| t@) + scan_rec(full, i as int, cur@),
        decreases n - i,
    {
        let ghost out_m = out@.map_values(|t: Token| t@);
        let ghost cv = cur@;
        let c = cs[i];
        if c == ' ' {
            let ghost rest = scan_rec(full, i + 1, Seq::<char>::empty());
            proof {
                assert(scan_rec(full, i as int, cv) == flush_tok(cv) + rest);
            }
            if cur.len() > 0 {
                let tok = classify(&cur);
                let ghost tv = tok@;
                out.push(tok);
                cur = Vec::new();
                proof {
                    assert(flush_tok(cv) =~= seq![tv]);
                    assert(out@.map_values(|t: Token| t@) =~= out_m.push(tv));
                    assert(out_m + (seq![tv] + rest) =~= out_m.push(tv) + rest);
                    assert(cur@ =~= Seq::<char>::empty());
                }
            } else {
                proof {
                    assert(cv =~= Seq::<char>::empty());
                    assert(flush_tok(cv) =~= Seq::<TokenModel>::empty());
                    assert(out_m + (Seq::<TokenModel>::empty() + rest) =~= out_m + rest);
                }
            }
            i += 1;
        } else if c == '\'' && n - i > 2 && cs[i + 1] == '+' && cs[i + 2] == '\'' {
            proof {
                assert(quoted_plus_at(full, i as int));
                assert(scan_rec(full, i as int, cv) == scan_rec(
                    full,
                    i + 3,
                    cv + seq!['\'', '+', '\''],
                ));
            }
            cur.push('\'');
            cur.push('+');
            cur.push('\'');
            proof {
                assert(cur@ =~= cv + seq!['\'', '+', '\'']);
            }
            i += 3;
        } else if c == '+' {
            let ghost rest = scan_rec(full, i + 1, Seq::<char>::empty());
            proof {
                assert(!quoted_plus_at(full, i as int));
                assert(scan_rec(full, i as int, cv) == flush_tok(cv) + seq![TokenModel::Plus]
                    + rest);
            }
            if cur.len() > 0 {
                let tok = classify(&cur);
                let ghost tv = tok@;
                out.push(tok);
                out.push(Token::PLUS);
                cur = Vec::new();
                proof {
                    assert(flush_tok(cv) =~= seq![tv]);
                    assert(out@.map_values(|t: Token| t@) =~= out_m.push(tv).push(
                        TokenModel::Plus,
                    ));
                    assert(out_m + (seq![tv] + seq![TokenModel::Plus] + rest) =~= out_m.push(
                        tv,
                    ).push(TokenModel::Plus) + rest);
                    assert(cur@ =~= Seq::<char>::empty());
                }
            } else {
                out.push(Token::PLUS);
                cur = Vec::new();
                proof {
                    assert(cv =~= Seq::<char>::empty());
                    assert(flush_tok(cv) =~= Seq::<TokenModel>::empty());
                    assert(out@.map_values(|t: Token| t@) =~= out_m.push(TokenModel::Plus));
                    assert(out_m + (Seq::<TokenModel>::empty() + seq![TokenModel::Plus] + rest)
                        =~= out_m.push(TokenModel::Plus) + rest);
                    assert(cur@ =~= Seq::<char>::empty());
                }
            }
            i += 1;
        } else {
            proof {
                assert(scan_rec(full, i as int, cv) == scan_rec(full, i + 1, cv.push(c)));
            }
            cur.push(c);
            proof {
                assert(cur@ =~= cv.push(c));
            }
            i += 1;
        }
    }
    if cur.len() > 0 {
        let ghost out_m = out@.map_values(|t: Token| t@);
        let tok = classify(&cur);
        let ghost tv = tok@;
        out.push(tok);
        proof {
            assert(out@.map_values(|t: Token| t@) =~= out_m.push(tv));
            assert(out_m + seq![tv] =~= out_m.push(tv));
        }
    } else {
        proof {
            assert(flush_tok(cur@) =~= Seq::<TokenModel>::empty());
            assert(out@.map_values(|t: Token| t@) + Seq::<TokenModel>::empty() =~= out@.map_values(
                |t: Token| t@,
            ));
        }
    }
    out
}

/// A chord: keys pressed simultaneously before any is released.
#[derive(Debug)]
pub struct KeyCombination {
    pub keys: Vec<VirtualKey>,
}

impl View for KeyCombination {
    type V = Seq<VirtualKeyModel>;

    open spec fn view(&self) -> Seq<VirtualKeyModel> {
        self.keys@.map_values(|k: VirtualKey| k@)
    }
}

/// The payload of a token; the separator has none.
pub open spec fn tok_text(t: TokenModel) -> Seq<char> {
    match t {
        TokenModel::Plus => seq![],
        TokenModel::Char(s) => s,
        TokenModel::Quoted(s) => s,
        TokenModel::Word(s) => s,
    }
}

/// How one token extends the chord list: a separator starts a new
/// chord; any other token names a key, which joins the current (last)
/// chord if the key table resolves it and is dropped otherwise.
pub open spec fn parse_step(acc: Seq<Seq<VirtualKeyModel>>, tok: TokenModel) -> Seq<
    Seq<VirtualKeyModel>,
> {
    if tok is Plus {
        acc.push(seq![])
    } else {
        let acc1 = if acc.len() == 0 {
            seq![Seq::<VirtualKeyModel>::empty()]
        } else {
            acc
        };
        match find_vkey_spec(tok_text(tok)) {
            Some(k) => acc1.update(acc1.len() - 1, acc1.last().push(k)),
            None => acc1,
        }
    }
}

/// The chords a token sequence parses to.
pub open spec fn parse_tokens_spec(tokens: Seq<TokenModel>) -> Seq<Seq<VirtualKeyModel>>
    decreases tokens.len(),
{
    if tokens.len() == 0 {
        seq![]
    } else {
        parse_step(parse_tokens_spec(tokens.drop_last()), tokens.last())
    }
}

/// The chords a shortcut string parses to.
pub open spec fn parse_spec(text: Seq<char>) -> Seq<Seq<VirtualKeyModel>> {
    parse_tokens_spec(scan_spec(text))
}

/// The chord-list model of the parser state: finished chords plus the
/// chord being filled, if one was started.
spec fn parse_acc(
    done: Seq<Seq<VirtualKeyModel>>,
    started: bool,
    cur: Seq<VirtualKeyModel>,
) -> Seq<Seq<VirtualKeyModel>> {
    if started {
        done.push(cur)
    } else {
        done
    }
}

/// Parses a shortcut string into chords.
pub fn parse(text: &str) -> (r: Vec<KeyCombination>)
    ensures
        r@.map_values(|c: KeyCombination| c@) == parse_spec(text@),
{
    let tokens = scan(text);
    let ghost toks = tokens@.map_values(|t: Token| t@);
    let n = tokens.len();
    let mut done: Vec<KeyCombination> = Vec::new();
    let mut cur: Vec<VirtualKey> = Vec::new();
    let mut started = false;
    let mut i: usize = 0;
    proof {
        assert(toks.take(0) =~= Seq::<TokenModel>::empty());
        assert(done@.map_values(|c: KeyCombination| c@) =~= parse_tokens_spec(toks.take(0)));
    }
    while i < n
        invariant
            n == tokens@.len(),
            toks == tokens@.map_values(|t: Token| t@),
            i <= n,
            !started ==> done@.len() == 0 && cur@.len() == 0,
            parse_acc(
                done@.map_values(|c: KeyCombination| c@),
                started,
                cur@.map_values(|k: VirtualKey| k@),
            ) == parse_tokens_spec(toks.take(i as int)),
        decreases n - i,
    {
        let ghost done_m = done@.map_values(|c: KeyCombination| c@);
        let ghost cur_m = cur@.map_values(|k: VirtualKey| k@);
        let ghost acc = parse_acc(done_m, started, cur_m);
        proof {
            assert(toks.take(i + 1).drop_last() =~= toks.take(i as int));
            assert(toks.take(i + 1).last() == toks[i as int]);
            assert(parse_tokens_spec(toks.take(i + 1)) == parse_step(acc, toks[i as int]));
        }
        let is_plus = matches!(&tokens[i], Token::PLUS);
        if is_plus {
            if started {
                done.push(KeyCombination { keys: cur });
                cur = Vec::new();
            } else {
                started = true;
            }
            proof {
                assert(cur@.map_values(|k: VirtualKey| k@) =~= Seq::<VirtualKeyModel>::empty());
                assert(done@.map_values(|c: KeyCombination| c@) =~= if acc.len() == 0 {
                    done_m
                } else {
                    acc
                });
                assert(parse_acc(
                    done@.map_values(|c: KeyCombination| c@),
                    true,
                    cur@.map_values(|k: VirtualKey| k@),
                ) =~= acc.push(seq![]));
            }
        } else {
            if !started {
                started = true;
            }
            let ghost acc1 = if acc.len() == 0 {
                seq![Seq::<VirtualKeyModel>::empty()]
            } else {
                acc
            };
            proof {
                if acc.len() == 0 {
                    assert(cur_m =~= Seq::<VirtualKeyModel>::empty());
                    assert(done_m =~= Seq::<Seq<VirtualKeyModel>>::empty());
                }
                assert(parse_acc(done_m, true, cur_m) =~= acc1);
            }
            let name = match &tokens[i] {
                Token::PLUS => "",
                Token::CHAR(s) => s.as_str(),
                Token::QUOTED(s) => s.as_str(),
                Token::WORD(s) => s.as_str(),
            };
            proof {
                assert(name@ == tok_text(toks[i as int]));
            }
            match find_vkey(name) {
                Ok(key) => {
                    let ghost kv = key@;
                    cur.push(key);
                    proof {
                        assert(cur@.map_values(|k: VirtualKey| k@) =~= cur_m.push(kv));
                        assert(acc1.update(acc1.len() - 1, acc1.last().push(kv)) =~= parse_acc(
                            done_m,
                            true,
                            cur_m.push(kv),
                        ));
                    }
                },
                Err(_) => {
                    proof {
                        assert(parse_step(acc, toks[i as int]) == acc1);
                    }
                },
            }
        }
        i += 1;
    }
    if started {
        done.push(KeyCombination { keys: cur });
    }
    proof {
        assert(toks.take(n as int) =~= toks);
    }
    done
}

/// A compiled sequence of input steps.
#[derive(Debug)]
pub struct InputScript {
    pub steps: Vec<InputStep>,
}

/// A single key transition step.
pub open spec fn key_step(vk_code: u16, key_down: bool) -> StepModel {
    StepModel::Single(KeyInput { vk_code, key_down })
}

/// The press steps of a chord, in declaration order.
pub open spec fn downs_of(keys: Seq<VirtualKeyModel>) -> Seq<StepModel> {
    Seq::new(keys.len(), |i: int| key_step(keys[i].vkey, true))
}

/// The release steps of a chord, in reverse declaration order.
pub open spec fn ups_of(keys: Seq<VirtualKeyModel>) -> Seq<StepModel> {
    Seq::new(keys.len(), |i: int| key_step(keys[keys.len() - 1 - i].vkey, false))
}

/// The steps of one chord: every key down in order, then every key up
/// in reverse order.
pub open spec fn chord_steps_spec(keys: Seq<VirtualKeyModel>) -> Seq<StepModel> {
    downs_of(keys) + ups_of(keys)
}

/// The steps of a chord list, in chord order.
pub open spec fn chords_steps_spec(chords: Seq<Seq<VirtualKeyModel>>) -> Seq<StepModel>
    decreases chords.len(),
{
    if chords.len() == 0 {
        seq![]
    } else {
        chords_steps_spec(chords.drop_last()) + chord_steps_spec(chords.last())
    }
}

/// The steps a shortcut string compiles to.
pub open spec fn shortcut_steps_spec(text: Seq<char>) -> Seq<StepModel> {
    chords_steps_spec(parse_spec(text))
}

fn map_virtual_key(vk_code: u16, key_down: bool) -> (r: InputStep)
    ensures
        r@ == key_step(vk_code, key_down),
{
    InputStep::Single(KeyInput { vk_code, key_down })
}

fn push_chord_steps(steps: &mut Vec<InputStep>, keys: &Vec<VirtualKey>)
    ensures
        final(steps)@.map_values(|s: InputStep| s@) == old(steps)@.map_values(|s: InputStep| s@)
            + chord_steps_spec(keys@.map_values(|k: VirtualKey| k@)),
{
    let ghost steps_m = steps@.map_values(|s: InputStep| s@);
    let ghost keys_m = keys@.map_values(|k: VirtualKey| k@);
    let kn = keys.len();
    // press every key of the chord in order
    let mut j: usize = 0;
    proof {
        assert(downs_of(keys_m.take(0)) =~= Seq::<StepModel>::empty());
        assert(steps@.map_values(|s: InputStep| s@) =~= steps_m + downs_of(keys_m.take(0)));
    }
    while j < kn
        invariant
            kn == keys@.len(),
            keys_m == keys@.map_values(|k: VirtualKey| k@),
            j <= kn,
            steps@.map_values(|s: InputStep| s@) == steps_m + downs_of(keys_m.take(j as int)),
        decreases kn - j,
    {
        let step = map_virtual_key(keys[j].vkey, true);
        let ghost sv = step@;
        let ghost pre_m = steps@.map_values(|s: InputStep| s@);
        steps.push(step);
        j += 1;
        proof {
            assert(steps@.map_values(|s: InputStep| s@) =~= pre_m.push(sv));
            assert(pre_m.push(sv) =~= steps_m + downs_of(keys_m.take(j as int)));
        }
    }
    proof {
        assert(keys_m.take(kn as int) =~= keys_m);
        assert(ups_of(keys_m).take(0) =~= Seq::<StepModel>::empty());
        assert(steps@.map_values(|s: InputStep| s@) =~= steps_m + downs_of(keys_m) + ups_of(
            keys_m,
        ).take(0));
    }
    // release every key of the chord in reverse order
    let mut j: usize = 0;
    while j < kn
        invariant
            kn == keys@.len(),
            keys_m == keys@.map_values(|k: VirtualKey| k@),
            j <= kn,
            steps@.map_values(|s: InputStep| s@) == steps_m + downs_of(keys_m) + ups_of(
                keys_m,
            ).take(j as int),
        decreases kn - j,
    {
        let step = map_virtual_key(keys[kn - 1 - j].vkey, false);
        let ghost sv = step@;
        let ghost pre_m = steps@.map_values(|s: InputStep| s@);
        steps.push(step);
        j += 1;
        proof {
            assert(steps@.map_values(|s: InputStep| s@) =~= pre_m.push(sv));
            assert(pre_m.push(sv) =~= steps_m + downs_of(keys_m) + ups_of(keys_m).take(j as int));
        }
    }
    proof {
        assert(ups_of(keys_m).take(kn as int) =~= ups_of(keys_m));
        assert(steps_m + downs_of(keys_m) + ups_of(keys_m) =~= steps_m + chord_steps_spec(keys_m));
    }
}

/// Compiles a shortcut string: each chord presses its keys in order and
/// releases them in reverse order; chords follow one another.
pub fn for_shortcut(text: String) -> (r: InputScript)
    ensures
        r.steps@.map_values(|s: InputStep| s@) == shortcut_steps_spec(text@),
{
    let chords = parse(text.as_str());
    let ghost chords_m = chords@.map_values(|c: KeyCombination| c@);
    let mut steps: Vec<InputStep> = Vec::new();
    let n = chords.len();
    let mut ci: usize = 0;
    proof {
        assert(chords_m.take(0) =~= Seq::<Seq<VirtualKeyModel>>::empty());
        assert(steps@.map_values(|s: InputStep| s@) =~= chords_steps_spec(chords_m.take(0)));
    }
    while ci < n
        invariant
            n == chords@.len(),
            chords_m == chords@.map_values(|c: KeyCombination| c@),
            ci <= n,
            steps@.map_values(|s: InputStep| s@) == chords_steps_spec(chords_m.take(ci as int)),
        decreases n - ci,
    {
        let ghost steps_m = steps@.map_values(|s: InputStep| s@);
        let ghost keys_m = chords_m[ci as int];
        proof {
            assert(chords[ci as int]@ == keys_m);
        }
        push_chord_steps(&mut steps, &chords[ci].keys);
        ci += 1;
        proof {
            assert(chords_m.take(ci as int).drop_last() =~= chords_m.take(ci - 1));
            assert(chords_m.take(ci as int).last() == keys_m);
            assert(chords_steps_spec(chords_m.take(ci as int)) == chords_steps_spec(
                chords_m.take(ci - 1),
            ) + chord_steps_spec(keys_m));
        }
    }
    proof {
        assert(chords_m.take(n as int) =~= chords_m);
    }
    InputScript { steps }
}

/// Compiles a pause: exactly one wait step carrying the duration.
pub fn for_pause(pause: u16) -> (r: InputScript)
    ensures
        r.steps@.map_values(|s: InputStep| s@) == seq![StepModel::Wait(pause)],
{
    let mut steps: Vec<InputStep> = Vec::new();
    steps.push(InputStep::Wait(NoInput { pause }));
    proof {
        assert(steps@.map_values(|s: InputStep| s@) =~= seq![StepModel::Wait(pause)]);
    }
    InputScript { steps }
}

/// The key transitions that type one resolved character: with shift,
/// exactly shift-down, key-down, key-up, shift-up; without, exactly
/// key-down, key-up.
pub open spec fn char_steps_spec(ck: CharacterKeyModel) -> Seq<KeyInput> {
    if ck.shift {
        seq![
            KeyInput { vk_code: VK_SHIFT_CODE, key_down: true },
            KeyInput { vk_code: ck.vkey.vkey, key_down: true },
            KeyInput { vk_code: ck.vkey.vkey, key_down: false },
            KeyInput { vk_code: VK_SHIFT_CODE, key_down: false },
        ]
    } else {
        seq![
            KeyInput { vk_code: ck.vkey.vkey, key_down: true },
            KeyInput { vk_code: ck.vkey.vkey, key_down: false },
        ]
    }
}

/// Maps a character key to its key transitions (shift handling).
pub fn map_character_key(ck: CharacterKey) -> (r: Vec<KeyInput>)
    ensures
        r@ == char_steps_spec(ck@),
{
    let mut r: Vec<KeyInput> = Vec::new();
    if ck.shift {
        r.push(KeyInput { vk_code: VK_SHIFT_CODE, key_down: true });
    }
    r.push(KeyInput { vk_code: ck.vkey.vkey, key_down: true });
    r.push(KeyInput { vk_code: ck.vkey.vkey, key_down: false });
    if ck.shift {
        r.push(KeyInput { vk_code: VK_SHIFT_CODE, key_down: false });
    }
    proof {
        assert(r@ =~= char_steps_spec(ck@));
    }
    r
}

/// The key transitions of the synthetic enter appended to a line.
pub open spec fn enter_inputs() -> Seq<KeyInput> {
    seq![
        KeyInput { vk_code: VK_ENTER_CODE, key_down: true },
        KeyInput { vk_code: VK_ENTER_CODE, key_down: false },
    ]
}

/// The key transitions that type `text` under a layout mapping, in
/// order; characters that resolve to nothing contribute none.
pub open spec fn text_inputs_spec(text: Seq<char>, mapping: Seq<(char, char)>) -> Seq<KeyInput>
    decreases text.len(),
{
    if text.len() == 0 {
        seq![]
    } else {
        text_inputs_spec(text.drop_last(), mapping) + match resolve_spec(mapping, text.last()) {
            Some(ck) => char_steps_spec(ck),
            None => seq![],
        }
    }
}

/// The single batched step a text or line compiles to.
pub open spec fn text_script_spec(
    text: Seq<char>,
    mapping: Seq<(char, char)>,
    new_line: bool,
) -> Seq<StepModel> {
    seq![
        StepModel::Batch(
            text_inputs_spec(text, mapping) + if new_line {
                enter_inputs()
            } else {
                seq![]
            },
        ),
    ]
}

/// Compiles text or a line into one batched step.
pub fn for_text_or_line(text: String, new_line: bool, mapping: Vec<(char, char)>) -> (r:
    InputScript)
    ensures
        r.steps@.map_values(|s: InputStep| s@) == text_script_spec(text@, mapping@, new_line),
{
    let cs = to_chars(text.as_str());
    let n = cs.len();
    let mut inputs: Vec<KeyInput> = Vec::new();
    let mut i: usize = 0;
    proof {
        assert(cs@.take(0) =~= Seq::<char>::empty());
        assert(inputs@ =~= text_inputs_spec(cs@.take(0), mapping@));
    }
    while i < n
        invariant
            n == cs@.len(),
            cs@ == text@,
            i <= n,
            inputs@ == text_inputs_spec(cs@.take(i as int), mapping@),
        decreases n - i,
    {
        let ghost before = inputs@;
        proof {
            assert(cs@.take(i + 1).drop_last() =~= cs@.take(i as int));
            assert(cs@.take(i + 1).last() == cs@[i as int]);
        }
        if let Some(ck) = find_mapped_ckey(cs[i], &mapping) {
            let mut ks = map_character_key(ck);
            let ghost ks_m = ks@;
            inputs.append(&mut ks);
            proof {
                assert(inputs@ =~= before + ks_m);
            }
        } else {
            proof {
                assert(inputs@ =~= before + Seq::<KeyInput>::empty());
            }
        }
        i += 1;
    }
    proof {
        assert(cs@.take(n as int) =~= cs@);
    }
    if new_line {
        let ghost before = inputs@;
        inputs.push(KeyInput { vk_code: VK_ENTER_CODE, key_down: true });
        inputs.push(KeyInput { vk_code: VK_ENTER_CODE, key_down: false });
        proof {
            assert(inputs@ =~= before + enter_inputs());
        }
    } else {
        proof {
            assert(inputs@ + Seq::<KeyInput>::empty() =~= inputs@);
        }
    }
    let mut steps: Vec<InputStep> = Vec::new();
    let ghost inputs_m = inputs@;
    steps.push(InputStep::Batch(KeyInputs { inputs }));
    proof {
        assert(steps@.map_values(|s: InputStep| s@) =~= seq![StepModel::Batch(inputs_m)]);
    }
    InputScript { steps }
}

/// Compiles free text: one batched step typing each resolvable
/// character in order.
pub fn for_text(text: String, mapping: Vec<(char, char)>) -> (r: InputScript)
    ensures
        r.steps@.map_values(|s: InputStep| s@) == text_script_spec(text@, mapping@, false),
{
    for_text_or_line(text, false, mapping)
}

/// Compiles a line: as text, with a synthetic enter appended.
pub fn for_line(text: String, mapping: Vec<(char, char)>) -> (r: InputScript)
    ensures
        r.steps@.map_values(|s: InputStep| s@) == text_script_spec(text@, mapping@, true),
{
    for_text_or_line(text, true, mapping)
}

/// Law: a chord of `n` keys compiles to exactly `2n` steps — the `n`
/// presses in declaration order, then the `n` releases in exact reverse
/// order.
pub proof fn lemma_chord_step_layout(keys: Seq<VirtualKeyModel>)
    ensures
        chord_steps_spec(keys).len() == 2 * keys.len(),
        forall|i: int|
            0 <= i < keys.len() ==> #[trigger] chord_steps_spec(keys)[i] == key_step(
                keys[i].vkey,
                true,
            ),
        forall|i: int|
            0 <= i < keys.len() ==> #[trigger] chord_steps_spec(keys)[keys.len() + i] == key_step(
                keys[keys.len() - 1 - i].vkey,
                false,
            ),
{
}

/// Law: a token list with no separator and every name resolvable parses
/// to exactly one chord holding the named keys in token order.
pub proof fn lemma_single_chord(tokens: Seq<TokenModel>)
    requires
        tokens.len() > 0,
        forall|i: int| 0 <= i < tokens.len() ==> !((#[trigger] tokens[i]) is Plus),
        forall|i: int|
            0 <= i < tokens.len() ==> find_vkey_spec(tok_text(#[trigger] tokens[i])) is Some,
    ensures
        parse_tokens_spec(tokens).len() == 1,
        parse_tokens_spec(tokens)[0].len() == tokens.len(),
        forall|i: int|
            0 <= i < tokens.len() ==> parse_tokens_spec(tokens)[0][i] == find_vkey_spec(
                tok_text(#[trigger] tokens[i]),
            ).unwrap(),
    decreases tokens.len(),
{
    let pre = tokens.drop_last();
    let tok = tokens.last();
    let k = find_vkey_spec(tok_text(tok)).unwrap();
    if tokens.len() == 1 {
        let acc1 = seq![Seq::<VirtualKeyModel>::empty()];
        assert(parse_tokens_spec(tokens) == parse_step(parse_tokens_spec(pre), tok));
        assert(parse_tokens_spec(pre) == Seq::<Seq<VirtualKeyModel>>::empty());
        assert(parse_step(parse_tokens_spec(pre), tok) =~= acc1.update(0, acc1.last().push(k)));
        assert(parse_tokens_spec(tokens)[0] =~= seq![k]);
    } else {
        assert(forall|i: int| 0 <= i < pre.len() ==> pre[i] == tokens[i]);
        lemma_single_chord(pre);
        let acc = parse_tokens_spec(pre);
        assert(parse_tokens_spec(tokens) == parse_step(acc, tok));
        assert(parse_tokens_spec(tokens)[0] =~= acc[0].push(k));
    }
}

/// Law: compiling two chord lists one after the other yields the
/// concatenation of their step sequences, in chord order.
pub proof fn lemma_chords_steps_concat(c1: Seq<Seq<VirtualKeyModel>>, c2: Seq<Seq<VirtualKeyModel>>)
    ensures
        chords_steps_spec(c1 + c2) == chords_steps_spec(c1) + chords_steps_spec(c2),
    decreases c2.len(),
{
    if c2.len() == 0 {
        assert(c1 + c2 =~= c1);
        assert(chords_steps_spec(c2) =~= Seq::<StepModel>::empty());
        assert(chords_steps_spec(c1) + chords_steps_spec(c2) =~= chords_steps_spec(c1));
    } else {
        lemma_chords_steps_concat(c1, c2.drop_last());
        assert((c1 + c2).drop_last() =~= c1 + c2.drop_last());
        assert((c1 + c2).last() == c2.last());
        assert(chords_steps_spec(c1 + c2) == chords_steps_spec(c1) + chords_steps_spec(
            c2.drop_last(),
        ) + chord_steps_spec(c2.last()));
        assert(chords_steps_spec(c1) + chords_steps_spec(c2.drop_last()) + chord_steps_spec(
            c2.last(),
        ) =~= chords_steps_spec(c1) + (chords_steps_spec(c2.drop_last()) + chord_steps_spec(
            c2.last(),
        )));
    }
}

proof fn lemma_scan_suffix(pre: Seq<char>, t2: Seq<char>, j: int, cur: Seq<char>)
    requires
        0 <= j <= t2.len(),
    ensures
        scan_rec(pre + t2, pre.len() + j, cur) == scan_rec(t2, j, cur),
    decreases t2.len() - j,
{
    let text = pre + t2;
    let i = pre.len() + j;
    if j == t2.len() {
        assert(i >= text.len());
    } else {
        let c = t2[j];
        assert(text[i] == c);
        if j + 3 <= t2.len() {
            assert(text[i + 1] == t2[j + 1]);
            assert(text[i + 2] == t2[j + 2]);
            assert(quoted_plus_at(text, i) == quoted_plus_at(t2, j));
        } else {
            assert(i + 3 > text.len());
            assert(!quoted_plus_at(text, i) && !quoted_plus_at(t2, j));
        }
        if c == ' ' {
            lemma_scan_suffix(pre, t2, j + 1, seq![]);
        } else if quoted_plus_at(t2, j) {
            lemma_scan_suffix(pre, t2, j + 3, cur + seq!['\'', '+', '\'']);
        } else if c == '+' {
            lemma_scan_suffix(pre, t2, j + 1, seq![]);
        } else {
            lemma_scan_suffix(pre, t2, j + 1, cur.push(c));
        }
    }
}

proof fn lemma_scan_prefix(t1: Seq<char>, t2: Seq<char>, i: int, cur: Seq<char>)
    requires
        0 <= i <= t1.len(),
        !(t1.len() > 0 && t1.last() == '\'' && t2.len() > 0 && t2.first() == '\''),
    ensures
        scan_rec(t1 + seq!['+'] + t2, i, cur) == scan_rec(t1, i, cur) + seq![TokenModel::Plus]
            + scan_rec(t1 + seq!['+'] + t2, t1.len() as int + 1, seq![]),
    decreases t1.len() - i,
{
    let text = t1 + seq!['+'] + t2;
    let rest = scan_rec(text, t1.len() as int + 1, seq![]);
    assert(text.len() == t1.len() + 1 + t2.len());
    if i == t1.len() {
        // the separator itself: it flushes the run and emits the token
        assert(text[i] == '+');
        assert(!quoted_plus_at(text, i));
        assert(scan_rec(text, i, cur) == flush_tok(cur) + seq![TokenModel::Plus] + rest);
        assert(scan_rec(t1, i, cur) == flush_tok(cur));
    } else {
        let c = t1[i];
        assert(text[i] == c);
        // the quoted-plus test answers alike on both texts
        assert(quoted_plus_at(text, i) == quoted_plus_at(t1, i)) by {
            if i + 3 <= t1.len() {
                assert(text[i + 1] == t1[i + 1]);
                assert(text[i + 2] == t1[i + 2]);
            } else if i + 2 == t1.len() {
                // the third character would be the separator itself
                assert(text[i + 2] == '+');
                assert(!quoted_plus_at(text, i));
            } else {
                // i + 1 == t1.len(): a quoted plus here would be the
                // excluded quoted boundary
                assert(text[i + 1] == '+');
                if quoted_plus_at(text, i) {
                    assert(t1[i] == '\'' && i == t1.len() - 1);
                    assert(i + 3 <= text.len());
                    assert(t2.len() > 0);
                    assert(text[i + 2] == t2[0]);
                    assert(false);
                }
            }
        }
        if c == ' ' {
            lemma_scan_prefix(t1, t2, i + 1, seq![]);
            assert(scan_rec(text, i, cur) == flush_tok(cur) + (scan_rec(t1, i + 1, seq![])
                + seq![TokenModel::Plus] + rest));
            assert(flush_tok(cur) + (scan_rec(t1, i + 1, seq![]) + seq![TokenModel::Plus] + rest)
                =~= flush_tok(cur) + scan_rec(t1, i + 1, seq![]) + seq![TokenModel::Plus] + rest);
        } else if quoted_plus_at(t1, i) {
            lemma_scan_prefix(t1, t2, i + 3, cur + seq!['\'', '+', '\'']);
        } else if c == '+' {
            lemma_scan_prefix(t1, t2, i + 1, seq![]);
            assert(scan_rec(text, i, cur) == flush_tok(cur) + seq![TokenModel::Plus] + (scan_rec(
                t1,
                i + 1,
                seq![],
            ) + seq![TokenModel::Plus] + rest));
            assert(flush_tok(cur) + seq![TokenModel::Plus] + (scan_rec(t1, i + 1, seq![])
                + seq![TokenModel::Plus] + rest) =~= flush_tok(cur) + seq![TokenModel::Plus]
                + scan_rec(t1, i + 1, seq![]) + seq![TokenModel::Plus] + rest);
        } else {
            lemma_scan_prefix(t1, t2, i + 1, cur.push(c));
        }
    }
}

/// Law: an unquoted `+` splits the scan — the tokens of `t1`, the
/// separator, then the tokens of `t2`.
pub proof fn lemma_scan_plus_separates(t1: Seq<char>, t2: Seq<char>)
    requires
        !(t1.len() > 0 && t1.last() == '\'' && t2.len() > 0 && t2.first() == '\''),
    ensures
        scan_spec(t1 + seq!['+'] + t2) == scan_spec(t1) + seq![TokenModel::Plus] + scan_spec(t2),
{
    lemma_scan_prefix(t1, t2, 0, seq![]);
    lemma_scan_suffix(t1 + seq!['+'], t2, 0, seq![]);
    assert((t1 + seq!['+']) + t2 =~= t1 + seq!['+'] + t2);
    assert((t1 + seq!['+']).len() + 0 == t1.len() + 1);
}

/// The chords after folding `tokens` into an existing chord list.
pub open spec fn parse_from(
    acc: Seq<Seq<VirtualKeyModel>>,
    tokens: Seq<TokenModel>,
) -> Seq<Seq<VirtualKeyModel>>
    decreases tokens.len(),
{
    if tokens.len() == 0 {
        acc
    } else {
        parse_step(parse_from(acc, tokens.drop_last()), tokens.last())
    }
}

proof fn lemma_parse_from_concat(p: Seq<TokenModel>, t: Seq<TokenModel>)
    ensures
        parse_tokens_spec(p + t) == parse_from(parse_tokens_spec(p), t),
    decreases t.len(),
{
    if t.len() == 0 {
        assert(p + t =~= p);
    } else {
        lemma_parse_from_concat(p, t.drop_last());
        assert((p + t).drop_last() =~= p + t.drop_last());
        assert((p + t).last() == t.last());
    }
}

proof fn lemma_parse_step_keeps_len(acc: Seq<Seq<VirtualKeyModel>>, t: TokenModel)
    ensures
        parse_step(acc, t).len() >= acc.len(),
{
}

proof fn lemma_parse_from_keeps_len(acc: Seq<Seq<VirtualKeyModel>>, tokens: Seq<TokenModel>)
    ensures
        parse_from(acc, tokens).len() >= acc.len(),
    decreases tokens.len(),
{
    if tokens.len() > 0 {
        lemma_parse_from_keeps_len(acc, tokens.drop_last());
        lemma_parse_step_keeps_len(parse_from(acc, tokens.drop_last()), tokens.last());
    }
}

proof fn lemma_parse_step_dist(
    a: Seq<Seq<VirtualKeyModel>>,
    b: Seq<Seq<VirtualKeyModel>>,
    t: TokenModel,
)
    requires
        b.len() > 0,
    ensures
        parse_step(a + b, t) == a + parse_step(b, t),
{
    if t is Plus {
        assert((a + b).push(seq![]) =~= a + b.push(seq![]));
    } else {
        assert((a + b).last() == b.last());
        match find_vkey_spec(tok_text(t)) {
            Some(k) => {
                assert((a + b).update(a.len() + b.len() - 1, (a + b).last().push(k)) =~= a
                    + b.update(b.len() - 1, b.last().push(k)));
            },
            None => {},
        }
    }
}

proof fn lemma_parse_from_dist(
    a: Seq<Seq<VirtualKeyModel>>,
    b: Seq<Seq<VirtualKeyModel>>,
    tokens: Seq<TokenModel>,
)
    requires
        b.len() > 0,
    ensures
        parse_from(a + b, tokens) == a + parse_from(b, tokens),
    decreases tokens.len(),
{
    if tokens.len() > 0 {
        lemma_parse_from_dist(a, b, tokens.drop_last());
        lemma_parse_from_keeps_len(b, tokens.drop_last());
        lemma_parse_step_dist(a, parse_from(b, tokens.drop_last()), tokens.last());
    }
}

proof fn lemma_parse_seeded(tokens: Seq<TokenModel>)
    ensures
        parse_from(seq![Seq::<VirtualKeyModel>::empty()], tokens) == parse_tokens_spec(tokens)
            || parse_from(seq![Seq::<VirtualKeyModel>::empty()], tokens) == seq![
            Seq::<VirtualKeyModel>::empty(),
        ] + parse_tokens_spec(tokens),
    decreases tokens.len(),
{
    let e = seq![Seq::<VirtualKeyModel>::empty()];
    if tokens.len() == 0 {
        assert(parse_from(e, tokens) =~= e + parse_tokens_spec(tokens));
    } else {
        let pre = tokens.drop_last();
        let t = tokens.last();
        lemma_parse_seeded(pre);
        if parse_from(e, pre) == parse_tokens_spec(pre) {
        } else if parse_tokens_spec(pre).len() > 0 {
            lemma_parse_step_dist(e, parse_tokens_spec(pre), t);
        } else {
            // only an empty token list parses to no chords: the seeded
            // fold still holds the one empty chord
            assert(parse_from(e, pre) =~= e);
            assert(parse_tokens_spec(pre) =~= Seq::<Seq<VirtualKeyModel>>::empty());
            if t is Plus {
                assert(parse_step(e, t) =~= e + parse_step(parse_tokens_spec(pre), t));
            } else {
                let acc1 = seq![Seq::<VirtualKeyModel>::empty()];
                assert(e =~= acc1);
                match find_vkey_spec(tok_text(t)) {
                    Some(k) => {
                        assert(parse_step(e, t) =~= parse_step(parse_tokens_spec(pre), t));
                    },
                    None => {
                        assert(parse_step(e, t) =~= parse_step(parse_tokens_spec(pre), t));
                    },
                }
            }
        }
    }
}

/// Law: an unquoted `+` separates independent compilations — a shortcut
/// of two segments joined by a separator plus compiles to the first
/// segment's steps followed by the second segment's steps, in segment
/// order. A plus written in single quotes is the literal plus key, not
/// a separator, which the premise leaves out.
pub proof fn lemma_shortcut_plus_separates(t1: Seq<char>, t2: Seq<char>)
    requires
        !(t1.len() > 0 && t1.last() == '\'' && t2.len() > 0 && t2.first() == '\''),
    ensures
        shortcut_steps_spec(t1 + seq!['+'] + t2) == shortcut_steps_spec(t1)
            + shortcut_steps_spec(t2),
{
    let e = seq![Seq::<VirtualKeyModel>::empty()];
    let k1 = scan_spec(t1);
    let k2 = scan_spec(t2);
    lemma_scan_plus_separates(t1, t2);
    // the separator closes the first segment's chords and opens a fresh
    // chord, which the second segment's tokens then fill
    assert(parse_tokens_spec(k1 + seq![TokenModel::Plus]) == parse_tokens_spec(k1).push(seq![]))
        by {
        assert((k1 + seq![TokenModel::Plus]).drop_last() =~= k1);
        assert((k1 + seq![TokenModel::Plus]).last() == TokenModel::Plus);
    }
    lemma_parse_from_concat(k1 + seq![TokenModel::Plus], k2);
    assert(k1 + seq![TokenModel::Plus] + k2 =~= (k1 + seq![TokenModel::Plus]) + k2);
    assert(parse_tokens_spec(k1).push(seq![]) =~= parse_tokens_spec(k1) + e);
    lemma_parse_from_dist(parse_tokens_spec(k1), e, k2);
    assert(parse_spec(t1 + seq!['+'] + t2) == parse_tokens_spec(k1) + parse_from(e, k2));
    // an empty chord contributes no steps
    lemma_chords_steps_concat(parse_tokens_spec(k1), parse_from(e, k2));
    lemma_parse_seeded(k2);
    assert(chords_steps_spec(e) =~= Seq::<StepModel>::empty()) by {
        assert(e.drop_last() =~= Seq::<Seq<VirtualKeyModel>>::empty());
        assert(chords_steps_spec(e.drop_last()) =~= Seq::<StepModel>::empty());
        assert(chord_steps_spec(e.last()) =~= Seq::<StepModel>::empty());
        assert(chords_steps_spec(e) == chords_steps_spec(e.drop_last()) + chord_steps_spec(
            e.last(),
        ));
    }
    if parse_from(e, k2) == e + parse_tokens_spec(k2) {
        lemma_chords_steps_concat(e, parse_tokens_spec(k2));
        assert(Seq::<StepModel>::empty() + chords_steps_spec(parse_tokens_spec(k2))
            =~= chords_steps_spec(parse_tokens_spec(k2)));
    }
}

/// Law: a character that resolves to nothing contributes nothing — the
/// text compiles exactly as if the character were not there.
pub proof fn lemma_unmapped_char_dropped(text: Seq<char>, mapping: Seq<(char, char)>, i: int)
    requires
        0 <= i < text.len(),
        resolve_spec(mapping, text[i]) is None,
    ensures
        text_inputs_spec(text, mapping) == text_inputs_spec(text.remove(i), mapping),
    decreases text.len(),
{
    if i == text.len() - 1 {
        assert(text.remove(i) =~= text.drop_last());
        assert(text_inputs_spec(text, mapping) =~= text_inputs_spec(text.drop_last(), mapping));
    } else {
        let pre = text.drop_last();
        assert(pre[i] == text[i]);
        lemma_unmapped_char_dropped(pre, mapping, i);
        assert(text.remove(i).drop_last() =~= pre.remove(i));
        assert(text.remove(i).last() == text.last());
        assert(text_inputs_spec(text.remove(i), mapping) == text_inputs_spec(pre.remove(i), mapping)
            + match resolve_spec(mapping, text.last()) {
            Some(ck) => char_steps_spec(ck),
            None => seq![],
        });
    }
}

} // verus!
