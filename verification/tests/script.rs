use hotkeys::ckey::CharacterKey;
use hotkeys::script::{
    for_line, for_pause, for_shortcut, for_text, map_character_key, parse, scan, InputScript,
    Token,
};
use hotkeys::steps::{InputStep, KeyInput};
use hotkeys::vkey::{key_table, VirtualKey};

fn single_code(step: &InputStep) -> u16 {
    match step {
        InputStep::Single(k) => k.vk_code,
        _ => panic!("expected a single key step"),
    }
}

#[test]
fn test_shortcut_behavior() {
    let script = for_shortcut("Ctrl A".to_string());

    // Press + release for each key
    assert_eq!(script.steps.len(), 4); // Ctrl down, A down, A up, Ctrl up

    assert!(script.steps.len() > 0);
}

#[test]
fn test_text_behavior() {
    let script = for_text("ab".to_string(), Vec::new());

    // One batched step with all the transitions
    assert_eq!(script.steps.len(), 1);

    let key_inputs = match &script.steps[0] {
        InputStep::Batch(b) => b,
        _ => panic!("expected a batched step"),
    };

    // a_down, a_up, b_down, b_up
    assert_eq!(key_inputs.inputs.len(), 4);
}

#[test]
fn test_pause_behavior() {
    let script = for_pause(100);

    assert_eq!(script.steps.len(), 1);

    let no_input = match &script.steps[0] {
        InputStep::Wait(w) => w,
        _ => panic!("expected a wait step"),
    };
    assert_eq!(no_input.pause, 100);
}

#[test]
fn test_scan_basic_tokens() {
    let tokens = scan("ctrl a");
    assert_eq!(tokens.len(), 2);

    match &tokens[0] {
        Token::WORD(w) => assert_eq!(w, "ctrl"),
        _ => panic!("Expected WORD token"),
    }

    match &tokens[1] {
        Token::CHAR(c) => assert_eq!(c, "a"),
        _ => panic!("Expected CHAR token"),
    }
}

#[test]
fn test_scan_plus_token() {
    let tokens = scan("ctrl + shift");
    assert_eq!(tokens.len(), 3);

    match &tokens[0] {
        Token::WORD(w) => assert_eq!(w, "ctrl"),
        _ => panic!("Expected WORD token"),
    }

    match &tokens[1] {
        Token::PLUS => {},
        _ => panic!("Expected PLUS token"),
    }

    match &tokens[2] {
        Token::WORD(w) => assert_eq!(w, "shift"),
        _ => panic!("Expected WORD token"),
    }
}

#[test]
fn test_scan_quoted_plus() {
    let tokens = scan("'+'");
    assert_eq!(tokens.len(), 1);

    match &tokens[0] {
        Token::QUOTED(q) => assert_eq!(q, "+"),
        _ => panic!("Expected QUOTED token"),
    }
}

#[test]
fn test_scan_plus_without_spaces() {
    // `+` separates even without surrounding spaces
    let tokens = scan("a+b");
    assert_eq!(tokens.len(), 3);
    assert!(matches!(&tokens[0], Token::CHAR(c) if c == "a"));
    assert!(matches!(&tokens[1], Token::PLUS));
    assert!(matches!(&tokens[2], Token::CHAR(c) if c == "b"));
}

#[test]
fn test_scan_lowercases_tokens() {
    let tokens = scan("CTRL A");
    assert!(matches!(&tokens[0], Token::WORD(w) if w == "ctrl"));
    assert!(matches!(&tokens[1], Token::CHAR(c) if c == "a"));
}

#[test]
fn test_parse_single_combination() {
    let combinations = parse("ctrl a");
    assert_eq!(combinations.len(), 1);
    assert_eq!(combinations[0].keys.len(), 2);
    assert_eq!(combinations[0].keys[0].title, "ctrl");
    assert_eq!(combinations[0].keys[1].title, "a");
}

#[test]
fn test_parse_chord_combination() {
    let combinations = parse("ctrl k + ctrl b");
    assert_eq!(combinations.len(), 2);

    // First combination: Ctrl+K
    assert_eq!(combinations[0].keys.len(), 2);
    assert_eq!(combinations[0].keys[0].title, "ctrl");
    assert_eq!(combinations[0].keys[1].title, "k");

    // Second combination: Ctrl+B
    assert_eq!(combinations[1].keys.len(), 2);
    assert_eq!(combinations[1].keys[0].title, "ctrl");
    assert_eq!(combinations[1].keys[1].title, "b");
}

#[test]
fn test_parse_combination_with_enter() {
    let combinations = parse("ctrl alt enter");
    assert_eq!(combinations.len(), 1);
    assert_eq!(combinations[0].keys.len(), 3);
    assert_eq!(combinations[0].keys[0].title, "ctrl");
    assert_eq!(combinations[0].keys[1].title, "alt");
    assert_eq!(combinations[0].keys[2].title, "enter");

    let res = for_shortcut("ctrl alt enter".to_string());
    assert_eq!(res.steps.len(), 6); // Ctrl down, Alt down, Enter down, Enter up, Alt up, Ctrl up
    assert_eq!(single_code(&res.steps[0]), 0x11);
    assert_eq!(single_code(&res.steps[1]), 0x12);
    assert_eq!(single_code(&res.steps[2]), 0x0D);
    assert_eq!(single_code(&res.steps[3]), 0x0D);
    assert_eq!(single_code(&res.steps[4]), 0x12);
    assert_eq!(single_code(&res.steps[5]), 0x11);

    let code = single_code(&res.steps[2]);
    let linux_key = key_table()
        .iter()
        .find(|vk| vk.vkey == code)
        .map(|vk| vk.linux_key)
        .expect("dddd");

    assert_eq!(linux_key, 28); // Enter key code on the platform
}

#[test]
fn test_map_character_key_no_shift() {
    let ckey = CharacterKey::new(VirtualKey::new(0x41, 30, "a"));
    let inputs = map_character_key(ckey);

    assert_eq!(inputs.len(), 2);
    assert_eq!(inputs[0], KeyInput { vk_code: 0x41, key_down: true });
    assert_eq!(inputs[1], KeyInput { vk_code: 0x41, key_down: false });
}

#[test]
fn test_map_character_key_with_shift() {
    let ckey = CharacterKey::new_sh(VirtualKey::new(0x41, 30, "a"));
    let inputs = map_character_key(ckey);

    assert_eq!(inputs.len(), 4);
    assert_eq!(inputs[0], KeyInput { vk_code: 0x10, key_down: true });
    assert_eq!(inputs[1], KeyInput { vk_code: 0x41, key_down: true });
    assert_eq!(inputs[2], KeyInput { vk_code: 0x41, key_down: false });
    assert_eq!(inputs[3], KeyInput { vk_code: 0x10, key_down: false });
}

fn down_up_codes(script: &InputScript) -> Vec<(u16, bool)> {
    script
        .steps
        .iter()
        .map(|s| match s {
            InputStep::Single(k) => (k.vk_code, k.key_down),
            _ => panic!("expected single key steps"),
        })
        .collect()
}

#[test]
fn test_chord_downs_then_reverse_ups() {
    // "Ctrl A" compiles to Ctrl down, A down, A up, Ctrl up
    let script = for_shortcut("Ctrl A".to_string());
    assert_eq!(
        down_up_codes(&script),
        vec![(0x11, true), (0x41, true), (0x41, false), (0x11, false)]
    );
}

#[test]
fn test_two_chords_concatenate() {
    // two chords of four steps each, in segment order
    let script = for_shortcut("Ctrl K + Ctrl B".to_string());
    assert_eq!(
        down_up_codes(&script),
        vec![
            (0x11, true),
            (0x4B, true),
            (0x4B, false),
            (0x11, false),
            (0x11, true),
            (0x42, true),
            (0x42, false),
            (0x11, false),
        ]
    );
}

#[test]
fn test_plus_separates_compilations() {
    // the whole compiles to the segments' compilations, in segment order
    let whole = for_shortcut("ctrl k + ctrl b".to_string());
    let first = for_shortcut("ctrl k ".to_string());
    let second = for_shortcut(" ctrl b".to_string());
    let mut expected = down_up_codes(&first);
    expected.extend(down_up_codes(&second));
    assert_eq!(down_up_codes(&whole), expected);
}

#[test]
fn test_shift_character_four_steps() {
    // 'A' needs shift: shift down, key down, key up, shift up
    let script = for_text("A".to_string(), Vec::new());
    let inputs = match &script.steps[0] {
        InputStep::Batch(b) => &b.inputs,
        _ => panic!("expected a batched step"),
    };
    assert_eq!(
        inputs.as_slice(),
        &[
            KeyInput { vk_code: 0x10, key_down: true },
            KeyInput { vk_code: 0x41, key_down: true },
            KeyInput { vk_code: 0x41, key_down: false },
            KeyInput { vk_code: 0x10, key_down: false },
        ]
    );
}

#[test]
fn test_unknown_key_names_are_dropped() {
    // an unresolvable key name contributes no steps and is no error
    let script = for_shortcut("ctrl bogus a".to_string());
    assert_eq!(
        down_up_codes(&script),
        vec![(0x11, true), (0x41, true), (0x41, false), (0x11, false)]
    );
}

#[test]
fn test_unmapped_characters_are_dropped() {
    // text with one invalid character produces steps for the others only
    let script = for_text("a€b".to_string(), Vec::new());
    let inputs = match &script.steps[0] {
        InputStep::Batch(b) => &b.inputs,
        _ => panic!("expected a batched step"),
    };
    assert_eq!(inputs.len(), 4);
    assert_eq!(inputs[0].vk_code, 0x41);
    assert_eq!(inputs[2].vk_code, 0x42);
}

#[test]
fn test_line_appends_enter() {
    let script = for_line("a".to_string(), Vec::new());
    let inputs = match &script.steps[0] {
        InputStep::Batch(b) => &b.inputs,
        _ => panic!("expected a batched step"),
    };
    assert_eq!(
        inputs.as_slice(),
        &[
            KeyInput { vk_code: 0x41, key_down: true },
            KeyInput { vk_code: 0x41, key_down: false },
            KeyInput { vk_code: 0x0D, key_down: true },
            KeyInput { vk_code: 0x0D, key_down: false },
        ]
    );
}

#[test]
fn test_empty_shortcut_has_no_steps() {
    let script = for_shortcut("".to_string());
    assert_eq!(script.steps.len(), 0);
}

#[test]
fn test_pause_zero() {
    let script = for_pause(0);
    assert_eq!(script.steps.len(), 1);
    match &script.steps[0] {
        InputStep::Wait(w) => assert_eq!(w.pause, 0),
        _ => panic!("expected a wait step"),
    }
}
