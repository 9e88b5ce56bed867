use hotkeys::actions::Action;
use hotkeys::config::{
    find_board_among_running_processes, find_board_config, find_duplicate_name,
    select_board_by_process, validate_action_order, validate_profile_board_references,
    BoardConfig, BoardKind, Detection, PadConfig, PadSetConfig, PadSetKind, Profile,
};
use hotkeys::data::{Color, ModifierState};
use hotkeys::layout::WindowStyle;
use hotkeys::modifier::{ModKey, ModifierHandler};

fn board(name: &str, detection: Detection) -> BoardConfig {
    BoardConfig {
        kind: BoardKind::Static,
        title: None,
        name: name.to_string(),
        icon: None,
        color_scheme: None,
        text_style: None,
        detection,
        base_pads: None,
        modifier_pads: Vec::new(),
    }
}

#[test]
fn test_detection_matches() {
    let d = Detection::XPROP("Sublime".to_string());
    assert!(d.matches("sublime_text"));
    assert!(d.matches("SUBLIME"));
    assert!(!d.matches("firefox"));
    assert!(d.is_xprop());
    assert!(!d.is_ps());

    let d = Detection::PS("Firefox".to_string());
    assert!(d.matches("firefox"));
    assert!(!d.matches("firefox-esr"));
    assert!(d.is_ps());

    let d = Detection::NONE;
    assert!(!d.matches("anything"));
}

#[test]
fn test_board_kinds() {
    assert!(BoardKind::Static.is_static());
    assert!(!BoardKind::Home.is_static());
    assert!(PadSetKind::Static.is_static());
}

#[test]
fn test_validate_action_order_reports_first_offender() {
    let good = PadConfig {
        header: String::new(),
        text: String::new(),
        icon: String::new(),
        actions: vec![Action::Pause(1), Action::CustomHomeAction],
        board: None,
        color_scheme: None,
        text_style: None,
    };
    let bad = PadConfig {
        header: String::new(),
        text: String::new(),
        icon: String::new(),
        actions: vec![Action::CustomHomeAction, Action::Pause(1)],
        board: None,
        color_scheme: None,
        text_style: None,
    };
    let padsets = vec![
        PadSetConfig { kind: PadSetKind::Static, name: "ok".to_string(), items: vec![good] },
        PadSetConfig { kind: PadSetKind::Static, name: "bad".to_string(), items: vec![bad] },
    ];
    assert_eq!(validate_action_order(&padsets), Some((1, 0)));

    let empty: Vec<PadSetConfig> = Vec::new();
    assert_eq!(validate_action_order(&empty), None);
}

#[test]
fn test_validate_profile_board_references() {
    let names = vec!["one".to_string(), "two".to_string()];
    let good = Profile {
        name: "p".to_string(),
        boards: vec!["one".to_string()],
        default: "two".to_string(),
    };
    let bad = Profile {
        name: "q".to_string(),
        boards: vec!["one".to_string(), "three".to_string()],
        default: "two".to_string(),
    };
    let bad_default = Profile {
        name: "r".to_string(),
        boards: vec!["one".to_string()],
        default: "three".to_string(),
    };
    assert_eq!(validate_profile_board_references(&vec![good], &names), None);
    assert_eq!(validate_profile_board_references(&vec![bad], &names), Some(0));
    assert_eq!(validate_profile_board_references(&vec![bad_default], &names), Some(0));
}

#[test]
fn test_find_duplicate_name() {
    let names = vec!["a".to_string(), "b".to_string(), "a".to_string()];
    assert_eq!(find_duplicate_name(&names), Some(2));

    let names = vec!["a".to_string(), "b".to_string()];
    assert_eq!(find_duplicate_name(&names), None);
}

#[test]
fn test_find_board_config() {
    let boards = vec![board("one", Detection::NONE), board("two", Detection::NONE)];
    assert_eq!(find_board_config(&boards, "two"), Some(1));
    assert_eq!(find_board_config(&boards, "three"), None);
}

#[test]
fn test_select_board_by_process() {
    let boards = vec![
        board("code", Detection::XPROP("code".to_string())),
        board("web", Detection::XPROP("firefox".to_string())),
    ];
    assert_eq!(select_board_by_process(&boards, "firefox-bin"), Some(1));
    assert_eq!(select_board_by_process(&boards, "gimp"), None);
}

#[test]
fn test_find_board_among_running_processes() {
    let boards = vec![
        board("code", Detection::PS("code".to_string())),
        board("web", Detection::PS("firefox".to_string())),
        board("term", Detection::PS("bash".to_string())),
    ];
    let names = vec!["systemd".to_string(), "firefox".to_string()];

    // exactly one match
    assert_eq!(find_board_among_running_processes(&boards, &names, "code"), Some(1));

    // no match
    let nothing = vec!["systemd".to_string()];
    assert_eq!(find_board_among_running_processes(&boards, &nothing, "code"), None);

    // several matches, the default among them
    let both = vec!["firefox".to_string(), "bash".to_string()];
    assert_eq!(find_board_among_running_processes(&boards, &both, "term"), Some(2));

    // several matches, default not among them: the first match wins
    assert_eq!(find_board_among_running_processes(&boards, &both, "code"), Some(1));
}

#[test]
fn test_color_from_hex() {
    assert_eq!(Color::from_hex("#10a0ff"), Some(Color { r: 0x10, g: 0xa0, b: 0xff }));
    assert_eq!(Color::from_hex("0x10A0FF"), Some(Color { r: 0x10, g: 0xa0, b: 0xff }));
    assert_eq!(Color::from_hex("10a0ff"), Some(Color { r: 0x10, g: 0xa0, b: 0xff }));
    assert_eq!(Color::from_hex("#123"), None);
    assert_eq!(Color::from_hex(""), None);
    // malformed digits read as zero rather than failing
    assert_eq!(Color::from_hex("zz00ff"), Some(Color { r: 0, g: 0, b: 0xff }));
}

#[test]
fn test_color_to_hex_round_trip() {
    let c = Color { r: 0x10, g: 0xa0, b: 0xff };
    assert_eq!(c.to_hex(), "#10a0ff");
    assert_eq!(Color::from_hex(&c.to_hex()), Some(c));
}

#[test]
fn test_color_from_hex_or() {
    assert_eq!(
        Color::from_hex_or("bogus", "#00007f"),
        Some(Color { r: 0, g: 0, b: 0x7f })
    );
    assert_eq!(
        Color::from_hex_or("#010203", "#00007f"),
        Some(Color { r: 1, g: 2, b: 3 })
    );
}

#[test]
fn test_color_inverted() {
    let c = Color { r: 0, g: 0x10, b: 0xff };
    assert_eq!(c.inverted(), Color { r: 0xff, g: 0xef, b: 0x00 });
}

#[test]
fn test_modifier_state_text() {
    let none = ModifierState::default();
    assert_eq!(none.text(), "");
    assert!(none.is_none());

    let state = ModifierState { ctrl: true, shift: false, alt: true, super_key: false };
    assert_eq!(state.text(), "Ctrl+Alt");
    assert!(!state.is_none());

    let all = ModifierState { ctrl: true, shift: true, alt: true, super_key: true };
    assert_eq!(all.text(), "Ctrl+Shift+Alt+Super");
}

#[test]
fn test_modifier_handler() {
    let mut handler = ModifierHandler::new(ModifierState::default());
    assert!(handler.handle_key_press(ModKey::CtrlLeft));
    assert!(handler.handle_key_press(ModKey::ShiftRight));
    assert!(!handler.handle_key_press(ModKey::Other));
    assert_eq!(
        *handler.state(),
        ModifierState { ctrl: true, shift: true, alt: false, super_key: false }
    );
    assert!(handler.handle_key_release(ModKey::CtrlRight));
    assert_eq!(
        *handler.state(),
        ModifierState { ctrl: false, shift: true, alt: false, super_key: false }
    );
}

#[test]
fn test_window_style() {
    assert_eq!(WindowStyle::from_string("Taskbar"), WindowStyle::Taskbar);
    assert_eq!(WindowStyle::from_string("Window"), WindowStyle::Window);
    assert_eq!(WindowStyle::from_string("anything else"), WindowStyle::Window);
    assert!(WindowStyle::Window.has_decorations());
    assert!(!WindowStyle::Taskbar.has_decorations());
}

#[test]
fn test_resources_paths() {
    let res = hotkeys::resources::Resources::new(vec!["/tmp/surely/not/here".to_string()]);
    // nothing exists under that directory
    assert!(res.file("settings.json").is_none());
    assert_eq!(res.data_json(), "/tmp/surely/not/here/data.json");
}
