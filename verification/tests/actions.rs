use hotkeys::actions::{Action, ActionList, ExecutionThread};
use hotkeys::config::KeyboardLayout;
use hotkeys::executor::{execute_action, execute_actions, home_action_record, ActionPlan};
use hotkeys::steps::InputStep;

#[test]
fn test_action_thread_classes() {
    assert_eq!(Action::CustomHomeAction.thread(), ExecutionThread::Main);
    assert_eq!(Action::Shortcut("Ctrl A".to_string()).thread(), ExecutionThread::Background);
    assert_eq!(Action::Text("hi".to_string()).thread(), ExecutionThread::Background);
    assert_eq!(Action::Line("hi".to_string()).thread(), ExecutionThread::Background);
    assert_eq!(Action::Pause(10).thread(), ExecutionThread::Background);
    assert_eq!(Action::OpenUrl("https://example.com".to_string()).thread(), ExecutionThread::Background);
    assert_eq!(Action::Command("ls".to_string()).thread(), ExecutionThread::Background);
}

#[test]
fn test_action_is_delayed() {
    assert!(Action::Pause(10).is_delayed());
    assert!(!Action::Command("ls".to_string()).is_delayed());
}

#[test]
fn test_order_valid_background_first() {
    // all background work before the main action
    let actions = vec![
        Action::Pause(200),
        Action::Command("x".to_string()),
        Action::CustomHomeAction,
    ];
    assert!(actions.is_order_valid());
}

#[test]
fn test_order_invalid_main_before_background() {
    // a background action after a main action is rejected
    let actions = vec![Action::CustomHomeAction, Action::Pause(200)];
    assert!(!actions.is_order_valid());
}

#[test]
fn test_order_valid_empty_and_single() {
    let none: Vec<Action> = Vec::new();
    assert!(none.is_order_valid());
    assert!(vec![Action::CustomHomeAction].is_order_valid());
    assert!(vec![Action::Pause(1)].is_order_valid());
}

#[test]
fn test_split_partitions_in_order() {
    let actions = vec![
        Action::Pause(200),
        Action::CustomHomeAction,
        Action::Command("x".to_string()),
    ];
    let (background, main) = actions.split();
    assert_eq!(background.len(), 2);
    assert_eq!(main.len(), 1);
    assert!(matches!(background[0], Action::Pause(200)));
    assert!(matches!(background[1], Action::Command(_)));
    assert!(matches!(main[0], Action::CustomHomeAction));
    // partition is total
    assert_eq!(background.len() + main.len(), actions.len());
}

#[test]
fn test_list_is_delayed() {
    let actions = vec![Action::Command("x".to_string()), Action::Pause(1)];
    assert!(actions.is_delayed());
    let actions = vec![Action::Command("x".to_string())];
    assert!(!actions.is_delayed());
}

#[test]
fn test_background_runs_before_main() {
    // the engine runs the background list in full, then the main list:
    // [Pause, Command] run strictly before [CustomHomeAction]
    let actions = vec![
        Action::Pause(200),
        Action::Command("x".to_string()),
        Action::CustomHomeAction,
    ];
    let (background, main) = actions.split();
    let run_order: Vec<&Action> = background.iter().chain(main.iter()).collect();
    assert_eq!(run_order.len(), 3);
    assert!(matches!(run_order[0], Action::Pause(200)));
    assert!(matches!(run_order[1], Action::Command(_)));
    assert!(matches!(run_order[2], Action::CustomHomeAction));
    assert!(run_order[..2].iter().all(|a| a.thread() == ExecutionThread::Background));
    assert!(run_order[2..].iter().all(|a| a.thread() == ExecutionThread::Main));
}

#[test]
fn test_execute_action_plans() {
    let layout = KeyboardLayout::new_default();

    match execute_action(&Action::Shortcut("Ctrl A".to_string()), &layout) {
        ActionPlan::Play(script) => assert_eq!(script.steps.len(), 4),
        _ => panic!("expected an input script"),
    }

    match execute_action(&Action::OpenUrl("https://example.com".to_string()), &layout) {
        ActionPlan::OpenUrl(u) => assert_eq!(u, "https://example.com"),
        _ => panic!("expected a URL plan"),
    }

    match execute_action(&Action::Command("ls -l".to_string()), &layout) {
        ActionPlan::RunCommand(c) => assert_eq!(c, "ls -l"),
        _ => panic!("expected a command plan"),
    }

    assert!(matches!(
        execute_action(&Action::CustomHomeAction, &layout),
        ActionPlan::HomeStamp
    ));
}

#[test]
fn test_execute_action_clamps_pause() {
    let layout = KeyboardLayout::new_default();
    match execute_action(&Action::Pause(1_000_000), &layout) {
        ActionPlan::Play(script) => match &script.steps[0] {
            InputStep::Wait(w) => assert_eq!(w.pause, 65535),
            _ => panic!("expected a wait step"),
        },
        _ => panic!("expected an input script"),
    }
    match execute_action(&Action::Pause(200), &layout) {
        ActionPlan::Play(script) => match &script.steps[0] {
            InputStep::Wait(w) => assert_eq!(w.pause, 200),
            _ => panic!("expected a wait step"),
        },
        _ => panic!("expected an input script"),
    }
}

#[test]
fn test_execute_actions_keeps_list_order() {
    let layout = KeyboardLayout::new_default();
    let actions = vec![
        Action::Pause(5),
        Action::Command("x".to_string()),
        Action::OpenUrl("u".to_string()),
    ];
    let plans = execute_actions(&actions, &layout);
    assert_eq!(plans.len(), 3);
    assert!(matches!(plans[0], ActionPlan::Play(_)));
    assert!(matches!(plans[1], ActionPlan::RunCommand(_)));
    assert!(matches!(plans[2], ActionPlan::OpenUrl(_)));
}

#[test]
fn test_home_action_record() {
    // the record carries the fixed board, the fixed key, and the
    // formatted timestamp of the clock reading
    let (board, key, value) = home_action_record(0).unwrap();
    assert_eq!(board, "home");
    assert_eq!(key, "last_action_time");
    assert_eq!(value, "1970-01-01 00:00:00");

    let (_, _, value) = home_action_record(1431648000).unwrap();
    assert_eq!(value, "2015-05-15 00:00:00");
}
