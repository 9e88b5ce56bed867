//! The action planner: turns each user action into the thing the host
//! must do — a compiled input script to play, a URL to open, a command
//! to spawn, or a repository record to write. The host performs the
//! plans in list order and stops at the first failure.

use vstd::prelude::*;

use crate::actions::Action;
use crate::config::{clone_mapping, KeyboardLayout};
use crate::script::{
    for_shortcut, for_text_or_line, for_pause, shortcut_steps_spec, text_script_spec, InputScript,
};
use crate::steps::StepModel;

verus! {

/// Spec-level image of an action plan.
#[verifier::ext_equal]
pub ghost enum PlanModel {
    Play(Seq<StepModel>),
    OpenUrl(Seq<char>),
    RunCommand(Seq<char>),
    HomeStamp,
}

/// What the host must do for one action.
#[derive(Debug)]
pub enum ActionPlan {
    /// Play a compiled input script on the virtual device.
    Play(InputScript),
    /// Open a URL with the default handler.
    OpenUrl(String),
    /// Spawn a detached shell command, output discarded.
    RunCommand(String),
    /// Record the time of the action in the repository.
    HomeStamp,
}

impl View for ActionPlan {
    type V = PlanModel;

    open spec fn view(&self) -> PlanModel {
        match self {
            ActionPlan::Play(s) => PlanModel::Play(s.steps@.map_values(|x: crate::steps::InputStep| x@)),
            ActionPlan::OpenUrl(u) => PlanModel::OpenUrl(u@),
            ActionPlan::RunCommand(c) => PlanModel::RunCommand(c@),
            ActionPlan::HomeStamp => PlanModel::HomeStamp,
        }
    }
}

/// Pause durations above the largest representable delay are clamped,
/// not rejected.
pub open spec fn clamp_pause(ms: u64) -> u16 {
    if ms > 65535 {
        65535u16
    } else {
        ms as u16
    }
}

/// The plan one action compiles to.
pub open spec fn plan_spec(a: Action, mapping: Seq<(char, char)>) -> PlanModel {
    match a {
        Action::Shortcut(t) => PlanModel::Play(shortcut_steps_spec(t@)),
        Action::Text(t) => PlanModel::Play(text_script_spec(t@, mapping, false)),
        Action::Line(t) => PlanModel::Play(text_script_spec(t@, mapping, true)),
        Action::Pause(ms) => PlanModel::Play(seq![StepModel::Wait(clamp_pause(ms))]),
        Action::OpenUrl(u) => PlanModel::OpenUrl(u@),
        Action::CustomHomeAction => PlanModel::HomeStamp,
        Action::Command(c) => PlanModel::RunCommand(c@),
    }
}

/// Compiles one action into its plan.
pub fn execute_action(action: &Action, keyboard_layout: &KeyboardLayout) -> (r: ActionPlan)
    ensures
        r@ == plan_spec(*action, keyboard_layout.mappings@),
{
    match action {
        Action::Shortcut(shortcut_text) => ActionPlan::Play(for_shortcut(shortcut_text.clone())),
        Action::Text(text) => ActionPlan::Play(
            for_text_or_line(text.clone(), false, clone_mapping(&keyboard_layout.mappings)),
        ),
        Action::Line(line_text) => ActionPlan::Play(
            for_text_or_line(line_text.clone(), true, clone_mapping(&keyboard_layout.mappings)),
        ),
        Action::Pause(milliseconds) => {
            let ms = *milliseconds;
            let clamped: u16 = if ms > 65535 {
                65535
            } else {
                ms as u16
            };
            ActionPlan::Play(for_pause(clamped))
        },
        Action::OpenUrl(url) => ActionPlan::OpenUrl(url.clone()),
        Action::CustomHomeAction => ActionPlan::HomeStamp,
        Action::Command(command) => ActionPlan::RunCommand(command.clone()),
    }
}

/// Compiles a list of actions into plans, one per action, in list
/// order; the host performs them sequentially and aborts the rest of
/// the list at the first failure.
pub fn execute_actions(actions: &Vec<Action>, keyboard_layout: &KeyboardLayout) -> (r: Vec<
    ActionPlan,
>)
    ensures
        r@.len() == actions@.len(),
        forall|i: int|
            0 <= i < actions@.len() ==> (#[trigger] r@[i])@ == plan_spec(
                actions@[i],
                keyboard_layout.mappings@,
            ),
{
    let mut r: Vec<ActionPlan> = Vec::new();
    let n = actions.len();
    let mut i: usize = 0;
    while i < n
        invariant
            n == actions@.len(),
            i <= n,
            r@.len() == i,
            forall|k: int|
                0 <= k < i ==> (#[trigger] r@[k])@ == plan_spec(
                    actions@[k],
                    keyboard_layout.mappings@,
                ),
        decreases n - i,
    {
        let plan = execute_action(&actions[i], keyboard_layout);
        r.push(plan);
        i += 1;
    }
    r
}

/// The timestamp text the home action writes, as a function of the
/// clock reading it was given.
pub uninterp spec fn civil_text(secs: int) -> Seq<char>;

/// Relies on chrono's `DateTime::from_timestamp` and `%Y-%m-%d %H:%M:%S`
/// formatting: the text depends on the epoch seconds alone, and only an
/// out-of-range number of seconds yields nothing (every second of the
/// years 1970 through 9999 is in range).
#[verifier::external_body]
fn civil_timestamp(secs: i64) -> (r: Option<String>)
    ensures
        match r {
            Some(s) => s@ == civil_text(secs as int),
            None => !(0 <= secs <= 253_402_300_799),
        },
{
    chrono::DateTime::from_timestamp(secs, 0).map(|d| d.format("%Y-%m-%d %H:%M:%S").to_string())
}

/// What the home action stores for a clock reading: the fixed board
/// name, the fixed key, and the formatted timestamp. Nothing comes back
/// only when the clock reading cannot be rendered as a date.
pub fn home_action_record(now_secs: i64) -> (r: Option<(String, String, String)>)
    ensures
        match r {
            Some(t) => t.0@ == "home"@ && t.1@ == "last_action_time"@ && t.2@ == civil_text(
                now_secs as int,
            ),
            None => !(0 <= now_secs <= 253_402_300_799),
        },
{
    match civil_timestamp(now_secs) {
        Some(value) => Some(("home".to_owned(), "last_action_time".to_owned(), value)),
        None => None,
    }
}

} // verus!
