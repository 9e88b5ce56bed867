//! The atomic unit of synthesized input: a single key transition, a
//! batch of key transitions, or a timed no-op.

use vstd::prelude::*;

use crate::device::KeyboardInput;

verus! {

/// A key press or release, identified by an abstract key code.
#[derive(Debug, PartialEq, Eq, Structural, Clone, Copy)]
pub struct KeyInput {
    pub vk_code: u16,
    pub key_down: bool,
}

/// A batch of key transitions played as one unit.
#[derive(Debug)]
pub struct KeyInputs {
    pub inputs: Vec<KeyInput>,
}

/// A pause of the given number of milliseconds.
#[derive(Debug, PartialEq, Eq, Structural, Clone, Copy)]
pub struct NoInput {
    pub pause: u16,
}

/// Spec-level image of an input step.
#[verifier::ext_equal]
pub ghost enum StepModel {
    Single(KeyInput),
    Batch(Seq<KeyInput>),
    Wait(u16),
}

/// One atomic input step.
#[derive(Debug)]
pub enum InputStep {
    /// A single key transition, synchronized on its own.
    Single(KeyInput),
    /// A batch of key transitions with inter-event spacing.
    Batch(KeyInputs),
    /// A timed no-op.
    Wait(NoInput),
}

impl View for InputStep {
    type V = StepModel;

    open spec fn view(&self) -> StepModel {
        match self {
            InputStep::Single(k) => StepModel::Single(*k),
            InputStep::Batch(b) => StepModel::Batch(b.inputs@),
            InputStep::Wait(w) => StepModel::Wait(w.pause),
        }
    }
}

/// Converts a compiled key transition into its device-bound form.
pub fn map_api_input(input: &KeyInput) -> (r: KeyboardInput)
    ensures
        r.vk_code == input.vk_code,
        r.key_down == input.key_down,
{
    KeyboardInput { vk_code: input.vk_code, key_down: input.key_down }
}

} // verus!
