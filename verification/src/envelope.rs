//! Transition rules of the per-voice ADSR envelope state machine.
//!
//! The envelope has three explicit phases; sustain is not a fourth phase
//! but the steady state of `Decay`, where the value rests at the sustain
//! level while its gate stays on. Once per sample the value is updated
//! under the rule of the current phase, and the next phase is then chosen
//! from the current phase, the freshly updated value and its gate signal.
//! The value arithmetic itself is floating point and lives with the
//! caller; this module decides, and proves, which phase comes next.

use vstd::prelude::*;

verus! {

/// Phase of the ADSR envelope.
#[derive(Clone, Copy, Debug, PartialEq, Eq, Structural)]
pub enum AdsrState {
    Attack,
    Decay,
    Release,
}

/// The phase that follows one sample step. `value_full` says whether the
/// freshly updated value has reached full scale (1.0); `gate_on` says
/// whether the key driving this voice is held (gate at or above the 0.5
/// threshold). In `Attack`, reaching full scale takes priority over a
/// simultaneous gate drop.
pub open spec fn next_state_spec(state: AdsrState, value_full: bool, gate_on: bool) -> AdsrState {
    match state {
        AdsrState::Attack => if value_full {
            AdsrState::Decay
        } else if !gate_on {
            AdsrState::Release
        } else {
            AdsrState::Attack
        },
        AdsrState::Decay => if !gate_on {
            AdsrState::Release
        } else {
            AdsrState::Decay
        },
        AdsrState::Release => if gate_on {
            AdsrState::Attack
        } else {
            AdsrState::Release
        },
    }
}

/// Advances the envelope state machine by one sample step.
pub fn next_adsr_state(state: AdsrState, value_full: bool, gate_on: bool) -> (next: AdsrState)
    ensures
        next == next_state_spec(state, value_full, gate_on),
{
    match state {
        AdsrState::Attack => if value_full {
            AdsrState::Decay
        } else if !gate_on {
            AdsrState::Release
        } else {
            AdsrState::Attack
        },
        AdsrState::Decay => if !gate_on {
            AdsrState::Release
        } else {
            AdsrState::Decay
        },
        AdsrState::Release => if gate_on {
            AdsrState::Attack
        } else {
            AdsrState::Release
        },
    }
}

/// Completing the attack ramp wins over everything else: once the updated
/// value has reached full scale in `Attack`, the next phase is `Decay`,
/// even when its gate drops at that same sample.
pub proof fn lemma_attack_full_takes_priority(gate_on: bool)
    ensures
        next_state_spec(AdsrState::Attack, true, gate_on) == AdsrState::Decay,
{
}

/// Re-trigger: in `Release`, a gate that is on moves the envelope to
/// `Attack` at the very next step, whatever the current value is.
pub proof fn lemma_release_retrigger(value_full: bool)
    ensures
        next_state_spec(AdsrState::Release, value_full, true) == AdsrState::Attack,
{
}

/// While its gate stays off, `Release` is absorbing: the envelope stays in
/// `Release`, so its value keeps following the decay-to-rest rule alone.
pub proof fn lemma_release_stays(value_full: bool)
    ensures
        next_state_spec(AdsrState::Release, value_full, false) == AdsrState::Release,
{
}

} // verus!
