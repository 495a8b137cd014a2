//! Gate derivation for the polyphonic voice bank.
//!
//! The mixer owns one voice per representable key. Each sample it turns the
//! active-key snapshot handed out by the key tracker into one boolean gate
//! per voice: a voice's gate is on exactly when its key is held. The
//! floating-point voice evaluation and summing live with the caller; the
//! decision which voices sound is made, and proved, here.

use vstd::prelude::*;

verus! {

/// Whether the voice bound to `key` has its gate on under the given
/// active-key snapshot: on exactly when `key` stands in the snapshot.
pub fn gate_for(active_keys: &Vec<i32>, key: i32) -> (gate: bool)
    ensures
        gate == active_keys@.contains(key),
{
    let mut i: usize = 0;
    while i < active_keys.len()
        invariant
            i <= active_keys@.len(),
            forall|j: int| 0 <= j < i ==> active_keys@[j] != key,
        decreases active_keys@.len() - i,
    {
        if active_keys[i] == key {
            return true;
        }
        i = i + 1;
    }
    false
}

/// Derives one gate per voice from a single active-key snapshot:
/// `gates[i]` is on exactly when `voice_keys[i]` stands in the snapshot.
pub fn derive_gates(active_keys: &Vec<i32>, voice_keys: &Vec<i32>) -> (gates: Vec<bool>)
    ensures
        gates@.len() == voice_keys@.len(),
        forall|i: int|
            0 <= i < voice_keys@.len() ==> gates@[i] == active_keys@.contains(voice_keys@[i]),
{
    let mut gates: Vec<bool> = Vec::new();
    let mut i: usize = 0;
    while i < voice_keys.len()
        invariant
            i <= voice_keys@.len(),
            gates@.len() == i,
            forall|j: int|
                0 <= j < i ==> gates@[j] == active_keys@.contains(voice_keys@[j]),
            decreases voice_keys@.len() - i,
    {
        let g = gate_for(active_keys, voice_keys[i]);
        gates.push(g);
        i = i + 1;
    }
    gates
}

/// With no keys held every gate is off: an empty snapshot contains no key,
/// so every voice keeps following the decay-to-rest rule and a bank at
/// rest stays at rest.
pub proof fn lemma_empty_snapshot_gates_off(active_keys: Seq<i32>, key: i32)
    requires
        active_keys.len() == 0,
    ensures
        !active_keys.contains(key),
{
}

} // verus!
