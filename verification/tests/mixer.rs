use audioengine::envelope::{next_adsr_state, AdsrState};
use audioengine::keys_state::{KeyAction, KeysState};
use audioengine::mixer::{derive_gates, gate_for};

const SEMITONE: f64 = 1.05946309436;
const BASE_FREQ: f64 = 261.63;
const PI: f64 = std::f64::consts::PI;

/// Floating-point voice bank harness around the verified gate derivation
/// and envelope transition rule: per-voice ADSR value updates, waveform
/// synthesis and summing, as the audio path performs them.
struct Bank {
    keys: Vec<i32>,
    states: Vec<AdsrState>,
    values: Vec<f64>,
    attack: f64,
    decay: f64,
    sustain: f64,
    release: f64,
    time: f64,
    time_per_sample: f64,
}

impl Bank {
    fn with_defaults(sample_rate: f64) -> Bank {
        let keys: Vec<i32> = (0..15).collect();
        let n = keys.len();
        Bank {
            keys,
            states: vec![AdsrState::Release; n],
            values: vec![0.0; n],
            attack: 10000.0,
            decay: 10000.0,
            sustain: 0.5,
            release: 10000.0,
            time: 0.0,
            time_per_sample: 1.0 / sample_rate,
        }
    }

    fn process(&mut self, active_keys: &Vec<i32>) -> f64 {
        self.time += self.time_per_sample;
        let gates = derive_gates(active_keys, &self.keys);
        let mut val = 0.0f64;
        for i in 0..self.keys.len() {
            let gate = if gates[i] { 1.0 } else { 0.0 };
            let next_val = match self.states[i] {
                AdsrState::Attack => self.values[i] + 1.0 / self.attack,
                AdsrState::Decay => self.values[i] - (self.values[i] - self.sustain) / self.decay,
                AdsrState::Release => self.values[i] - self.values[i] / self.release,
            };
            self.states[i] = next_adsr_state(self.states[i], next_val >= 1.0, gate >= 0.5);
            self.values[i] = next_val;
            let amp = next_val;
            let freq = BASE_FREQ * SEMITONE.powf(self.keys[i] as f64);
            let main = (2.0 * PI * freq * self.time).sin() * 0.5 * amp;
            let second = (2.0 * PI * freq * 2.0 * self.time).sin() * 0.5 * amp * 0.3;
            let third = (2.0 * PI * freq / 2.0 * self.time).sin() * 0.5 * amp * 0.3;
            val += main + second + third;
        }
        val
    }
}

#[test]
fn gate_is_on_exactly_for_held_keys() {
    let held = vec![4, 7];
    assert!(gate_for(&held, 4));
    assert!(gate_for(&held, 7));
    assert!(!gate_for(&held, 9));
    assert!(!gate_for(&Vec::new(), 4));
}

#[test]
fn derived_gates_follow_the_snapshot() {
    let voice_keys: Vec<i32> = (0..15).collect();
    let held = vec![2, 14, 3];
    let gates = derive_gates(&held, &voice_keys);
    assert_eq!(gates.len(), 15);
    for (i, &g) in gates.iter().enumerate() {
        assert_eq!(g, held.contains(&(i as i32)), "gate {} wrong", i);
    }
}

#[test]
fn mixer_is_silent_with_no_keys_held() {
    let mut bank = Bank::with_defaults(44100.0);
    let held: Vec<i32> = Vec::new();
    for _ in 0..200 {
        let out = bank.process(&held);
        assert_eq!(out, 0.0);
    }
}

#[test]
fn mixer_output_is_the_superposition_of_single_keys() {
    let n = 500;
    let mut solo_a = Bank::with_defaults(44100.0);
    let mut solo_b = Bank::with_defaults(44100.0);
    let mut both = Bank::with_defaults(44100.0);
    let held_a = vec![2];
    let held_b = vec![7];
    let held_ab = vec![2, 7];
    for _ in 0..n {
        let a = solo_a.process(&held_a);
        let b = solo_b.process(&held_b);
        let ab = both.process(&held_ab);
        assert!((ab - (a + b)).abs() <= 1e-9, "superposition broken: {} vs {}", ab, a + b);
    }
}

#[test]
fn single_press_follows_the_attack_ramp_and_stays_bounded() {
    let mut bank = Bank::with_defaults(44100.0);
    let mut tracker = KeysState::new();
    let held = tracker.key_down(KeyAction::Press(0));
    for n in 1..=1000u32 {
        let out = bank.process(&held);
        // The voice starts at rest in Release; the first sample re-triggers
        // it, and the linear ramp runs from the second sample on.
        let ramp = (n - 1) as f64 / 10000.0;
        assert!(
            (bank.values[0] - ramp).abs() <= 1e-9,
            "sample {}: envelope {} strayed from ramp {}",
            n,
            bank.values[0],
            ramp
        );
        let bound = 0.5 * ramp * (1.0 + 0.3 + 0.3) + 1e-9;
        assert!(out.abs() <= bound, "sample {}: output {} above bound {}", n, out, bound);
    }
    assert!(bank.values[0] <= 0.1 + 1e-9);
    assert_eq!(bank.states[0], AdsrState::Attack);
}
