//! Core of a small key-event-driven polyphonic synthesizer.
//!
//! Three pieces make up the core: ordered tracking of the currently held
//! keys ([`keys_state`]), the transition rules of the per-voice ADSR
//! envelope state machine ([`envelope`]), and the derivation of each
//! voice's gate from the active-key snapshot ([`mixer`]). The surrounding
//! floating-point signal arithmetic and the I/O plumbing live outside this
//! library and consult these verified rules for every decision they take.

pub mod envelope;
pub mod keys_state;
pub mod mixer;
