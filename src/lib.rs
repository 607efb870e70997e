//! Procedural generation of short synthwave leads: a genetic search over
//! note sequences (fitness, crossover, mutation, roulette selection) and
//! rule-based melody generation, over a small note and timing model.

pub mod notes;
pub mod random;
pub mod genetic;
pub mod melody_type;
pub mod midi;
