//! Timing, generation and MIDI-event views of leads.

pub mod bpm;
pub mod generator;
pub mod parser;

use crate::melody_type::SynthwaveMelodyType;
use vstd::prelude::*;

verus! {

/// Milliseconds in a minute.
pub const MILLIS_PER_MINUTE: u64 = 60_000;

/// Microseconds in a minute.
pub const MICROS_PER_MINUTE: u64 = 60_000_000;

/// Beats (quarter notes) in a bar.
pub const BEATS_PER_BAR: u64 = 4;

/// Gets the time of one bar, in milliseconds, at the given tempo in beats
/// per minute (rounded down).
pub fn get_bar_time(bpm: u64) -> (r: u64)
    requires
        bpm > 0,
    ensures
        r == (BEATS_PER_BAR * MILLIS_PER_MINUTE) as int / bpm as int,
{
    BEATS_PER_BAR * MILLIS_PER_MINUTE / bpm
}

/// Gets the MIDI tempo, in microseconds per beat, at the given tempo in
/// beats per minute (rounded down).
pub fn get_tempo(bpm: u64) -> (r: u64)
    requires
        bpm > 0,
    ensures
        r == MICROS_PER_MINUTE as int / bpm as int,
{
    MICROS_PER_MINUTE / bpm
}

/// The melody types, in the order they are offered.
pub fn melody_types() -> (r: Vec<SynthwaveMelodyType>)
    ensures
        r@ == seq![SynthwaveMelodyType::ABAB, SynthwaveMelodyType::AAAB, SynthwaveMelodyType::ABAC],
{
    vec![SynthwaveMelodyType::ABAB, SynthwaveMelodyType::AAAB, SynthwaveMelodyType::ABAC]
}

} // verus!
