//! Tempo of a track and the times it gives.

use crate::midi::{BEATS_PER_BAR, MICROS_PER_MINUTE};
use crate::random::random_below;
use vstd::prelude::*;

verus! {

/// Slowest tempo that is generated, in beats per minute.
pub const MIN_BPM: u64 = 90;

/// Fastest tempo that is generated, in beats per minute.
pub const MAX_BPM: u64 = 120;

/// Microseconds in a millisecond.
pub const MICROS_PER_MILLI: u64 = 1000;

/// `a / b` rounded to the nearest integer, halves up.
pub open spec fn rounded_div(a: int, b: int) -> int {
    (2 * a + b) / (2 * b)
}

/// The time scale of a track: its tempo and the resolution of its ticks.
#[derive(Copy, Clone, PartialEq, Eq, Structural, Debug)]
pub struct TimeScale {
    /// Ticks of one quarter note in the MIDI file.
    pub ticks_per_quarter_note: u16,
    /// Tempo in beats (quarter notes) per minute.
    pub bpm: u64,
}

impl TimeScale {
    pub open spec fn wf(self) -> bool {
        0 < self.bpm
    }

    /// MIDI tempo: microseconds per beat, rounded to the nearest.
    pub fn tempo(&self) -> (r: u64)
        requires
            self.wf(),
        ensures
            r == rounded_div(MICROS_PER_MINUTE as int, self.bpm as int),
    {
        let bpm = self.bpm as u128;
        let x = 2 * MICROS_PER_MINUTE as u128 + bpm;
        proof {
            vstd::arithmetic::div_mod::lemma_div_is_ordered_by_denominator(x as int, 2, 2 * bpm as int);
            assert(x / 2 <= MICROS_PER_MINUTE + bpm / 2);
        }
        (x / (2 * bpm)) as u64
    }

    /// Time of one bar in milliseconds, rounded to the nearest.
    pub fn bar_time(&self) -> (r: u64)
        requires
            self.wf(),
        ensures
            r == rounded_div(
                rounded_div(MICROS_PER_MINUTE as int, self.bpm as int),
                (MICROS_PER_MILLI / BEATS_PER_BAR) as int,
            ),
    {
        let tempo = self.tempo() as u128;
        let quarter = (MICROS_PER_MILLI / BEATS_PER_BAR) as u128;
        assert((2 * tempo + quarter) / (2 * quarter) <= tempo) by (nonlinear_arith)
            requires
                quarter == 250,
        ;
        ((2 * tempo + quarter) / (2 * quarter)) as u64
    }
}

/// Generates a random tempo in 90..=120 beats per minute.
pub fn generate_bpm(rng: &mut rand::rngs::StdRng) -> (r: u64)
    ensures
        MIN_BPM <= r <= MAX_BPM,
{
    (random_below(rng, (MAX_BPM - MIN_BPM + 1) as u128) as u64) + MIN_BPM
}

} // verus!
