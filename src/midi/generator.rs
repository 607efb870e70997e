//! Rule-based generation of leads, and the helpers it shares.

pub mod analyzer;
pub mod arpeggio_types;
pub mod composer;
pub mod generator;

use crate::notes::note_data::{DeltaTime, NoteData};
use crate::random::{random_below, shuffle};
use vstd::prelude::*;

verus! {

/// Gets a random element of the vector, `None` when it is empty. The vector
/// is left shuffled: the element returned is a clone of its new first item.
pub fn random_from_vec<T: Clone>(rng: &mut rand::rngs::StdRng, data: &mut Vec<T>) -> (r: Option<T>)
    ensures
        final(data)@.to_multiset() == old(data)@.to_multiset(),
        r is None <==> old(data).len() == 0,
        r matches Some(x) ==> final(data).len() > 0 && cloned(final(data)[0], x),
{
    shuffle(rng, data);
    proof {
        old(data)@.to_multiset_ensures();
        data@.to_multiset_ensures();
    }
    if data.len() == 0 {
        None
    } else {
        Some(data[0].clone())
    }
}

/// Ticks in one bar of a generated lead.
pub const BAR_TICKS: DeltaTime = 512;

/// Parts (sixteenth notes) that a bar is divided into.
pub const BAR_PARTS: DeltaTime = 16;

/// Gets the time of `ratio` sixteenths of a bar that lasts `bar_time`.
pub fn get_bar_ratio(bar_time: DeltaTime, ratio: u32) -> (r: DeltaTime)
    requires
        bar_time * ratio <= u32::MAX,
    ensures
        r == bar_time * ratio / BAR_PARTS as int,
{
    bar_time * ratio / BAR_PARTS
}

/// Binary precision at which pi is computed for its digits.
pub const PI_PRECISION: u64 = 1024;

/// Characters that skip the leading "3." of pi's decimal text.
pub const PI_PREFIX: usize = 2;

/// Number of places among which a random run of pi's digits starts.
pub const PI_OFFSETS: u128 = 50;

/// Decimal text of pi computed at the given binary precision (a whole number
/// of 64-bit words), rounded to even, as `astro_float` writes it.
pub uninterp spec fn pi_decimal_text(precision_bits: u64) -> Seq<char>;

/// Relies on astro_float: `Context::const_pi` at the given precision, written
/// in decimal by `BigFloat`'s `Display`; `None` where `Consts::new` fails.
#[verifier::external_body]
fn pi_text(precision_bits: u64) -> (r: Option<Vec<char>>)
    requires
        64 <= precision_bits <= 4096,
        precision_bits % 64 == 0,
    ensures
        r matches Some(t) ==> t@ == pi_decimal_text(precision_bits),
{
    let consts = astro_float::Consts::new().ok()?;
    let mut ctx = astro_float::ctx::Context::new(
        precision_bits as usize,
        astro_float::RoundingMode::ToEven,
        consts,
        astro_float::EXPONENT_MIN,
        astro_float::EXPONENT_MAX,
    );
    Some(format!("{}", ctx.const_pi()).chars().collect())
}

/// Whether the character is a decimal digit.
pub open spec fn is_digit(c: char) -> bool {
    '0' <= c <= '9'
}

/// The value of a decimal digit.
pub open spec fn digit_value(c: char) -> u32 {
    (c as int - '0' as int) as u32
}

/// The span of `text` from `start` that holds at most `len` characters.
pub open spec fn span(text: Seq<char>, start: int, len: int) -> Seq<char> {
    let lo = if start < text.len() {
        start
    } else {
        text.len() as int
    };
    let hi = if lo + len < text.len() {
        lo + len
    } else {
        text.len() as int
    };
    text.subrange(lo, hi)
}

/// The value of a decimal digit, `None` for another character.
fn digit_of(c: char) -> (r: Option<u32>)
    ensures
        r is Some <==> is_digit(c),
        r matches Some(v) ==> v == digit_value(c),
{
    match c {
        '0' => Some(0),
        '1' => Some(1),
        '2' => Some(2),
        '3' => Some(3),
        '4' => Some(4),
        '5' => Some(5),
        '6' => Some(6),
        '7' => Some(7),
        '8' => Some(8),
        '9' => Some(9),
        _ => None,
    }
}

/// Reads up to `len` decimal digits of `text` from `start` on (fewer where
/// the text ends first); `None` where a character of that span is not a
/// digit.
pub fn digits_from(text: &Vec<char>, start: usize, len: usize) -> (r: Option<Vec<u32>>)
    ensures
        r is Some <==> forall|i: int| 0 <= i < span(text@, start as int, len as int).len() ==> is_digit(
            #[trigger] span(text@, start as int, len as int)[i],
        ),
        r matches Some(d) ==> d.len() == span(text@, start as int, len as int).len() && forall|i: int|
            0 <= i < d.len() ==> #[trigger] d[i] == digit_value(span(text@, start as int, len as int)[i]),
{
    let ghost sp = span(text@, start as int, len as int);
    let lo = if start < text.len() {
        start
    } else {
        text.len()
    };
    let hi = if len < text.len() - lo {
        lo + len
    } else {
        text.len()
    };
    let mut d: Vec<u32> = Vec::new();
    let mut i: usize = lo;
    assert(sp.len() == hi - lo);
    while i < hi
        invariant
            sp == text@.subrange(lo as int, hi as int),
            sp == span(text@, start as int, len as int),
            lo <= i <= hi <= text.len(),
            d.len() == i - lo,
            forall|k: int| 0 <= k < d.len() ==> is_digit(#[trigger] sp[k]) && d[k] == digit_value(sp[k]),
        decreases hi - i,
    {
        let c = text[i];
        assert(sp[i - lo] == c);
        match digit_of(c) {
            Some(v) => d.push(v),
            None => {
                return None;
            },
        }
        i = i + 1;
    }
    Some(d)
}

/// The digit values of the span of pi's text that holds up to `len`
/// characters from place `from` after the decimal point.
pub open spec fn pi_digits(from: int, len: int) -> Seq<u32> {
    span(pi_decimal_text(PI_PRECISION), from + PI_PREFIX, len).map_values(|c: char| digit_value(c))
}

/// Gets `len` digits of pi from the given place after the decimal point;
/// `None` where pi's text could not be computed or a character of the span
/// is not a digit.
pub fn pi_numbers(from: usize, len: usize) -> (r: Option<Vec<u32>>)
    requires
        from <= usize::MAX - PI_PREFIX,
    ensures
        r matches Some(d) ==> d@ == pi_digits(from as int, len as int),
{
    match pi_text(PI_PRECISION) {
        Some(text) => {
            let r = digits_from(&text, from + PI_PREFIX, len);
            proof {
                if r is Some {
                    assert(r->0@ =~= pi_digits(from as int, len as int));
                }
            }
            r
        },
        None => None,
    }
}

/// Gets `len` digits of pi from a random place among the first 50.
fn randomize_with_pi(rng: &mut rand::rngs::StdRng, len: usize) -> (r: Option<Vec<u32>>)
    ensures
        r matches Some(d) ==> exists|from: int| 0 <= from < PI_OFFSETS && d@ == #[trigger] pi_digits(from, len as int),
{
    let from = random_below(rng, PI_OFFSETS) as usize;
    pi_numbers(from, len)
}

/// Velocity added to a parsed note when it is fitted to the tempo.
pub const VELOCITY_BOOST: u8 = 60;

/// Highest velocity of a note fitted to the tempo.
pub const MAX_FITTED_VELOCITY: u8 = 100;

/// Value `i` is the first of the values nearest to `x`.
pub open spec fn first_nearest(values: Seq<u32>, x: int, i: int) -> bool {
    &&& 0 <= i < values.len()
    &&& forall|j: int|
        0 <= j < values.len() ==> #[trigger] abs_diff(values[i] as int, x) <= abs_diff(values[j] as int, x)
    &&& forall|j: int| 0 <= j < i ==> abs_diff(values[i] as int, x) < #[trigger] abs_diff(values[j] as int, x)
}

pub open spec fn abs_diff(a: int, b: int) -> int {
    if a < b {
        b - a
    } else {
        a - b
    }
}

/// `r` is `v` fitted to the list: `v` itself for an empty list, else the
/// first nearest value of the list plus a digit of pi from one of the first
/// 50 places.
pub open spec fn fitted_to(values: Seq<u32>, v: u32, r: u32) -> bool {
    if values.len() == 0 {
        r == v
    } else {
        exists|i: int, from: int|
            #![trigger values[i], pi_digits(from, 1)]
            first_nearest(values, v as int, i) && 0 <= from < PI_OFFSETS && pi_digits(from, 1).len() == 1 && r
                == values[i] + pi_digits(from, 1)[0]
    }
}

/// How far apart two values are.
fn distance(v: u32, x: u32) -> (d: u32)
    ensures
        d == abs_diff(v as int, x as int),
{
    if v < x {
        x - v
    } else {
        v - x
    }
}

/// The index of the first value nearest to `x`, `None` for an empty list.
fn nearest(values: &Vec<u32>, x: u32) -> (r: Option<usize>)
    ensures
        r is None <==> values.len() == 0,
        r matches Some(i) ==> first_nearest(values@, x as int, i as int),
{
    if values.len() == 0 {
        return None;
    }
    let mut best: usize = 0;
    let mut best_dist = distance(values[0], x);
    let mut k: usize = 1;
    while k < values.len()
        invariant
            1 <= k <= values.len(),
            best < k,
            best_dist == abs_diff(values[best as int] as int, x as int),
            forall|j: int| 0 <= j < k ==> abs_diff(values[best as int] as int, x as int) <= #[trigger] abs_diff(values[j] as int, x as int),
            forall|j: int| 0 <= j < best ==> abs_diff(values[best as int] as int, x as int) < #[trigger] abs_diff(values[j] as int, x as int),
        decreases values.len() - k,
    {
        let d = distance(values[k], x);
        if d < best_dist {
            best = k;
            best_dist = d;
        }
        k = k + 1;
    }
    Some(best)
}

/// Fits a value to the nearest of the list, plus a random digit of pi;
/// `None` where no digit of pi could be had or the sum overflows.
fn fit_to(rng: &mut rand::rngs::StdRng, values: &Vec<u32>, v: u32) -> (r: Option<u32>)
    ensures
        r matches Some(f) ==> fitted_to(values@, v, f),
{
    match nearest(values, v) {
        None => Some(v),
        Some(i) => match randomize_with_pi(rng, 1) {
            Some(digits) => {
                if digits.len() != 1 {
                    return None;
                }
                match values[i].checked_add(digits[0]) {
                    Some(f) => {
                        proof {
                            let from = choose|from: int| 0 <= from < PI_OFFSETS && digits@ == #[trigger] pi_digits(from, 1);
                            assert(first_nearest(values@, v as int, i as int) && 0 <= from < PI_OFFSETS && pi_digits(from, 1).len() == 1
                                && f == values[i as int] + pi_digits(from, 1)[0]);
                        }
                        Some(f)
                    },
                    None => None,
                }
            },
            None => None,
        },
    }
}

/// Fits a parsed note to the lengths and delays of the tempo: its length
/// and delay each become the nearest of the given ones plus a random digit
/// of pi, and its velocity grows by 60, up to 100. `None` where no digit of
/// pi could be had or a sum overflows.
pub fn fixed_to_tempo(
    rng: &mut rand::rngs::StdRng,
    note: NoteData,
    lengths: &Vec<DeltaTime>,
    delays: &Vec<DeltaTime>,
) -> (r: Option<NoteData>)
    ensures
        r matches Some(n) ==> {
            &&& n.note == note.note
            &&& n.start == note.start
            &&& n.velocity == if note.velocity + VELOCITY_BOOST <= MAX_FITTED_VELOCITY {
                note.velocity + VELOCITY_BOOST
            } else {
                MAX_FITTED_VELOCITY as int
            }
            &&& fitted_to(lengths@, note.length, n.length)
            &&& fitted_to(delays@, note.delay, n.delay)
        },
{
    let length = match fit_to(rng, lengths, note.length) {
        Some(l) => l,
        None => {
            return None;
        },
    };
    let delay = match fit_to(rng, delays, note.delay) {
        Some(d) => d,
        None => {
            return None;
        },
    };
    let boosted = note.velocity as u16 + VELOCITY_BOOST as u16;
    let velocity = if boosted <= MAX_FITTED_VELOCITY as u16 {
        boosted as u8
    } else {
        MAX_FITTED_VELOCITY
    };
    Some(note.clone_with_new_length(length).clone_with_new_delay(delay).clone_with_velocity(velocity))
}

} // verus!
