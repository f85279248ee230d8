//! Straight-binary samples as voltages.
//!
//! A 16-bit sample read on an input range of full-scale span `W` volts is
//! `raw * W / 65536` volts on a unipolar range and `raw * W / 65536 - W / 2`
//! volts on a bipolar one. Spans are multiples of a quarter volt, so a
//! voltage is held exactly as an integer number of ticks of
//! `1 / TICKS_PER_VOLT` volt.
use vstd::arithmetic::div_mod::lemma_div_multiples_vanish;
use vstd::prelude::*;

verus! {

/// Ticks in one volt: four quarter volts times the 65536 sample steps.
pub const TICKS_PER_VOLT: i64 = 262144;

/// The full-scale span of an input range, in quarter volts: ranges 0 to 3
/// are ±10, ±5, ±2.5 and ±1.25 V, ranges 4 to 6 are 10, 5 and 2.5 V. An
/// unknown range has no span.
pub open spec fn span(range: u8) -> int {
    if range == 0 {
        80
    } else if range == 1 || range == 4 {
        40
    } else if range == 2 || range == 5 {
        20
    } else if range == 3 || range == 6 {
        10
    } else {
        0
    }
}

/// Ranges 0 to 3 are bipolar: their zero sits at half the span.
pub open spec fn is_bipolar(range: u8) -> bool {
    range <= 3
}

/// The ticks subtracted from every reading: half the span on a bipolar range.
pub open spec fn offset(range: u8) -> int {
    if is_bipolar(range) {
        span(range) * 32768
    } else {
        0
    }
}

/// The voltage of a raw sample, in ticks.
pub open spec fn ticks_of(range: u8, raw: int) -> int {
    raw * span(range) - offset(range)
}

/// The voltage of the mean `total / count` of raw samples, in ticks, times
/// `count`: the mean's voltage is this over `count`.
pub open spec fn mean_ticks_scaled(range: u8, total: int, count: int) -> int {
    total * span(range) - offset(range) * count
}

/// The raw sample that reads as `ticks` on `range`.
pub open spec fn raw_of_ticks(range: u8, ticks: int) -> int {
    (ticks + offset(range)) / span(range)
}

/// The span of an input range in quarter volts (0 for an unknown range).
pub fn calc_range_width(range: u8) -> (r: u32)
    ensures
        r == span(range),
{
    match range {
        0 => 80,
        1 | 4 => 40,
        2 | 5 => 20,
        3 | 6 => 10,
        _ => 0,
    }
}

/// The voltage of one raw sample on `range`, in ticks.
pub fn sample_ticks(range: u8, raw: i32) -> (r: i64)
    ensures
        r == ticks_of(range, raw as int),
{
    let width = calc_range_width(range) as i64;
    assert(-0x8000_0000 * 80 <= raw * width <= 0x8000_0000 * 80) by (nonlinear_arith)
        requires
            0 <= width <= 80,
            -0x8000_0000 <= raw < 0x8000_0000,
    ;
    if range > 3 {
        raw as i64 * width
    } else {
        raw as i64 * width - width * 32768
    }
}

/// The voltages of one reading of both channels, in ticks.
pub fn convert_to_voltage(ch1_range: u8, ch2_range: u8, ch1_data: i32, ch2_data: i32) -> (r: (
    i64,
    i64,
))
    ensures
        r.0 == ticks_of(ch1_range, ch1_data as int),
        r.1 == ticks_of(ch2_range, ch2_data as int),
{
    (sample_ticks(ch1_range, ch1_data), sample_ticks(ch2_range, ch2_data))
}

/// Converting a raw sample to a voltage and back gives the sample again, on
/// every supported range.
pub proof fn lemma_round_trip(range: u8, raw: int)
    requires
        range <= 6,
    ensures
        raw_of_ticks(range, ticks_of(range, raw)) == raw,
{
    assert(ticks_of(range, raw) + offset(range) == span(range) * raw) by (nonlinear_arith)
        requires
            ticks_of(range, raw) == raw * span(range) - offset(range),
    ;
    lemma_div_multiples_vanish(raw, span(range));
}

} // verus!
