use vstd::arithmetic::div_mod::{lemma_fundamental_div_mod, lemma_mod_pos_bound};
use vstd::prelude::*;

verus! {

/// A non-negative rational number `num / den`.
#[derive(Clone, Copy, Debug, PartialEq, Eq, Structural)]
pub struct Ratio {
    pub num: u64,
    pub den: u64,
}

/// A note division, as a fraction or multiple of one bar.
#[derive(Clone, Copy, Debug, PartialEq, Eq, Structural)]
pub enum DelayTime {
    _1_32,
    _1_16,
    _1_8,
    _1_4,
    _1_2,
    _1,
    _2,
    _4,
}

/// A timing modifier that scales a note division.
#[derive(Clone, Copy, Debug, PartialEq, Eq, Structural)]
pub enum DelayTiming {
    Dotted,
    Triplet,
    Straight,
}

/// Position of a note division in the list of all of them, shortest first.
pub open spec fn time_index(t: DelayTime) -> nat {
    match t {
        DelayTime::_1_32 => 0,
        DelayTime::_1_16 => 1,
        DelayTime::_1_8 => 2,
        DelayTime::_1_4 => 3,
        DelayTime::_1_2 => 4,
        DelayTime::_1 => 5,
        DelayTime::_2 => 6,
        DelayTime::_4 => 7,
    }
}

/// Length of a note division in bars.
pub open spec fn bars_of(t: DelayTime) -> Ratio {
    match t {
        DelayTime::_1_32 => Ratio { num: 1, den: 32 },
        DelayTime::_1_16 => Ratio { num: 1, den: 16 },
        DelayTime::_1_8 => Ratio { num: 1, den: 8 },
        DelayTime::_1_4 => Ratio { num: 1, den: 4 },
        DelayTime::_1_2 => Ratio { num: 1, den: 2 },
        DelayTime::_1 => Ratio { num: 1, den: 1 },
        DelayTime::_2 => Ratio { num: 2, den: 1 },
        DelayTime::_4 => Ratio { num: 4, den: 1 },
    }
}

/// Length of a note division in beats, with the quarter note as the beat:
/// four beats to the bar.
pub open spec fn beats_of(t: DelayTime) -> Ratio {
    match t {
        DelayTime::_1_32 => Ratio { num: 1, den: 8 },
        DelayTime::_1_16 => Ratio { num: 1, den: 4 },
        DelayTime::_1_8 => Ratio { num: 1, den: 2 },
        DelayTime::_1_4 => Ratio { num: 1, den: 1 },
        DelayTime::_1_2 => Ratio { num: 2, den: 1 },
        DelayTime::_1 => Ratio { num: 4, den: 1 },
        DelayTime::_2 => Ratio { num: 8, den: 1 },
        DelayTime::_4 => Ratio { num: 16, den: 1 },
    }
}

/// The longest note division, in beats.
pub open spec fn max_beats() -> Ratio {
    Ratio { num: 16, den: 1 }
}

/// Position of a timing modifier in the list of all of them.
pub open spec fn timing_index(t: DelayTiming) -> nat {
    match t {
        DelayTiming::Dotted => 0,
        DelayTiming::Triplet => 1,
        DelayTiming::Straight => 2,
    }
}

/// Factor by which a timing modifier scales a note division.
pub open spec fn scale_of(t: DelayTiming) -> Ratio {
    match t {
        DelayTiming::Dotted => Ratio { num: 3, den: 2 },
        DelayTiming::Triplet => Ratio { num: 3, den: 4 },
        DelayTiming::Straight => Ratio { num: 1, den: 1 },
    }
}

/// Whole samples in `beats` beats scaled by `scale`, at `sample_rate` samples
/// per second and a tempo of `bpm_milli / 1000` beats per minute, truncated
/// toward zero.
pub open spec fn samples_in(beats: Ratio, scale: Ratio, sample_rate: int, bpm_milli: int) -> int {
    (beats.num * scale.num * 60 * 1000 * sample_rate) / (beats.den * scale.den * bpm_milli)
}

/// Length in samples of a note division under a timing modifier.
pub open spec fn delay_samples_of(
    time: DelayTime,
    timing: DelayTiming,
    sample_rate: int,
    bpm_milli: int,
) -> int {
    samples_in(beats_of(time), scale_of(timing), sample_rate, bpm_milli)
}

/// Samples that a delay line holds: the longest note division, dotted.
pub open spec fn capacity_of(sample_rate: int, bpm_milli: int) -> int {
    samples_in(max_beats(), scale_of(DelayTiming::Dotted), sample_rate, bpm_milli)
}

fn samples_in_exec(beats: Ratio, scale: Ratio, sample_rate: u32, bpm_milli: u32) -> (r: usize)
    requires
        beats.num <= 16,
        scale.num <= 3,
        1 <= beats.den <= 8,
        1 <= scale.den <= 4,
        bpm_milli > 0,
        samples_in(beats, scale, sample_rate as int, bpm_milli as int) <= usize::MAX,
    ensures
        r == samples_in(beats, scale, sample_rate as int, bpm_milli as int),
{
    let sr = sample_rate as u64;
    let bpm = bpm_milli as u64;
    assert(beats.num * scale.num <= 48) by (nonlinear_arith)
        requires
            beats.num <= 16,
            scale.num <= 3,
    ;
    assert(beats.num * scale.num * 60000 * sr <= 48 * 60000 * 0xffff_ffff) by (nonlinear_arith)
        requires
            beats.num * scale.num <= 48,
            sr <= 0xffff_ffff,
    ;
    assert(1 <= beats.den * scale.den <= 32) by (nonlinear_arith)
        requires
            1 <= beats.den <= 8,
            1 <= scale.den <= 4,
    ;
    assert(1 <= beats.den * scale.den * bpm <= 32 * 0xffff_ffff) by (nonlinear_arith)
        requires
            1 <= beats.den * scale.den <= 32,
            1 <= bpm <= 0xffff_ffff,
    ;
    let n: u64 = beats.num * scale.num * 60000 * sr;
    let d: u64 = beats.den * scale.den * bpm;
    (n / d) as usize
}

/// Length in samples of `time` under `timing`, at `sample_rate` samples per
/// second and `bpm_milli / 1000` beats per minute, truncated toward zero.
pub fn delay_in_samples(time: DelayTime, timing: DelayTiming, sample_rate: u32, bpm_milli: u32) -> (r: usize)
    requires
        bpm_milli > 0,
        delay_samples_of(time, timing, sample_rate as int, bpm_milli as int) <= usize::MAX,
    ensures
        r == delay_samples_of(time, timing, sample_rate as int, bpm_milli as int),
{
    samples_in_exec(time.get_delay_time_in_beats(), timing.get_scale(), sample_rate, bpm_milli)
}

/// Samples needed to hold the longest delay at this sample rate and tempo:
/// the longest note division, dotted.
pub fn max_delay_in_samples(sample_rate: u32, bpm_milli: u32) -> (r: usize)
    requires
        bpm_milli > 0,
        capacity_of(sample_rate as int, bpm_milli as int) <= usize::MAX,
    ensures
        r == capacity_of(sample_rate as int, bpm_milli as int),
{
    samples_in_exec(DelayTime::get_max_in_beats(), DelayTiming::Dotted.get_scale(), sample_rate, bpm_milli)
}

/// Bounds on `q = (n * y) / (d * b)` for a ratio `n / d` of at most `k`:
/// `q * b <= k * y`.
proof fn lemma_quotient_bound(n: int, d: int, y: int, b: int, k: int)
    requires
        0 <= n <= k * d,
        0 < d,
        0 < b,
        0 <= y,
    ensures
        0 <= (n * y) / (d * b),
        ((n * y) / (d * b)) * b <= k * y,
{
    let q = (n * y) / (d * b);
    assert(0 < d * b) by (nonlinear_arith)
        requires
            0 < d,
            0 < b,
    ;
    assert(0 <= n * y) by (nonlinear_arith)
        requires
            0 <= n,
            0 <= y,
    ;
    lemma_fundamental_div_mod(n * y, d * b);
    lemma_mod_pos_bound(n * y, d * b);
    assert(0 <= q) by (nonlinear_arith)
        requires
            n * y == (d * b) * q + (n * y) % (d * b),
            0 <= (n * y) % (d * b) < d * b,
            0 <= n * y,
    ;
    assert(q * b <= k * y) by (nonlinear_arith)
        requires
            n * y == (d * b) * q + (n * y) % (d * b),
            0 <= (n * y) % (d * b),
            n <= k * d,
            0 < d,
            0 <= y,
            0 <= q,
    ;
}

/// Every note division under every timing modifier fits in a delay line
/// sized for this sample rate and tempo. The longest division, dotted, fills
/// it exactly; every other one is strictly shorter wherever an eighth of a
/// beat lasts at least one sample.
pub proof fn delay_fits_capacity(time: DelayTime, timing: DelayTiming, sample_rate: int, bpm_milli: int)
    requires
        0 <= sample_rate,
        0 < bpm_milli,
    ensures
        0 <= delay_samples_of(time, timing, sample_rate, bpm_milli) <= capacity_of(sample_rate, bpm_milli),
        time == DelayTime::_4 && timing == DelayTiming::Dotted ==> delay_samples_of(time, timing, sample_rate, bpm_milli) == capacity_of(sample_rate, bpm_milli),
        !(time == DelayTime::_4 && timing == DelayTiming::Dotted) && bpm_milli <= 480000 * sample_rate ==> delay_samples_of(time, timing, sample_rate, bpm_milli) < capacity_of(sample_rate, bpm_milli),
{
    let y = 60000 * sample_rate;
    let b = bpm_milli;
    let beats = beats_of(time);
    let scale = scale_of(timing);
    let n = beats.num * scale.num;
    let d = beats.den * scale.den;
    let q = delay_samples_of(time, timing, sample_rate, bpm_milli);
    let c = capacity_of(sample_rate, bpm_milli);
    assert(q == (n * y) / (d * b)) by (nonlinear_arith)
        requires
            q == (beats.num * scale.num * 60 * 1000 * sample_rate) / (beats.den * scale.den * bpm_milli),
            n == beats.num * scale.num,
            d == beats.den * scale.den,
            y == 60000 * sample_rate,
            b == bpm_milli,
    ;
    assert(max_beats().num == 16 && max_beats().den == 1);
    assert(scale_of(DelayTiming::Dotted).num == 3 && scale_of(DelayTiming::Dotted).den == 2);
    assert(c == (16 * 3 * 60 * 1000 * sample_rate) / (1 * 2 * bpm_milli));
    assert(16 * 3 * 60 * 1000 * sample_rate == 48 * y) by (nonlinear_arith)
        requires
            y == 60000 * sample_rate,
    ;
    assert(c == (48 * y) / (2 * b));
    lemma_quotient_bound(48, 2, y, b, 24);
    lemma_fundamental_div_mod(48 * y, 2 * b);
    lemma_mod_pos_bound(48 * y, 2 * b);
    assert(24 * y < (c + 1) * b) by (nonlinear_arith)
        requires
            48 * y == (2 * b) * c + (48 * y) % (2 * b),
            (48 * y) % (2 * b) < 2 * b,
    ;
    assert(n <= 24 * d && 0 < d && (n <= 16 * d || (time == DelayTime::_4 && timing == DelayTiming::Dotted))) by {
        match time {
            DelayTime::_1_32 => {},
            DelayTime::_1_16 => {},
            DelayTime::_1_8 => {},
            DelayTime::_1_4 => {},
            DelayTime::_1_2 => {},
            DelayTime::_1 => {},
            DelayTime::_2 => {},
            DelayTime::_4 => {},
        }
    }
    lemma_quotient_bound(n, d, y, b, 24);
    assert(q <= c) by (nonlinear_arith)
        requires
            q * b <= 24 * y,
            24 * y < (c + 1) * b,
            0 < b,
    ;
    if !(time == DelayTime::_4 && timing == DelayTiming::Dotted) && b <= 8 * y {
        lemma_quotient_bound(n, d, y, b, 16);
        assert(q < c) by (nonlinear_arith)
            requires
                q * b <= 16 * y,
                24 * y < (c + 1) * b,
                b <= 8 * y,
                0 < b,
        ;
    }
}

impl DelayTime {
    /// Display names of the note divisions, in index order.
    pub fn variants() -> (r: &'static [&'static str])
        ensures
            r@ == seq!["1/32", "1/16", "1/8", "1/4", "1/2", "1", "2", "4"],
    {
        &["1/32", "1/16", "1/8", "1/4", "1/2", "1", "2", "4"]
    }

    /// Stable identifiers of the note divisions, in index order.
    pub fn ids() -> (r: Option<&'static [&'static str]>)
        ensures
            r is Some,
            r->0@ == seq!["1/32", "1/16", "1/8", "1/4", "1/2", "1", "2", "4"],
    {
        Some(&["1/32", "1/16", "1/8", "1/4", "1/2", "1", "2", "4"])
    }

    pub fn to_index(self) -> (r: usize)
        ensures
            r == time_index(self),
    {
        match self {
            DelayTime::_1_32 => 0,
            DelayTime::_1_16 => 1,
            DelayTime::_1_8 => 2,
            DelayTime::_1_4 => 3,
            DelayTime::_1_2 => 4,
            DelayTime::_1 => 5,
            DelayTime::_2 => 6,
            DelayTime::_4 => 7,
        }
    }

    /// The note division at `index`; a quarter note for an index past the end.
    pub fn from_index(index: usize) -> (r: Self)
        ensures
            index < 8 ==> time_index(r) == index,
            index >= 8 ==> r == DelayTime::_1_4,
    {
        match index {
            0 => DelayTime::_1_32,
            1 => DelayTime::_1_16,
            2 => DelayTime::_1_8,
            3 => DelayTime::_1_4,
            4 => DelayTime::_1_2,
            5 => DelayTime::_1,
            6 => DelayTime::_2,
            7 => DelayTime::_4,
            _ => DelayTime::_1_4,
        }
    }

    pub fn get_delay_time_in_bars(&self) -> (r: Ratio)
        ensures
            r == bars_of(*self),
    {
        match self {
            DelayTime::_1_32 => Ratio { num: 1, den: 32 },
            DelayTime::_1_16 => Ratio { num: 1, den: 16 },
            DelayTime::_1_8 => Ratio { num: 1, den: 8 },
            DelayTime::_1_4 => Ratio { num: 1, den: 4 },
            DelayTime::_1_2 => Ratio { num: 1, den: 2 },
            DelayTime::_1 => Ratio { num: 1, den: 1 },
            DelayTime::_2 => Ratio { num: 2, den: 1 },
            DelayTime::_4 => Ratio { num: 4, den: 1 },
        }
    }

    pub fn get_delay_time_in_beats(&self) -> (r: Ratio)
        ensures
            r == beats_of(*self),
    {
        match self {
            DelayTime::_1_32 => Ratio { num: 1, den: 8 },
            DelayTime::_1_16 => Ratio { num: 1, den: 4 },
            DelayTime::_1_8 => Ratio { num: 1, den: 2 },
            DelayTime::_1_4 => Ratio { num: 1, den: 1 },
            DelayTime::_1_2 => Ratio { num: 2, den: 1 },
            DelayTime::_1 => Ratio { num: 4, den: 1 },
            DelayTime::_2 => Ratio { num: 8, den: 1 },
            DelayTime::_4 => Ratio { num: 16, den: 1 },
        }
    }

    pub fn get_max_in_beats() -> (r: Ratio)
        ensures
            r == max_beats(),
    {
        Ratio { num: 16, den: 1 }
    }
}

impl DelayTiming {
    /// Display names of the timing modifiers, in index order.
    pub fn variants() -> (r: &'static [&'static str])
        ensures
            r@ == seq!["Dotted", "Triplet", "Straight"],
    {
        &["Dotted", "Triplet", "Straight"]
    }

    /// Stable identifiers of the timing modifiers, in index order.
    pub fn ids() -> (r: Option<&'static [&'static str]>)
        ensures
            r is Some,
            r->0@ == seq!["dotted", "triplet", "straight"],
    {
        Some(&["dotted", "triplet", "straight"])
    }

    pub fn to_index(self) -> (r: usize)
        ensures
            r == timing_index(self),
    {
        match self {
            DelayTiming::Dotted => 0,
            DelayTiming::Triplet => 1,
            DelayTiming::Straight => 2,
        }
    }

    /// The timing modifier at `index`; straight for an index past the end.
    pub fn from_index(index: usize) -> (r: Self)
        ensures
            index < 3 ==> timing_index(r) == index,
            index >= 3 ==> r == DelayTiming::Straight,
    {
        match index {
            0 => DelayTiming::Dotted,
            1 => DelayTiming::Triplet,
            2 => DelayTiming::Straight,
            _ => DelayTiming::Straight,
        }
    }

    /// The factor by which this modifier scales a note division.
    pub fn get_scale(&self) -> (r: Ratio)
        ensures
            r == scale_of(*self),
    {
        match self {
            DelayTiming::Dotted => Ratio { num: 3, den: 2 },
            DelayTiming::Triplet => Ratio { num: 3, den: 4 },
            DelayTiming::Straight => Ratio { num: 1, den: 1 },
        }
    }
}

} // verus!
