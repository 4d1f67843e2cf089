use vstd::prelude::*;

verus! {

/// Fills a vector with `n` copies of one amplitude value.
fn push_repeated(v: &mut Vec<i16>, value: i16, n: u64)
    ensures
        final(v)@ == old(v)@ + Seq::new(n as nat, |j: int| value),
{
    let mut i: u64 = 0;
    while i < n
        invariant
            i <= n,
            v@ == old(v)@ + Seq::new(i as nat, |j: int| value),
        decreases n - i,
    {
        v.push(value);
        i = i + 1;
        proof {
            assert(v@ =~= old(v)@ + Seq::new(i as nat, |j: int| value));
        }
    }
}

/// `cycles` full square-wave periods: each one `half` samples at the
/// high amplitude, then `half` samples at the low amplitude.
pub open spec fn spec_square_cycles(hi: i16, lo: i16, half: int, cycles: int) -> Seq<i16>
    decreases cycles,
{
    if cycles <= 0 {
        Seq::empty()
    } else {
        spec_square_cycles(hi, lo, half, cycles - 1) + Seq::new(half as nat, |j: int| hi)
            + Seq::new(half as nat, |j: int| lo)
    }
}

/// A square wave of `num` nominal samples: as many full periods of
/// `2 * half` samples as `num / half` allows, then the remaining
/// `num % half` samples held at the high amplitude.
pub open spec fn spec_square_wave(hi: i16, lo: i16, half: int, num: int) -> Seq<i16> {
    spec_square_cycles(hi, lo, half, num / half) + Seq::new((num % half) as nat, |j: int| hi)
}

/// How many samples a duration in milliseconds spans at the fixed
/// 44100 Hz output rate.
pub open spec fn spec_tone_samples(duration_ms: u64) -> int {
    duration_ms * 44100 / 1000
}

/// The pure-tone wave: a 1500 Hz square wave (half period 14 samples at
/// 44100 Hz) whose amplitudes come from mapping the byte levels 255 and
/// 0 onto the signed 16-bit range.
pub open spec fn spec_pure_tone(duration_ms: u64) -> Seq<i16> {
    spec_square_wave(32512i16, -32768i16, 14, spec_tone_samples(duration_ms))
}

/// A full-scale square wave at the given frequency, `44100 / (2 * f)`
/// samples per half period.
pub open spec fn spec_pulse_wave_at(duration_ms: u64, frequency: u16) -> Seq<i16> {
    spec_square_wave(
        32767i16,
        -32768i16,
        44100int / (2 * frequency as int),
        spec_tone_samples(duration_ms),
    )
}

/// Silence: every sample at amplitude zero.
pub open spec fn spec_silence(duration_ms: u64) -> Seq<i16> {
    Seq::new(spec_tone_samples(duration_ms) as nat, |j: int| 0i16)
}

/// Zero samples for the whole duration at the fixed 44100 Hz rate.
pub fn generate_silence(duration_ms: u64) -> (r: Vec<i16>)
    requires
        duration_ms * 44100 <= u64::MAX,
    ensures
        r@ == spec_silence(duration_ms),
{
    let num_samples: u64 = (duration_ms * 44100) / 1000;
    let mut out: Vec<i16> = Vec::new();
    push_repeated(&mut out, 0, num_samples);
    proof {
        assert(out@ =~= spec_silence(duration_ms));
    }
    out
}

/// A full-scale square wave of the given frequency for the given
/// duration at the fixed 44100 Hz rate. The frequency must leave at
/// least one sample per half period.
pub fn generate_pulse_generic(duration_ms: u64, frequency: u16) -> (r: Vec<i16>)
    requires
        1 <= frequency,
        2 * frequency <= 44100,
        duration_ms * 44100 <= u64::MAX,
    ensures
        r@ == spec_pulse_wave_at(duration_ms, frequency),
{
    let sample_rate: u64 = 44100;
    let num_samples: u64 = (duration_ms * sample_rate) / 1000;
    let half: u64 = sample_rate / (2 * (frequency as u64));
    proof {
        assert(1 <= 44100int / (2 * frequency as int) <= 22050) by (nonlinear_arith)
            requires
                1 <= frequency,
                2 * frequency <= 44100,
        ;
    }
    let cycles: u64 = num_samples / half;
    let mut out: Vec<i16> = Vec::new();
    let mut c: u64 = 0;
    while c < cycles
        invariant
            c <= cycles,
            1 <= half <= 22050,
            half == 44100int / (2 * frequency as int),
            out@ == spec_square_cycles(32767i16, -32768i16, half as int, c as int),
        decreases cycles - c,
    {
        push_repeated(&mut out, 32767, half);
        push_repeated(&mut out, -32768, half);
        c = c + 1;
        proof {
            assert(out@ =~= spec_square_cycles(32767i16, -32768i16, half as int, c as int));
        }
    }
    let rem: u64 = num_samples % half;
    push_repeated(&mut out, 32767, rem);
    proof {
        assert(out@ =~= spec_pulse_wave_at(duration_ms, frequency));
    }
    out
}

/// The 1500 Hz pulse wave used for a pulse of the given duration.
pub fn generate_pulse(duration_ms: u64) -> (r: Vec<i16>)
    requires
        duration_ms * 44100 <= u64::MAX,
    ensures
        r@ == spec_pulse_wave_at(duration_ms, 1500),
{
    generate_pulse_generic(duration_ms, 1500)
}

/// The higher-frequency pulse that stands for a set bit.
pub fn generate_pulse_high(duration_ms: u64) -> (r: Vec<i16>)
    requires
        duration_ms * 44100 <= u64::MAX,
    ensures
        r@ == spec_pulse_wave_at(duration_ms, 2500),
{
    generate_pulse_generic(duration_ms, 2500)
}

/// A clear bit is rendered as silence of the same duration.
pub fn generate_pulse_low(duration_ms: u64) -> (r: Vec<i16>)
    requires
        duration_ms * 44100 <= u64::MAX,
    ensures
        r@ == spec_silence(duration_ms),
{
    generate_silence(duration_ms)
}

/// The pure-tone wave for the given duration. The pulse length field of
/// the tone block is carried to this call but does not shape the wave:
/// the tone is synthesized at the fixed 1500 Hz.
pub fn generate_pure_tone(duration_ms: u64, pulse_length: u16) -> (r: Vec<i16>)
    requires
        duration_ms * 44100 <= u64::MAX,
    ensures
        r@ == spec_pure_tone(duration_ms),
{
    let sample_rate: u64 = 44100;
    let frequency: u64 = 1500;
    let num_samples: u64 = (duration_ms * sample_rate) / 1000;
    let half: u64 = sample_rate / (2 * frequency);
    proof {
        assert(44100int / 3000 == 14) by (nonlinear_arith);
    }
    let cycles: u64 = num_samples / half;
    let mut out: Vec<i16> = Vec::new();
    let mut c: u64 = 0;
    while c < cycles
        invariant
            c <= cycles,
            half == 14,
            out@ == spec_square_cycles(32512i16, -32768i16, 14, c as int),
        decreases cycles - c,
    {
        push_repeated(&mut out, 32512, half);
        push_repeated(&mut out, -32768, half);
        c = c + 1;
        proof {
            assert(out@ =~= spec_square_cycles(32512i16, -32768i16, 14, c as int));
        }
    }
    let rem: u64 = num_samples % half;
    push_repeated(&mut out, 32512, rem);
    proof {
        assert(out@ =~= spec_pure_tone(duration_ms));
    }
    out
}

} // verus!
