use vstd::prelude::*;

use crate::block::Block;

verus! {

/// Timing of the square-wave bit encoding: the protocol frequency and
/// duration used for a clear bit and for a set bit. Kept as an explicit
/// value handed to the encoder, not as ambient state, so callers can
/// vary the timing.
#[derive(Clone, Copy, Debug, PartialEq, Eq, Structural)]
pub struct PulseConfig {
    pub freq_zero: u32,
    pub freq_one: u32,
    pub duration_zero_us: u32,
    pub duration_one_us: u32,
}

/// The protocol's standard timing: a clear bit is 855 µs at 1500 Hz, a
/// set bit 1710 µs at 3000 Hz.
pub open spec fn spec_standard_config() -> PulseConfig {
    PulseConfig { freq_zero: 1500, freq_one: 3000, duration_zero_us: 855, duration_one_us: 1710 }
}

/// How many samples one bit-pulse spans: the duration in microseconds
/// scaled by the sample rate, rounded to the nearest sample (half up).
pub open spec fn spec_pulse_len(duration_us: u32, rate: u32) -> int {
    (duration_us * rate + 500000) / 1000000
}

/// Sample `s` of a hard square wave of the given frequency: the sign of
/// `sin(2π · freq · s / rate)`, `1` where the sine is strictly positive
/// and `-1` elsewhere. The phase restarts at `s = 0` for every pulse;
/// the small discontinuity at bit boundaries is an accepted artifact of
/// this encoding.
pub open spec fn spec_sample(freq: u32, rate: u32, s: int) -> i16 {
    let m = (freq * s) % (rate as int);
    if 0 < m && 2 * m < rate {
        1i16
    } else {
        (-1) as i16
    }
}

/// The full sample train of one bit-pulse.
pub open spec fn spec_pulse_wave(freq: u32, duration_us: u32, rate: u32) -> Seq<i16> {
    Seq::new(spec_pulse_len(duration_us, rate) as nat, |s: int| spec_sample(freq, rate, s))
}

/// Bit `i` of a byte, bits taken least-significant first.
pub open spec fn spec_bit(byte: u8, i: u8) -> bool {
    (byte >> i) & 1 == 1
}

/// The pulse that one bit selects: set bits use the "one" timing, clear
/// bits the "zero" timing.
pub open spec fn spec_bit_wave(bit: bool, cfg: PulseConfig, rate: u32) -> Seq<i16> {
    if bit {
        spec_pulse_wave(cfg.freq_one, cfg.duration_one_us, rate)
    } else {
        spec_pulse_wave(cfg.freq_zero, cfg.duration_zero_us, rate)
    }
}

/// The concatenated pulses of the first `k` bits of a byte, in
/// least-significant-first order.
pub open spec fn spec_byte_wave_upto(byte: u8, cfg: PulseConfig, rate: u32, k: int) -> Seq<i16>
    decreases k,
{
    if k <= 0 {
        Seq::empty()
    } else {
        spec_byte_wave_upto(byte, cfg, rate, k - 1) + spec_bit_wave(
            spec_bit(byte, (k - 1) as u8),
            cfg,
            rate,
        )
    }
}

/// The eight concatenated bit-pulses of one byte.
pub open spec fn spec_byte_wave(byte: u8, cfg: PulseConfig, rate: u32) -> Seq<i16> {
    spec_byte_wave_upto(byte, cfg, rate, 8)
}

/// The concatenated waves of the first `i` payload bytes.
pub open spec fn spec_wave_upto(payload: Seq<u8>, cfg: PulseConfig, rate: u32, i: int) -> Seq<i16>
    decreases i,
{
    if i <= 0 {
        Seq::empty()
    } else {
        spec_wave_upto(payload, cfg, rate, i - 1) + spec_byte_wave(payload[i - 1], cfg, rate)
    }
}

/// The whole sample train of a payload: every byte's bits in order,
/// least-significant bit first, with no gap between pulses.
pub open spec fn spec_wave(payload: Seq<u8>, cfg: PulseConfig, rate: u32) -> Seq<i16> {
    spec_wave_upto(payload, cfg, rate, payload.len() as int)
}

/// Turns byte payloads into square-wave sample trains under one timing
/// configuration. The encoder is total: any payload and any positive
/// sample rate yield a sample sequence, never an error.
pub struct PulseEncoder {
    pub config: PulseConfig,
}

impl PulseEncoder {
    /// An encoder with the protocol's standard timing.
    pub fn new() -> (e: PulseEncoder)
        ensures
            e.config == spec_standard_config(),
    {
        PulseEncoder {
            config: PulseConfig {
                freq_zero: 1500,
                freq_one: 3000,
                duration_zero_us: 855,
                duration_one_us: 1710,
            },
        }
    }

    /// An encoder with caller-chosen timing.
    pub fn with_config(config: PulseConfig) -> (e: PulseEncoder)
        ensures
            e.config == config,
    {
        PulseEncoder { config }
    }

    /// The amplitude samples encoding `payload`, bit by bit. Callers
    /// reject a zero sample rate before calling; the encoder has no
    /// error paths of its own.
    pub fn encode(&self, payload: &[u8], sample_rate: u32) -> (r: Vec<i16>)
        requires
            sample_rate >= 1,
        ensures
            r@ == spec_wave(payload@, self.config, sample_rate),
    {
        let cfg = self.config;
        let mut out: Vec<i16> = Vec::new();
        let mut i: usize = 0;
        while i < payload.len()
            invariant
                sample_rate >= 1,
                cfg == self.config,
                i <= payload@.len(),
                out@ == spec_wave_upto(payload@, cfg, sample_rate, i as int),
            decreases payload@.len() - i,
        {
            let byte = payload[i];
            let mut k: usize = 0;
            while k < 8
                invariant
                    sample_rate >= 1,
                    cfg == self.config,
                    k <= 8,
                    i < payload@.len(),
                    byte == payload@[i as int],
                    out@ == spec_wave_upto(payload@, cfg, sample_rate, i as int)
                        + spec_byte_wave_upto(byte, cfg, sample_rate, k as int),
                decreases 8 - k,
            {
                let bit_set: bool = (byte >> (k as u8)) & 1 == 1;
                let (freq, duration_us): (u32, u32) = if bit_set {
                    (cfg.freq_one, cfg.duration_one_us)
                } else {
                    (cfg.freq_zero, cfg.duration_zero_us)
                };
                proof {
                    assert((duration_us as int) * (sample_rate as int) + 500000
                        < 0x10000000000000000) by (nonlinear_arith)
                        requires
                            duration_us < 0x100000000,
                            sample_rate < 0x100000000,
                    ;
                }
                let count: u64 = ((duration_us as u64) * (sample_rate as u64) + 500000) / 1000000;
                let ghost pre = out@;
                let mut s: u64 = 0;
                while s < count
                    invariant
                        sample_rate >= 1,
                        s <= count,
                        count == spec_pulse_len(duration_us, sample_rate),
                        pre == spec_wave_upto(payload@, cfg, sample_rate, i as int)
                            + spec_byte_wave_upto(byte, cfg, sample_rate, k as int),
                        out@ == pre + Seq::new(
                            s as nat,
                            |j: int| spec_sample(freq, sample_rate, j),
                        ),
                    decreases count - s,
                {
                    proof {
                        assert((freq as int) * (s as int) < 0x100000000000000000000000000000000)
                            by (nonlinear_arith)
                            requires
                                freq < 0x100000000,
                                s < 0x10000000000000000,
                        ;
                    }
                    let m: u128 = ((freq as u128) * (s as u128)) % (sample_rate as u128);
                    let v: i16 = if m > 0 && 2 * m < (sample_rate as u128) {
                        1
                    } else {
                        -1
                    };
                    proof {
                        assert(v == spec_sample(freq, sample_rate, s as int));
                    }
                    out.push(v);
                    s = s + 1;
                    proof {
                        assert(out@ =~= pre + Seq::new(
                            s as nat,
                            |j: int| spec_sample(freq, sample_rate, j),
                        ));
                    }
                }
                proof {
                    assert(Seq::new(count as nat, |j: int| spec_sample(freq, sample_rate, j))
                        =~= spec_pulse_wave(freq, duration_us, sample_rate));
                    assert(spec_pulse_wave(freq, duration_us, sample_rate) == spec_bit_wave(
                        spec_bit(byte, k as u8),
                        cfg,
                        sample_rate,
                    ));
                    assert(out@ =~= spec_wave_upto(payload@, cfg, sample_rate, i as int)
                        + spec_byte_wave_upto(byte, cfg, sample_rate, k as int + 1));
                }
                k = k + 1;
            }
            proof {
                assert(out@ =~= spec_wave_upto(payload@, cfg, sample_rate, i as int + 1));
            }
            i = i + 1;
        }
        out
    }
}

/// How many of the first `k` bits of a byte are set.
pub open spec fn spec_ones_upto(byte: u8, k: int) -> int
    decreases k,
{
    if k <= 0 {
        0
    } else {
        spec_ones_upto(byte, k - 1) + if spec_bit(byte, (k - 1) as u8) {
            1int
        } else {
            0int
        }
    }
}

/// How many bits are set across the first `i` bytes of a payload.
pub open spec fn spec_ones(payload: Seq<u8>, i: int) -> int
    decreases i,
{
    if i <= 0 {
        0
    } else {
        spec_ones(payload, i - 1) + spec_ones_upto(payload[i - 1], 8)
    }
}

proof fn lemma_byte_wave_len(byte: u8, cfg: PulseConfig, rate: u32, k: int)
    requires
        0 <= k <= 8,
    ensures
        spec_byte_wave_upto(byte, cfg, rate, k).len() == spec_ones_upto(byte, k)
            * spec_pulse_len(cfg.duration_one_us, rate) + (k - spec_ones_upto(byte, k))
            * spec_pulse_len(cfg.duration_zero_us, rate),
    decreases k,
{
    let l1 = spec_pulse_len(cfg.duration_one_us, rate);
    let l0 = spec_pulse_len(cfg.duration_zero_us, rate);
    assert(0 <= (cfg.duration_one_us as int) * (rate as int)) by (nonlinear_arith);
    assert(0 <= (cfg.duration_zero_us as int) * (rate as int)) by (nonlinear_arith);
    assert(0 <= l1 && 0 <= l0);
    if k > 0 {
        lemma_byte_wave_len(byte, cfg, rate, k - 1);
        let ones = spec_ones_upto(byte, k - 1);
        let b = spec_bit(byte, (k - 1) as u8);
        assert(spec_bit_wave(b, cfg, rate).len() == if b {
            l1
        } else {
            l0
        });
        assert(spec_byte_wave_upto(byte, cfg, rate, k).len() == spec_byte_wave_upto(
            byte,
            cfg,
            rate,
            k - 1,
        ).len() + spec_bit_wave(b, cfg, rate).len());
        assert(spec_ones_upto(byte, k) == ones + if b {
            1int
        } else {
            0int
        });
        if b {
            assert((ones + 1) * l1 == ones * l1 + l1) by (nonlinear_arith);
        } else {
            assert((k - ones) * l0 == (k - 1 - ones) * l0 + l0) by (nonlinear_arith);
        }
    } else {
        assert(spec_byte_wave_upto(byte, cfg, rate, k).len() == 0);
        assert(spec_ones_upto(byte, k) == 0);
    }
}

proof fn lemma_wave_len_upto(payload: Seq<u8>, cfg: PulseConfig, rate: u32, i: int)
    requires
        0 <= i <= payload.len(),
    ensures
        spec_wave_upto(payload, cfg, rate, i).len() == spec_ones(payload, i) * spec_pulse_len(
            cfg.duration_one_us,
            rate,
        ) + (8 * i - spec_ones(payload, i)) * spec_pulse_len(cfg.duration_zero_us, rate),
    decreases i,
{
    let l1 = spec_pulse_len(cfg.duration_one_us, rate);
    let l0 = spec_pulse_len(cfg.duration_zero_us, rate);
    assert(0 <= (cfg.duration_one_us as int) * (rate as int)) by (nonlinear_arith);
    assert(0 <= (cfg.duration_zero_us as int) * (rate as int)) by (nonlinear_arith);
    assert(0 <= l1 && 0 <= l0);
    if i > 0 {
        lemma_wave_len_upto(payload, cfg, rate, i - 1);
        lemma_byte_wave_len(payload[i - 1], cfg, rate, 8);
        let a = spec_ones(payload, i - 1);
        let b = spec_ones_upto(payload[i - 1], 8);
        assert(spec_wave_upto(payload, cfg, rate, i).len() == spec_wave_upto(
            payload,
            cfg,
            rate,
            i - 1,
        ).len() + spec_byte_wave(payload[i - 1], cfg, rate).len());
        assert(spec_byte_wave(payload[i - 1], cfg, rate).len() == b * l1 + (8 - b) * l0);
        let o = spec_ones(payload, i);
        assert(o == a + b);
        assert(o * l1 + (8 * i - o) * l0 == (a * l1 + (8 * (i - 1) - a) * l0) + (b * l1 + (8 - b)
            * l0)) by (nonlinear_arith)
            requires
                o == a + b,
        ;
        assert(spec_wave_upto(payload, cfg, rate, i - 1).len() == a * l1 + (8 * (i - 1) - a)
            * l0);
        assert(spec_wave_upto(payload, cfg, rate, i).len() == o * l1 + (8 * i - o) * l0);
    } else {
        assert(spec_wave_upto(payload, cfg, rate, i).len() == 0);
        let o = spec_ones(payload, i);
        assert(o == 0);
        assert(o * l1 == 0 && (8 * i - o) * l0 == 0) by (nonlinear_arith)
            requires
                o == 0,
                i == 0,
        ;
    }
}

/// The encoded length is a function of the payload's bit values and the
/// sample rate alone: every set bit contributes exactly one "one" pulse
/// of samples and every clear bit exactly one "zero" pulse, whatever
/// the sample rate's divisibility.
pub proof fn lemma_wave_length(payload: Seq<u8>, cfg: PulseConfig, rate: u32)
    ensures
        spec_wave(payload, cfg, rate).len() == spec_ones(payload, payload.len() as int)
            * spec_pulse_len(cfg.duration_one_us, rate) + (8 * payload.len() - spec_ones(
            payload,
            payload.len() as int,
        )) * spec_pulse_len(cfg.duration_zero_us, rate),
{
    lemma_wave_len_upto(payload, cfg, rate, payload.len() as int);
}

/// Encoding is deterministic: any two sample trains produced from the
/// same payload under the same timing and sample rate are identical.
pub proof fn lemma_encode_deterministic(
    r1: Seq<i16>,
    r2: Seq<i16>,
    payload: Seq<u8>,
    cfg: PulseConfig,
    rate: u32,
)
    requires
        r1 == spec_wave(payload, cfg, rate),
        r2 == spec_wave(payload, cfg, rate),
    ensures
        r1 == r2,
{
}

/// The sample train of a block's payload, if it carries one, under the
/// protocol's standard timing: a Header block's companion data or a Data
/// block's raw payload is encoded; an unsupported block yields nothing.
pub fn encode_block_audio(block: &Block, sample_rate: u32) -> (r: Option<Vec<i16>>)
    requires
        sample_rate >= 1,
    ensures
        match block.payload {
            Some(p) => r matches Some(v) && v@ == spec_wave(
                p@,
                spec_standard_config(),
                sample_rate,
            ),
            None => r is None,
        },
{
    match &block.payload {
        Some(p) => {
            let encoder = PulseEncoder::new();
            Some(encoder.encode(p.as_slice(), sample_rate))
        },
        None => None,
    }
}

} // verus!
