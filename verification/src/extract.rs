use vstd::prelude::*;

use crate::error::TapeError;
use crate::pulse::spec_bit;
use crate::tone::generate_pulse;
use crate::tone::generate_pulse_high;
use crate::tone::generate_pulse_low;
use crate::tone::generate_pure_tone;
use crate::tone::generate_silence;
use crate::tone::spec_pulse_wave_at;
use crate::tone::spec_pure_tone;
use crate::tone::spec_silence;

verus! {

/// The 16-bit little-endian value stored at offset `j`.
pub open spec fn spec_u16_at(data: Seq<u8>, j: int) -> int {
    data[j] + 256 * data[j + 1]
}

/// Where the walk stands after a pulse-sequence body of `bl` bytes that
/// began at `j`: pulses are read two bytes at a time, so an odd body
/// length drags the position one byte past the declared end.
pub open spec fn spec_pulse_seq_end(j: int, bl: int) -> int {
    j + bl + bl % 2
}

/// Whether the tone-block walk that starts at offset `i` only ever reads
/// in bounds: every block prefix (two length bytes and a type byte) is
/// complete, every pure-tone block carries its four parameter bytes,
/// every pulse pair and every data byte lies inside the buffer, and the
/// same holds from wherever each block hands the walk on.
pub open spec fn spec_tone_wf(data: Seq<u8>, i: int) -> bool
    decreases data.len() - i when 0 <= i
{
    if i >= data.len() {
        true
    } else if i + 2 >= data.len() {
        false
    } else {
        let bl = spec_u16_at(data, i);
        let bt = data[i + 2];
        let j = i + 3;
        if bt == 0x10 {
            &&& j + 3 < data.len()
            &&& (j + 4 >= data.len() || spec_tone_wf(data, j + 4))
        } else if bt == 0x11 {
            let e = spec_pulse_seq_end(j, bl);
            &&& (bl == 0 || e <= data.len())
            &&& (e >= data.len() || spec_tone_wf(data, e))
        } else if bt == 0x12 {
            &&& j + bl <= data.len()
            &&& (j + bl >= data.len() || spec_tone_wf(data, j + bl))
        } else {
            j + bl >= data.len() || spec_tone_wf(data, j + bl)
        }
    }
}

/// The samples of a sequence-of-pulses body: one 1500 Hz pulse per
/// two-byte duration, each followed by five milliseconds of silence.
pub open spec fn spec_pulse_seq_wave(data: Seq<u8>, j: int, end: int) -> Seq<i16>
    decreases end + 1 - j,
{
    if j >= end {
        Seq::empty()
    } else {
        spec_pulse_wave_at(spec_u16_at(data, j) as u64, 1500) + spec_silence(5)
            + spec_pulse_seq_wave(data, j + 2, end)
    }
}

/// The samples of the first `k` bits of one data byte, least-significant
/// bit first: thirty milliseconds of 2500 Hz pulse for a set bit,
/// thirty milliseconds of silence for a clear one.
pub open spec fn spec_bits_wave_upto(byte: u8, k: int) -> Seq<i16>
    decreases k,
{
    if k <= 0 {
        Seq::empty()
    } else {
        spec_bits_wave_upto(byte, k - 1) + if spec_bit(byte, (k - 1) as u8) {
            spec_pulse_wave_at(30, 2500)
        } else {
            spec_silence(30)
        }
    }
}

/// The samples of a standard data body: every byte's eight bits in order.
pub open spec fn spec_data_bits_wave(data: Seq<u8>, j: int, end: int) -> Seq<i16>
    decreases end - j,
{
    if j >= end {
        Seq::empty()
    } else {
        spec_bits_wave_upto(data[j], 8) + spec_data_bits_wave(data, j + 1, end)
    }
}

/// The whole sample train that the tone-block walk starting at `i`
/// synthesizes: pure-tone blocks, pulse sequences and data blocks each
/// contribute their wave, any other block type contributes nothing and
/// is skipped over.
pub open spec fn spec_extract_wave(data: Seq<u8>, i: int) -> Seq<i16>
    decreases data.len() - i when 0 <= i
{
    if i >= data.len() || i + 2 >= data.len() {
        Seq::empty()
    } else {
        let bl = spec_u16_at(data, i);
        let bt = data[i + 2];
        let j = i + 3;
        if bt == 0x10 {
            if j + 3 < data.len() {
                spec_pure_tone(spec_u16_at(data, j) as u64) + if j + 4 >= data.len() {
                    Seq::empty()
                } else {
                    spec_extract_wave(data, j + 4)
                }
            } else {
                Seq::empty()
            }
        } else if bt == 0x11 {
            let e = spec_pulse_seq_end(j, bl);
            spec_pulse_seq_wave(data, j, j + bl) + if e >= data.len() {
                Seq::empty()
            } else {
                spec_extract_wave(data, e)
            }
        } else if bt == 0x12 {
            if j + bl <= data.len() {
                spec_data_bits_wave(data, j, j + bl) + if j + bl >= data.len() {
                    Seq::empty()
                } else {
                    spec_extract_wave(data, j + bl)
                }
            } else {
                Seq::empty()
            }
        } else {
            if j + bl >= data.len() {
                Seq::empty()
            } else {
                spec_extract_wave(data, j + bl)
            }
        }
    }
}

/// Appends every sample of `src` to `dst` in order.
fn append_samples(dst: &mut Vec<i16>, src: &Vec<i16>)
    ensures
        final(dst)@ == old(dst)@ + src@,
{
    proof {
        assert(dst@ =~= dst@ + src@.subrange(0, 0));
    }
    let mut t: usize = 0;
    while t < src.len()
        invariant
            t <= src@.len(),
            dst@ == old(dst)@ + src@.subrange(0, t as int),
        decreases src@.len() - t,
    {
        dst.push(src[t]);
        t = t + 1;
        proof {
            assert(dst@ =~= old(dst)@ + src@.subrange(0, t as int));
        }
    }
    proof {
        assert(src@.subrange(0, src@.len() as int) =~= src@);
    }
}

/// Walks a tone-block container and synthesizes its whole sample train.
/// A container that ends mid-block — a cut block prefix, a pure-tone
/// block missing its parameter bytes, or a pulse or data body running
/// past the end of the buffer — fails with `UnexpectedEndOfInput` and
/// returns no partial result; a complete walk that produced no samples
/// yields `None`.
#[verifier::rlimit(100)]
pub fn extract_audio_data(tap_data: &[u8]) -> (r: Result<Option<Vec<i16>>, TapeError>)
    requires
        tap_data@.len() + 70000 < usize::MAX,
    ensures
        match r {
            Ok(Some(v)) => {
                &&& spec_tone_wf(tap_data@, 0)
                &&& v@ == spec_extract_wave(tap_data@, 0)
                &&& v@.len() > 0
            },
            Ok(None) => spec_tone_wf(tap_data@, 0) && spec_extract_wave(tap_data@, 0).len()
                == 0,
            Err(e) => !spec_tone_wf(tap_data@, 0) && e == TapeError::UnexpectedEndOfInput,
        },
{
    let ghost data = tap_data@;
    let mut audio: Vec<i16> = Vec::new();
    let mut i: usize = 0;
    proof {
        assert(audio@ + spec_extract_wave(data, 0) =~= spec_extract_wave(data, 0));
    }
    while i < tap_data.len()
        invariant
            data == tap_data@,
            data.len() + 70000 < usize::MAX,
            spec_tone_wf(data, 0) == spec_tone_wf(data, i as int),
            i <= data.len() + 70000,
            spec_extract_wave(data, 0) == audio@ + spec_extract_wave(data, i as int),
        decreases data.len() + 70000 - i,
    {
        let ghost i0 = i as int;
        let ghost e0 = spec_extract_wave(data, i0);
        let ghost a0 = audio@;
        if i + 2 >= tap_data.len() {
            // the block prefix itself is cut short
            proof {
                assert(!spec_tone_wf(data, i0));
            }
            return Err(TapeError::UnexpectedEndOfInput);
        }
        let block_length: usize = tap_data[i] as usize + (tap_data[i + 1] as usize) * 256;
        let block_type: u8 = tap_data[i + 2];
        let j: usize = i + 3;
        let ghost bl = spec_u16_at(data, i0);
        proof {
            assert(block_length as int == bl);
        }
        if block_type == 0x10 {
            if j + 3 >= tap_data.len() {
                // the four tone parameter bytes are not all there
                proof {
                    assert(!spec_tone_wf(data, i0));
                }
                return Err(TapeError::UnexpectedEndOfInput);
            }
            let duration_ms: u64 = tap_data[j] as u64 + (tap_data[j + 1] as u64) * 256;
            let pulse_length: u16 = tap_data[j + 2] as u16 + (tap_data[j + 3] as u16) * 256;
            let tone = generate_pure_tone(duration_ms, pulse_length);
            append_samples(&mut audio, &tone);
            i = j + 4;
            proof {
                if i as int >= data.len() {
                    assert(spec_tone_wf(data, i as int));
                }
                assert(spec_tone_wf(data, i0) == spec_tone_wf(data, i as int));
                assert(duration_ms as int == spec_u16_at(data, j as int));
                assert(e0 == spec_pure_tone(duration_ms) + spec_extract_wave(data, i as int));
                assert((a0 + (spec_pure_tone(duration_ms) + spec_extract_wave(data, i as int)))
                    =~= (audio@ + spec_extract_wave(data, i as int)));
            }
        } else if block_type == 0x11 {
            let end_of_block: usize = j + block_length;
            let walk_end: usize = end_of_block + block_length % 2;
            if block_length > 0 && walk_end > tap_data.len() {
                // the last pulse pair of the sequence runs past the end
                proof {
                    assert(walk_end as int == spec_pulse_seq_end(j as int, bl));
                    assert(!spec_tone_wf(data, i0));
                }
                return Err(TapeError::UnexpectedEndOfInput);
            }
            proof {
                assert(walk_end as int == spec_pulse_seq_end(j as int, bl));
            }
            let ghost aa = audio@;
            let mut p: usize = j;
            while p < end_of_block
                invariant
                    data == tap_data@,
                    data.len() + 70000 < usize::MAX,
                    j <= p <= end_of_block + 1,
                    (p - j) % 2 == 0,
                    end_of_block == j + bl,
                    bl == end_of_block - j,
                    bl == 0 || spec_pulse_seq_end(j as int, bl) <= data.len(),
                    aa + spec_pulse_seq_wave(data, j as int, end_of_block as int) == audio@
                        + spec_pulse_seq_wave(data, p as int, end_of_block as int),
                decreases end_of_block + 1 - p,
            {
                proof {
                    let d = p as int - j as int;
                    assert(d % 2 == 0 && d < bl);
                    if d == bl - 1 {
                        assert((bl - 1) % 2 == d % 2);
                        assert(bl % 2 == 1);
                        assert(spec_pulse_seq_end(j as int, bl) == j + bl + 1);
                        assert(p + 1 < data.len());
                    } else {
                        assert(d <= bl - 2);
                        assert(p + 2 <= j + bl);
                        assert(bl > 0);
                        assert(j + bl <= spec_pulse_seq_end(j as int, bl));
                        assert(p + 1 < data.len());
                    }
                }
                let duration: u64 = tap_data[p] as u64 + (tap_data[p + 1] as u64) * 256;
                let pulse = generate_pulse(duration);
                let ghost apre = audio@;
                append_samples(&mut audio, &pulse);
                let sil = generate_silence(5);
                append_samples(&mut audio, &sil);
                let ghost pold = p as int;
                p = p + 2;
                proof {
                    assert(duration as int == spec_u16_at(data, pold));
                    assert(spec_pulse_seq_wave(data, pold, end_of_block as int)
                        == spec_pulse_wave_at(duration, 1500) + spec_silence(5)
                        + spec_pulse_seq_wave(data, p as int, end_of_block as int));
                    assert((apre + spec_pulse_seq_wave(data, pold, end_of_block as int)) =~= (
                    audio@ + spec_pulse_seq_wave(data, p as int, end_of_block as int)));
                }
            }
            proof {
                let d = p as int - j as int;
                assert(d % 2 == 0 && p >= end_of_block && p <= end_of_block + 1);
                if bl % 2 == 0 {
                    assert(p != end_of_block + 1) by {
                        if p == end_of_block + 1 {
                            assert(d == bl + 1);
                            assert(d % 2 == 1);
                        }
                    }
                    assert(p as int == spec_pulse_seq_end(j as int, bl));
                } else {
                    assert(p != end_of_block) by {
                        if p == end_of_block {
                            assert(d == bl);
                            assert(d % 2 == 1);
                        }
                    }
                    assert(p as int == spec_pulse_seq_end(j as int, bl));
                }
                assert(spec_pulse_seq_wave(data, p as int, end_of_block as int)
                    =~= Seq::<i16>::empty());
                assert(aa + spec_pulse_seq_wave(data, j as int, end_of_block as int) =~= audio@);
            }
            i = p;
            proof {
                if i as int >= data.len() {
                    assert(spec_tone_wf(data, i as int));
                }
                assert(spec_tone_wf(data, i0) == spec_tone_wf(data, i as int));
                assert(e0 == spec_pulse_seq_wave(data, j as int, (j + bl) as int)
                    + spec_extract_wave(data, i as int));
                assert((a0 + (spec_pulse_seq_wave(data, j as int, (j + bl) as int)
                    + spec_extract_wave(data, i as int))) =~= (audio@ + spec_extract_wave(
                    data,
                    i as int,
                )));
            }
        } else if block_type == 0x12 {
            let end_of_block: usize = j + block_length;
            if end_of_block > tap_data.len() {
                // the declared data body runs past the end
                proof {
                    assert(!spec_tone_wf(data, i0));
                }
                return Err(TapeError::UnexpectedEndOfInput);
            }
            let ghost aa = audio@;
            let mut p: usize = j;
            while p < end_of_block
                invariant
                    data == tap_data@,
                    j <= p <= end_of_block,
                    end_of_block <= data.len(),
                    aa + spec_data_bits_wave(data, j as int, end_of_block as int) == audio@
                        + spec_data_bits_wave(data, p as int, end_of_block as int),
                decreases end_of_block - p,
            {
                let byte: u8 = tap_data[p];
                let ghost b0 = audio@;
                proof {
                    assert(b0 + spec_bits_wave_upto(byte, 0) =~= b0);
                }
                let mut bit: usize = 0;
                while bit < 8
                    invariant
                        data == tap_data@,
                        bit <= 8,
                        p < data.len(),
                        byte == data[p as int],
                        audio@ == b0 + spec_bits_wave_upto(byte, bit as int),
                    decreases 8 - bit,
                {
                    let is_set: bool = byte & (1u8 << (bit as u8)) != 0;
                    proof {
                        let k = bit as u8;
                        assert(((byte & (1u8 << k)) != 0) <==> (((byte >> k) & 1) == 1))
                            by (bit_vector)
                            requires
                                k < 8,
                        ;
                    }
                    let seg = if is_set {
                        generate_pulse_high(30)
                    } else {
                        generate_pulse_low(30)
                    };
                    let ghost bpre = audio@;
                    append_samples(&mut audio, &seg);
                    bit = bit + 1;
                    proof {
                        assert(spec_bits_wave_upto(byte, bit as int) == spec_bits_wave_upto(
                            byte,
                            bit as int - 1,
                        ) + if spec_bit(byte, (bit - 1) as u8) {
                            spec_pulse_wave_at(30, 2500)
                        } else {
                            spec_silence(30)
                        });
                        assert(audio@ =~= b0 + spec_bits_wave_upto(byte, bit as int));
                    }
                }
                let ghost pold = p as int;
                p = p + 1;
                proof {
                    assert(spec_data_bits_wave(data, pold, end_of_block as int)
                        == spec_bits_wave_upto(data[pold], 8) + spec_data_bits_wave(
                        data,
                        p as int,
                        end_of_block as int,
                    ));
                    assert((b0 + spec_data_bits_wave(data, pold, end_of_block as int)) =~= (
                    audio@ + spec_data_bits_wave(data, p as int, end_of_block as int)));
                }
            }
            proof {
                assert(spec_data_bits_wave(data, p as int, end_of_block as int)
                    =~= Seq::<i16>::empty());
                assert(aa + spec_data_bits_wave(data, j as int, end_of_block as int) =~= audio@);
            }
            i = end_of_block;
            proof {
                if i as int >= data.len() {
                    assert(spec_tone_wf(data, i as int));
                }
                assert(spec_tone_wf(data, i0) == spec_tone_wf(data, i as int));
                assert(e0 == spec_data_bits_wave(data, j as int, (j + bl) as int)
                    + spec_extract_wave(data, i as int));
                assert((a0 + (spec_data_bits_wave(data, j as int, (j + bl) as int)
                    + spec_extract_wave(data, i as int))) =~= (audio@ + spec_extract_wave(
                    data,
                    i as int,
                )));
            }
        } else {
            i = j + block_length;
            proof {
                if i as int >= data.len() {
                    assert(spec_tone_wf(data, i as int));
                }
                assert(spec_tone_wf(data, i0) == spec_tone_wf(data, i as int));
                assert(e0 == spec_extract_wave(data, i as int));
            }
        }
    }
    proof {
        assert(spec_tone_wf(data, i as int));
        assert(spec_extract_wave(data, i as int) =~= Seq::<i16>::empty());
        assert(audio@ + Seq::<i16>::empty() =~= audio@);
    }
    if audio.len() == 0 {
        Ok(None)
    } else {
        Ok(Some(audio))
    }
}

} // verus!
