use tap_audio::Block;
use tap_audio::DecodePolicy;
use tap_audio::FlagEnum;
use tap_audio::PulseConfig;
use tap_audio::PulseEncoder;
use tap_audio::encode_block_audio;
use tap_audio::parse_blocks;

// At 44100 Hz the protocol timing gives round(855 * 44100 / 1e6) = 38
// samples for a clear bit and round(1710 * 44100 / 1e6) = 75 samples for
// a set bit.
const ZERO_PULSE: usize = 38;
const ONE_PULSE: usize = 75;

#[test]
fn single_set_bit_byte_produces_eight_pulses() {
    let encoder = PulseEncoder::new();
    let out = encoder.encode(&[0b0000_0001], 44100);
    // bit 0 is read first (least-significant-bit first): one "one"
    // pulse, then seven "zero" pulses
    assert_eq!(out.len(), ONE_PULSE + 7 * ZERO_PULSE);

    // the set bit's pulse runs at 3000 Hz: sign of sin(2π·3000·s/44100)
    assert_eq!(out[0], -1); // sin(0) is not positive
    for s in 1..8 {
        assert_eq!(out[s], 1);
    }
    for s in 8..15 {
        assert_eq!(out[s], -1);
    }

    // the first clear bit's pulse starts right after, at 1500 Hz
    let base = ONE_PULSE;
    assert_eq!(out[base], -1);
    for s in 1..15 {
        assert_eq!(out[base + s], 1);
    }
    for s in 15..30 {
        assert_eq!(out[base + s], -1);
    }
}

#[test]
fn pulse_counts_follow_bit_values() {
    let encoder = PulseEncoder::new();
    assert_eq!(encoder.encode(&[0x00], 44100).len(), 8 * ZERO_PULSE);
    assert_eq!(encoder.encode(&[0xFF], 44100).len(), 8 * ONE_PULSE);
    assert_eq!(
        encoder.encode(&[0x0F], 44100).len(),
        4 * ONE_PULSE + 4 * ZERO_PULSE
    );
    assert_eq!(
        encoder.encode(&[0xAA, 0x55], 44100).len(),
        8 * ONE_PULSE + 8 * ZERO_PULSE
    );
}

#[test]
fn encoding_twice_yields_identical_samples() {
    let encoder = PulseEncoder::new();
    let payload = [0xC3, 0x00, 0x7E, 0xFF];
    let first = encoder.encode(&payload, 44100);
    let second = encoder.encode(&payload, 44100);
    assert_eq!(first, second);
}

#[test]
fn empty_payload_encodes_to_no_samples() {
    let encoder = PulseEncoder::new();
    assert_eq!(encoder.encode(&[], 44100).len(), 0);
}

#[test]
fn odd_sample_rates_still_encode_totally() {
    let encoder = PulseEncoder::new();
    // round(855 * 44101 / 1e6) = 38, round(1710 * 44101 / 1e6) = 75
    assert_eq!(encoder.encode(&[0x01], 44101).len(), 75 + 7 * 38);
    // a deliberately awkward rate: round(855 * 7919 / 1e6) = 7,
    // round(1710 * 7919 / 1e6) = 14
    assert_eq!(encoder.encode(&[0x01], 7919).len(), 14 + 7 * 7);
}

#[test]
fn custom_timing_changes_the_pulse_lengths() {
    let encoder = PulseEncoder::with_config(PulseConfig {
        freq_zero: 1000,
        freq_one: 2000,
        duration_zero_us: 1000,
        duration_one_us: 2000,
    });
    // 1000 µs at 44100 Hz is 44 samples, 2000 µs is 88
    assert_eq!(encoder.encode(&[0x00], 44100).len(), 8 * 44);
    assert_eq!(encoder.encode(&[0xFF], 44100).len(), 8 * 88);
}

#[test]
fn container_to_samples_pipeline() {
    // a data block whose two payload bytes hold twelve set and four
    // clear bits, walked and re-synthesized end to end
    let container = vec![0x03, 0x00, 0xFF, 0xF0, 0xFF];
    let blocks = parse_blocks(container, DecodePolicy::Lenient).unwrap();
    assert_eq!(blocks.len(), 1);
    let samples = encode_block_audio(&blocks[0], 44100).unwrap();
    assert_eq!(samples.len(), 12 * ONE_PULSE + 4 * ZERO_PULSE);
    // 0xF0 is encoded first, least-significant bit first: four zero
    // pulses, then four one pulses
    assert_eq!(
        samples[..4 * ZERO_PULSE],
        PulseEncoder::new().encode(&[0xF0], 44100)[..4 * ZERO_PULSE]
    );
}

#[test]
fn block_audio_encodes_only_payload_carriers() {
    let with_payload = Block {
        len_block: 2,
        flag: FlagEnum::Data,
        header: None,
        payload: Some(vec![0x01]),
    };
    let samples = encode_block_audio(&with_payload, 44100).unwrap();
    assert_eq!(samples.len(), ONE_PULSE + 7 * ZERO_PULSE);

    let without_payload = Block {
        len_block: 3,
        flag: FlagEnum::Header,
        header: None,
        payload: None,
    };
    assert!(encode_block_audio(&without_payload, 44100).is_none());
}
