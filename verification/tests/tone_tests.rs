use tap_audio::TapeError;
use tap_audio::extract_audio_data;
use tap_audio::generate_pulse;
use tap_audio::generate_pulse_generic;
use tap_audio::generate_pulse_high;
use tap_audio::generate_pulse_low;
use tap_audio::generate_pure_tone;
use tap_audio::generate_silence;

#[test]
fn silence_is_all_zero_samples() {
    let out = generate_silence(10);
    assert_eq!(out.len(), 441); // 10 ms at 44100 Hz
    assert!(out.iter().all(|&s| s == 0));
}

#[test]
fn generic_pulse_alternates_half_periods() {
    // 2205 Hz gives a half period of 44100 / 4410 = 10 samples; one
    // millisecond spans 44 nominal samples: four full periods of 20
    // samples, then 4 remaining samples held high
    let out = generate_pulse_generic(1, 2205);
    assert_eq!(out.len(), 4 * 20 + 4);
    for t in 0..10 {
        assert_eq!(out[t], 32767);
    }
    for t in 10..20 {
        assert_eq!(out[t], -32768);
    }
    for t in 20..30 {
        assert_eq!(out[t], 32767);
    }
    for t in 80..84 {
        assert_eq!(out[t], 32767);
    }
}

#[test]
fn pulse_uses_the_1500_hz_half_period() {
    // half period 14 samples; 1 ms spans 44 samples: three full periods
    // and 2 remaining samples
    let out = generate_pulse(1);
    assert_eq!(out.len(), 3 * 28 + 2);
    assert_eq!(out[0], 32767);
    assert_eq!(out[13], 32767);
    assert_eq!(out[14], -32768);
    assert_eq!(out[27], -32768);
    assert_eq!(out[28], 32767);
    assert_eq!(out[84], 32767);
    assert_eq!(out[85], 32767);
}

#[test]
fn high_pulse_runs_at_2500_hz() {
    // half period 44100 / 5000 = 8 samples; 44 nominal samples give five
    // full periods and 4 remaining samples
    let out = generate_pulse_high(1);
    assert_eq!(out.len(), 5 * 16 + 4);
    assert_eq!(out[0], 32767);
    assert_eq!(out[7], 32767);
    assert_eq!(out[8], -32768);
    assert_eq!(out[15], -32768);
}

#[test]
fn low_pulse_is_silence() {
    let out = generate_pulse_low(3);
    assert_eq!(out, generate_silence(3));
    assert_eq!(out.len(), 132);
}

#[test]
fn pure_tone_maps_byte_levels_to_signed_range() {
    // 2 ms spans 88 samples: six full 28-sample periods and 4 remaining;
    // the high byte level 255 maps to 32512, the low level 0 to -32768
    let out = generate_pure_tone(2, 999);
    assert_eq!(out.len(), 6 * 28 + 4);
    for t in 0..14 {
        assert_eq!(out[t], 32512);
    }
    for t in 14..28 {
        assert_eq!(out[t], -32768);
    }
    for t in 168..172 {
        assert_eq!(out[t], 32512);
    }
}

#[test]
fn tone_walk_synthesizes_a_pure_tone_block() {
    // one pure-tone block: length 4, type 0x10, duration 10 ms, pulse
    // length field 0
    let data = vec![0x04, 0x00, 0x10, 0x0A, 0x00, 0x00, 0x00];
    let out = extract_audio_data(&data).unwrap().unwrap();
    assert_eq!(out, generate_pure_tone(10, 0));
    assert_eq!(out.len(), 31 * 28 + 7);
}

#[test]
fn tone_walk_skips_unknown_block_types() {
    let data = vec![0x01, 0x00, 0x99, 0x00];
    assert!(extract_audio_data(&data).unwrap().is_none());
}

#[test]
fn tone_walk_renders_data_bits() {
    // a standard data block of one byte: every set bit becomes a 30 ms
    // high pulse, every clear bit 30 ms of silence
    let all_set = vec![0x01, 0x00, 0x12, 0xFF];
    let out = extract_audio_data(&all_set).unwrap().unwrap();
    assert_eq!(out.len(), 8 * generate_pulse_high(30).len());
    assert_eq!(out[0], 32767);

    let all_clear = vec![0x01, 0x00, 0x12, 0x00];
    let out = extract_audio_data(&all_clear).unwrap().unwrap();
    assert_eq!(out.len(), 8 * 1323);
    assert!(out.iter().all(|&s| s == 0));
}

#[test]
fn tone_walk_renders_pulse_sequences() {
    // a sequence-of-pulses block with one 10 ms pulse: the pulse is
    // followed by 5 ms of silence
    let data = vec![0x02, 0x00, 0x11, 0x0A, 0x00];
    let out = extract_audio_data(&data).unwrap().unwrap();
    let mut expected = generate_pulse(10);
    expected.extend(generate_silence(5));
    assert_eq!(out, expected);
    assert_eq!(out.len(), 875 + 220);
}

#[test]
fn tone_walk_handles_an_empty_container() {
    assert!(extract_audio_data(&[]).unwrap().is_none());
}

#[test]
fn tone_walk_reports_a_cut_block_prefix() {
    // two bytes cannot hold the length prefix and the type byte
    let err = extract_audio_data(&[0x01, 0x00]).unwrap_err();
    assert_eq!(err, TapeError::UnexpectedEndOfInput);
}

#[test]
fn tone_walk_reports_missing_tone_parameters() {
    // a pure-tone block cut after the first duration byte
    let err = extract_audio_data(&[0x04, 0x00, 0x10, 0x0A]).unwrap_err();
    assert_eq!(err, TapeError::UnexpectedEndOfInput);
}

#[test]
fn tone_walk_reports_a_cut_pulse_pair() {
    // a sequence-of-pulses body whose last pulse pair runs past the end
    let err = extract_audio_data(&[0x03, 0x00, 0x11, 0x0A]).unwrap_err();
    assert_eq!(err, TapeError::UnexpectedEndOfInput);
}

#[test]
fn tone_walk_reports_a_cut_data_body() {
    // a standard data block declaring more bytes than remain
    let err = extract_audio_data(&[0x05, 0x00, 0x12, 0xFF]).unwrap_err();
    assert_eq!(err, TapeError::UnexpectedEndOfInput);
}
