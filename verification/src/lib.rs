//! Decoder and audio re-synthesizer for cassette-tape binary images.
//!
//! A tape image is a sequential container of length-prefixed blocks. The
//! library walks that container, recovers typed header records and raw data
//! payloads, and turns any byte payload into the square-wave sample train
//! that an 8-bit home computer's tape input expects.

mod block;
mod cursor;
mod error;
mod extract;
mod header;
mod pulse;
mod tone;

pub use cursor::ByteCursor;
pub use cursor::spec_u16_le;

pub use error::DecodePolicy;
pub use error::TapeError;

pub use header::ArrayParams;
pub use header::BlockParams;
pub use header::BytesParams;
pub use header::FlagEnum;
pub use header::Header;
pub use header::HeaderTypeEnum;
pub use header::HeaderV;
pub use header::ProgramParams;
pub use header::lemma_header_round_trip;
pub use header::lemma_u16_le_parts;
pub use header::spec_array_params;
pub use header::spec_bytes_params;
pub use header::spec_decode_header;
pub use header::spec_decode_params;
pub use header::spec_encode_header;
pub use header::spec_params_bytes;
pub use header::spec_program_params;
pub use header::spec_u16_hi;
pub use header::spec_u16_lo;

pub use block::Block;
pub use block::BlockOutcome;
pub use block::BlockParser;
pub use block::BlockV;
pub use block::lemma_data_block_shape;
pub use block::lemma_header_block_shape;
pub use block::lemma_parse_block_bounds;
pub use block::parse_blocks;
pub use block::spec_parse_all;
pub use block::spec_parse_all_from;
pub use block::spec_parse_block;
pub use block::spec_prepend;
pub use block::spec_views;

pub use pulse::PulseConfig;
pub use pulse::PulseEncoder;
pub use pulse::encode_block_audio;
pub use pulse::lemma_encode_deterministic;
pub use pulse::lemma_wave_length;
pub use pulse::spec_bit;
pub use pulse::spec_bit_wave;
pub use pulse::spec_byte_wave;
pub use pulse::spec_byte_wave_upto;
pub use pulse::spec_ones;
pub use pulse::spec_ones_upto;
pub use pulse::spec_pulse_len;
pub use pulse::spec_pulse_wave;
pub use pulse::spec_sample;
pub use pulse::spec_standard_config;
pub use pulse::spec_wave;
pub use pulse::spec_wave_upto;

pub use tone::generate_pulse;
pub use tone::generate_pulse_generic;
pub use tone::generate_pulse_high;
pub use tone::generate_pulse_low;
pub use tone::generate_pure_tone;
pub use tone::generate_silence;
pub use tone::spec_pulse_wave_at;
pub use tone::spec_pure_tone;
pub use tone::spec_silence;
pub use tone::spec_square_cycles;
pub use tone::spec_square_wave;
pub use tone::spec_tone_samples;

pub use extract::extract_audio_data;
pub use extract::spec_bits_wave_upto;
pub use extract::spec_data_bits_wave;
pub use extract::spec_extract_wave;
pub use extract::spec_pulse_seq_end;
pub use extract::spec_pulse_seq_wave;
pub use extract::spec_tone_wf;
pub use extract::spec_u16_at;
