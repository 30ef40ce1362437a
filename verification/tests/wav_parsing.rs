use pixelwave::wav::{parse_wav, requantize, resample, to_mono, to_stereo};

fn sample_container() -> Vec<u8> {
    let mut raw = Vec::new();
    raw.extend_from_slice(b"RIFF");
    raw.extend_from_slice(&36u32.to_le_bytes());
    raw.extend_from_slice(b"WAVE");
    raw.extend_from_slice(b"fmt ");
    raw.extend_from_slice(&16u32.to_le_bytes());
    raw.extend_from_slice(&1u16.to_le_bytes());
    raw.extend_from_slice(&2u16.to_le_bytes());
    raw.extend_from_slice(&44100u32.to_le_bytes());
    raw.extend_from_slice(&(44100u32 * 2).to_le_bytes());
    raw.extend_from_slice(&2u16.to_le_bytes());
    raw.extend_from_slice(&8u16.to_le_bytes());
    raw.extend_from_slice(b"data");
    raw.extend_from_slice(&4u32.to_le_bytes());
    raw.extend_from_slice(&[9, 8, 7, 6]);
    raw
}

#[test]
fn parse_reads_the_declared_format_and_payload() {
    let raw = sample_container();
    let (fmt, payload) = parse_wav(&raw).unwrap();
    assert_eq!(fmt.audio_format, 1);
    assert_eq!(fmt.channels, 2);
    assert_eq!(fmt.freq, 44100);
    assert_eq!(fmt.bits, 8);
    assert_eq!(payload, vec![9, 8, 7, 6]);
}

#[test]
fn parse_rejects_a_short_buffer() {
    assert!(parse_wav(&vec![0x52, 0x49, 0x46, 0x46]).is_none());
}

#[test]
fn parse_rejects_a_wrong_form_tag() {
    let mut raw = sample_container();
    raw[8] = b'A';
    assert!(parse_wav(&raw).is_none());
}

#[test]
fn requantize_keeps_centered_high_bytes() {
    let out = requantize(&vec![0x34, 0x12, 0x00, 0xfe, 0x55]);
    // 0x1234 -> 0x12 + 128; 0xfe00 (negative) -> 0xfe - 128; the odd
    // trailing byte is dropped.
    assert_eq!(out, vec![0x92, 0x7e]);
}

#[test]
fn to_mono_averages_each_frame() {
    assert_eq!(to_mono(&vec![10, 20, 0, 1]), vec![15, 0]);
}

#[test]
fn to_stereo_duplicates_each_sample() {
    assert_eq!(to_stereo(&vec![3, 4]), vec![3, 3, 4, 4]);
}

#[test]
fn resample_maps_frames_by_nearest_index() {
    // Stereo frames halved in rate: frames 0 and 2 survive.
    let out = resample(&vec![0, 1, 2, 3, 4, 5, 6, 7], 2, 4000, 2000);
    assert_eq!(out, vec![0, 1, 4, 5]);
    // Identity when the rates match.
    let same = resample(&vec![5, 6, 7], 1, 8000, 8000);
    assert_eq!(same, vec![5, 6, 7]);
}
