use pixelwave::audio::{scale_sample, AudioStream, PlayState, SILENCE, VOLUME_MAX};

#[test]
fn scaling_rescales_around_the_silence_midpoint() {
    // Half volume halves the excursion from the midpoint.
    assert_eq!(scale_sample(200, 128), 164);
    assert_eq!(scale_sample(100, 128), 114);
    // Quarter volume, rounding toward negative infinity.
    assert_eq!(scale_sample(130, 64), 128);
    assert_eq!(scale_sample(127, 64), 127);
    // The midpoint is a fixed point at every volume.
    assert_eq!(scale_sample(SILENCE, 0), SILENCE);
    assert_eq!(scale_sample(SILENCE, 77), SILENCE);
    assert_eq!(scale_sample(SILENCE, VOLUME_MAX), SILENCE);
}

#[test]
fn full_volume_reproduces_the_source_bytes() {
    let data: Vec<u8> = (0u32..256).map(|i| i as u8).collect();
    let mut st = AudioStream::new(data.clone());
    st.set_volume(VOLUME_MAX);
    let mut out = vec![0u8; 256];
    st.pull(&mut out);
    assert_eq!(out, data);
}

#[test]
fn zero_volume_writes_only_the_silence_value() {
    let data: Vec<u8> = (0u32..100).map(|i| i as u8).collect();
    let mut st = AudioStream::new(data);
    st.set_volume(0);
    let mut out = vec![7u8; 150];
    st.pull(&mut out);
    assert!(out.iter().all(|&b| b == SILENCE));
}

#[test]
fn new_stream_starts_stopped_at_half_volume() {
    let st = AudioStream::new(vec![1, 2, 3]);
    assert_eq!(st.state(), PlayState::Stopped);
    assert_eq!(st.volume(), 128);
    assert_eq!(st.cursor(), 0);
    assert_eq!(st.data_len(), 3);
}

#[test]
fn cursor_is_monotonic_and_clamped_at_the_end() {
    let mut st = AudioStream::new(vec![9u8; 100]);
    let mut prev = st.cursor();
    for slots in [0usize, 30, 0, 50, 40, 10, 0] {
        let mut out = vec![0u8; slots];
        st.pull(&mut out);
        let cur = st.cursor();
        assert!(cur >= prev);
        assert!(cur <= st.data_len());
        prev = cur;
    }
    assert_eq!(st.cursor(), 100);
}

#[test]
fn pull_is_total_past_the_end_and_pads_with_silence() {
    let mut st = AudioStream::new(vec![200u8; 10]);
    st.set_volume(VOLUME_MAX);
    let mut out = vec![0u8; 25];
    st.pull(&mut out);
    for i in 0..10 {
        assert_eq!(out[i], 200);
    }
    for i in 10..25 {
        assert_eq!(out[i], SILENCE);
    }
    assert_eq!(st.cursor(), 10);
    let mut again = vec![0u8; 8];
    st.pull(&mut again);
    assert!(again.iter().all(|&b| b == SILENCE));
    assert_eq!(st.cursor(), 10);
}

#[test]
fn one_second_buffer_pulled_near_its_end() {
    // A 1-second 44.1 kHz mono buffer whose cursor has already advanced
    // 44000 samples: a 512-slot pull yields 100 real samples followed by
    // 412 silence values.
    let data: Vec<u8> = (0u32..44100).map(|i| (i % 251) as u8).collect();
    let mut st = AudioStream::new(data.clone());
    st.set_volume(VOLUME_MAX);
    let mut skip = vec![0u8; 44000];
    st.pull(&mut skip);
    assert_eq!(st.cursor(), 44000);
    let mut out = vec![0u8; 512];
    st.pull(&mut out);
    for i in 0..100 {
        assert_eq!(out[i], data[44000 + i]);
    }
    for i in 100..512 {
        assert_eq!(out[i], SILENCE);
    }
    assert_eq!(st.cursor(), 44100);
}

#[test]
fn playback_state_machine_follows_the_transition_table() {
    let mut st = AudioStream::new(vec![1u8; 4]);
    assert_eq!(st.state(), PlayState::Stopped);
    st.pause();
    assert_eq!(st.state(), PlayState::Stopped);
    st.resume();
    assert_eq!(st.state(), PlayState::Playing);
    st.pause();
    assert_eq!(st.state(), PlayState::Paused);
    st.pause();
    assert_eq!(st.state(), PlayState::Paused);
    st.resume();
    assert_eq!(st.state(), PlayState::Playing);
}

#[test]
fn a_playing_stream_stops_when_its_buffer_runs_out() {
    let mut st = AudioStream::new(vec![5u8; 6]);
    st.resume();
    let mut out = vec![0u8; 4];
    st.pull(&mut out);
    assert_eq!(st.state(), PlayState::Playing);
    st.pull(&mut out);
    assert_eq!(st.state(), PlayState::Stopped);
}

#[test]
fn paused_streams_keep_their_cursor_and_volume() {
    let mut st = AudioStream::new(vec![3u8; 10]);
    st.resume();
    let mut out = vec![0u8; 4];
    st.pull(&mut out);
    st.pause();
    assert_eq!(st.cursor(), 4);
    assert_eq!(st.volume(), 128);
}

#[test]
fn volume_is_clamped_to_the_unit_scalar() {
    let mut st = AudioStream::new(vec![0u8; 1]);
    st.set_volume(60000);
    assert_eq!(st.volume(), VOLUME_MAX);
    st.set_volume(3);
    assert_eq!(st.volume(), 3);
}
