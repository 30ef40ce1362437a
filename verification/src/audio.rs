//! Audio streams: an immutable converted PCM buffer, a monotonic playback
//! cursor and a volume, pulled sample-by-sample by the backend's real-time
//! callback.

use vstd::prelude::*;
use vstd::arithmetic::div_mod::{lemma_div_is_ordered, lemma_div_multiples_vanish, lemma_hoist_over_denominator};
use vstd::arithmetic::mul::lemma_mul_inequality;
use crate::wav::{
    lemma_converted_len,
    lemma_find_chunk_in_bounds,
    parse_wav,
    requantize,
    resample,
    spec_converted,
    spec_parse_wav,
    spec_supported,
    to_mono,
    to_stereo,
};

verus! {

/// The sample value written where no source data is available: the
/// midpoint of the unsigned 8-bit range, i.e. silence.
pub const SILENCE: u8 = 128;

/// The volume scale unit: a volume of `VOLUME_MAX` is full volume (a
/// scalar of one), `0` is mute, `128` is half volume. Volumes are fixed
/// point in units of `1/256`.
pub const VOLUME_MAX: u16 = 256;

/// A sample rescaled by `vol / 256` around the silence midpoint:
/// the signed excursion `s - 128` is scaled (rounding toward negative
/// infinity) and re-centered on `128`.
pub open spec fn spec_scale_sample(s: u8, vol: u16) -> u8 {
    (128 + ((s - 128) * vol) / 256) as u8
}

/// What one `pull` writes into slot `i`: the source byte at `cursor + i`
/// rescaled by the volume, or the silence value once the buffer's end has
/// been passed.
pub open spec fn spec_pull_byte(data: Seq<u8>, cursor: int, vol: u16, i: int) -> u8 {
    if cursor + i < data.len() {
        spec_scale_sample(data[cursor + i], vol)
    } else {
        SILENCE
    }
}

/// Rescale one sample by `vol / 256` around the silence midpoint.
pub fn scale_sample(s: u8, vol: u16) -> (r: u8)
    requires
        vol <= VOLUME_MAX,
    ensures
        r == spec_scale_sample(s, vol),
{
    proof {
        assert(s as int * (vol as int) <= 255 * 256) by (nonlinear_arith)
            requires
                0 <= s <= 255,
                0 <= vol <= 256,
        ;
    }
    let t: u32 = (s as u32) * (vol as u32) + (256 - vol as u32) * 128;
    let q: u32 = t / 256;
    proof {
        let si: int = s as int;
        let vi: int = vol as int;
        let x: int = (si - 128) * vi;
        assert(si * vi + (256 - vi) * 128 == x + 128 * 256) by (nonlinear_arith)
            requires
                x == (si - 128) * vi,
        ;
        assert(-32768 <= x <= 32512) by (nonlinear_arith)
            requires
                x == (si - 128) * vi,
                0 <= si <= 255,
                0 <= vi <= 256,
        ;
        lemma_hoist_over_denominator(x, 128, 256);
        assert(t / 256 == x / 256 + 128);
        lemma_div_is_ordered(-32768, x, 256);
        lemma_div_is_ordered(x, 32512, 256);
        assert((-32768int) / 256 == -128);
        assert(32512int / 256 == 127);
    }
    q as u8
}

/// The playback device's target sample format: interleaved unsigned
/// 8-bit samples (silence value [`SILENCE`]), `channels` channels at
/// `freq` frames per second.
#[derive(Clone, Copy, Debug, PartialEq, Eq, Structural)]
pub struct DeviceFormat {
    /// Interleaved channel count: mono or stereo.
    pub channels: u16,
    /// Sample frames per second.
    pub freq: u32,
}

/// Whether playback is running, paused by the user, or stopped (never
/// started, or run out of data).
#[derive(Clone, Copy, Debug, PartialEq, Eq, Structural)]
pub enum PlayState {
    Stopped,
    Playing,
    Paused,
}

/// One playable stream. The buffer is immutable after construction; the
/// cursor only ever advances and never passes the buffer's end; volumes
/// stay within `[0, VOLUME_MAX]`. Streams are independent: each owns its
/// cursor and volume, so many can play concurrently.
#[derive(Debug)]
pub struct AudioStream {
    data: Vec<u8>,
    cursor: usize,
    volume: u16,
    state: PlayState,
}

impl AudioStream {
    /// The converted PCM bytes the stream plays.
    pub closed spec fn spec_data(self) -> Seq<u8> {
        self.data@
    }

    /// Byte offset of the next sample to play.
    pub closed spec fn spec_cursor(self) -> int {
        self.cursor as int
    }

    /// Fixed-point volume in units of `1/256`.
    pub closed spec fn spec_volume(self) -> u16 {
        self.volume
    }

    pub closed spec fn spec_state(self) -> PlayState {
        self.state
    }

    /// The stream's invariant: the cursor never passes the buffer's end
    /// and the volume never exceeds the unit scalar.
    pub open spec fn wf(self) -> bool {
        &&& 0 <= self.spec_cursor() <= self.spec_data().len()
        &&& self.spec_volume() <= VOLUME_MAX
    }

    /// Wrap an already-converted PCM buffer as a stopped stream at half
    /// volume, cursor at the start.
    pub fn new(data: Vec<u8>) -> (s: AudioStream)
        ensures
            s.wf(),
            s.spec_data() == data@,
            s.spec_cursor() == 0,
            s.spec_volume() == 128,
            s.spec_state() == PlayState::Stopped,
    {
        AudioStream { data, cursor: 0, volume: 128, state: PlayState::Stopped }
    }

    pub fn data_len(&self) -> (n: usize)
        ensures
            n == self.spec_data().len(),
    {
        self.data.len()
    }

    pub fn cursor(&self) -> (c: usize)
        ensures
            c == self.spec_cursor(),
    {
        self.cursor
    }

    pub fn volume(&self) -> (v: u16)
        ensures
            v == self.spec_volume(),
    {
        self.volume
    }

    pub fn state(&self) -> (st: PlayState)
        ensures
            st == self.spec_state(),
    {
        self.state
    }

    /// Set the volume, clamped to the unit scalar. The next `pull` sees
    /// the new value.
    pub fn set_volume(&mut self, v: u16)
        requires
            old(self).wf(),
        ensures
            final(self).wf(),
            final(self).spec_volume() == if v <= VOLUME_MAX {
                v
            } else {
                VOLUME_MAX
            },
            final(self).spec_data() == old(self).spec_data(),
            final(self).spec_cursor() == old(self).spec_cursor(),
            final(self).spec_state() == old(self).spec_state(),
    {
        self.volume = if v <= VOLUME_MAX {
            v
        } else {
            VOLUME_MAX
        };
    }

    /// Start or restart playback: the backend begins invoking `pull`.
    pub fn resume(&mut self)
        requires
            old(self).wf(),
        ensures
            final(self).wf(),
            final(self).spec_state() == PlayState::Playing,
            final(self).spec_data() == old(self).spec_data(),
            final(self).spec_cursor() == old(self).spec_cursor(),
            final(self).spec_volume() == old(self).spec_volume(),
    {
        self.state = PlayState::Playing;
    }

    /// Pause a playing stream; a stopped or paused stream is unchanged.
    pub fn pause(&mut self)
        requires
            old(self).wf(),
        ensures
            final(self).wf(),
            final(self).spec_state() == if old(self).spec_state() == PlayState::Playing {
                PlayState::Paused
            } else {
                old(self).spec_state()
            },
            final(self).spec_data() == old(self).spec_data(),
            final(self).spec_cursor() == old(self).spec_cursor(),
            final(self).spec_volume() == old(self).spec_volume(),
    {
        if self.state == PlayState::Playing {
            self.state = PlayState::Paused;
        }
    }

    /// Fill every slot of `out` with the next samples: each slot gets the
    /// source byte at the cursor rescaled by the volume, or the silence
    /// value once the cursor has reached the buffer's end. The cursor
    /// advances by one per slot but never past the end; it never moves
    /// backwards. Total for any slot count, with no error path: anomalies
    /// become silence. A stream that reaches its end while playing stops.
    pub fn pull(&mut self, out: &mut Vec<u8>)
        requires
            old(self).wf(),
        ensures
            final(self).wf(),
            final(out)@.len() == old(out)@.len(),
            forall|i: int|
                0 <= i < old(out)@.len() ==> final(out)@[i] == spec_pull_byte(
                    old(self).spec_data(),
                    old(self).spec_cursor(),
                    old(self).spec_volume(),
                    i,
                ),
            final(self).spec_cursor() == if old(self).spec_cursor() + old(out)@.len() <= old(self).spec_data().len() {
                old(self).spec_cursor() + old(out)@.len()
            } else {
                old(self).spec_data().len() as int
            },
            final(self).spec_cursor() >= old(self).spec_cursor(),
            final(self).spec_data() == old(self).spec_data(),
            final(self).spec_volume() == old(self).spec_volume(),
            final(self).spec_state() == if old(self).spec_state() == PlayState::Playing
                && final(self).spec_cursor() == final(self).spec_data().len() {
                PlayState::Stopped
            } else {
                old(self).spec_state()
            },
    {
        let slots: usize = out.len();
        let mut i: usize = 0;
        while i < slots
            invariant
                old(self).wf(),
                i <= slots,
                out@.len() == slots,
                self.spec_data() == old(self).spec_data(),
                self.spec_volume() == old(self).spec_volume(),
                self.spec_state() == old(self).spec_state(),
                self.spec_cursor() == if old(self).spec_cursor() + i <= old(self).spec_data().len() {
                    old(self).spec_cursor() + i
                } else {
                    old(self).spec_data().len() as int
                },
                forall|j: int|
                    0 <= j < i ==> out@[j] == spec_pull_byte(
                        old(self).spec_data(),
                        old(self).spec_cursor(),
                        old(self).spec_volume(),
                        j,
                    ),
            decreases slots - i,
        {
            let b: u8 = if self.cursor < self.data.len() {
                let s: u8 = self.data[self.cursor];
                self.cursor = self.cursor + 1;
                scale_sample(s, self.volume)
            } else {
                SILENCE
            };
            out.set(i, b);
            i = i + 1;
        }
        if self.cursor == self.data.len() && self.state == PlayState::Playing {
            self.state = PlayState::Stopped;
        }
    }
}

/// Why loading a stream failed. A malformed container is a decode
/// error; a well-formed container whose source format the converter does
/// not accept is a format error. Either way only this stream is lost:
/// it is simply never played.
#[derive(Clone, Copy, Debug, PartialEq, Eq, Structural)]
pub enum AudioError {
    /// The container is malformed: no RIFF/WAVE header, or a missing or
    /// truncated `fmt ` or `data` chunk.
    Decode,
    /// The container is well formed but its declared source format is
    /// unsupported.
    Format,
}

impl AudioStream {
    /// Load a stream from a raw WAVE container: parse and validate the
    /// header, convert the samples once into the device's format, and
    /// store the result as the immutable playback buffer. The stream
    /// starts stopped, cursor at zero, at half volume.
    pub fn load(raw: &Vec<u8>, device: DeviceFormat) -> (r: Result<AudioStream, AudioError>)
        requires
            device.channels == 1 || device.channels == 2,
            1 <= device.freq,
            raw@.len() * device.freq * 2 <= usize::MAX,
        ensures
            match r {
                Result::Ok(s) => {
                    &&& spec_parse_wav(raw@) matches Option::Some(p) && spec_supported(p.0)
                        && s.spec_data() == spec_converted(p.1, p.0, device)
                    &&& s.wf()
                    &&& s.spec_cursor() == 0
                    &&& s.spec_volume() == 128
                    &&& s.spec_state() == PlayState::Stopped
                },
                Result::Err(e) => {
                    &&& (e == AudioError::Decode <==> spec_parse_wav(raw@) is None)
                    &&& (e == AudioError::Format <==> (spec_parse_wav(raw@) matches Option::Some(
                        p,
                    ) && !spec_supported(p.0)))
                },
            },
    {
        match parse_wav(raw) {
            Option::None => Result::Err(AudioError::Decode),
            Option::Some((f, payload)) => {
                if !(f.audio_format == 1 && (f.bits == 8 || f.bits == 16) && (f.channels == 1
                    || f.channels == 2) && f.freq >= 1) {
                    Result::Err(AudioError::Format)
                } else {
                    proof {
                        lemma_find_chunk_in_bounds(raw@, 0x64, 0x61, 0x74, 0x61, 12);
                        assert(payload@.len() <= raw@.len());
                        lemma_converted_len(payload@, f, device);
                        lemma_mul_inequality(payload@.len() as int, raw@.len() as int,
                            device.freq as int);
                        assert(payload@.len() as int * device.freq * 2 <= raw@.len() as int
                            * device.freq * 2) by (nonlinear_arith)
                            requires
                                payload@.len() as int * device.freq <= raw@.len() as int
                                    * device.freq,
                        ;
                    }
                    let decoded: Vec<u8> = if f.bits == 16 {
                        requantize(&payload)
                    } else {
                        payload
                    };
                    proof {
                        assert(decoded@.len() * 2 <= usize::MAX) by (nonlinear_arith)
                            requires
                                decoded@.len() <= raw@.len(),
                                raw@.len() as int * device.freq * 2 <= usize::MAX,
                                1 <= device.freq,
                                0 <= raw@.len(),
                        ;
                    }
                    let chconv: Vec<u8> = if f.channels == device.channels {
                        decoded
                    } else if f.channels == 2 {
                        to_mono(&decoded)
                    } else {
                        to_stereo(&decoded)
                    };
                    let data = resample(&chconv, device.channels, f.freq, device.freq);
                    Result::Ok(
                        AudioStream { data, cursor: 0, volume: 128, state: PlayState::Stopped },
                    )
                }
            },
        }
    }
}

/// At full volume `pull` reproduces the source buffer's bytes unchanged:
/// scaling by the unit scalar is the identity.
pub proof fn lemma_scale_full(s: u8)
    ensures
        spec_scale_sample(s, VOLUME_MAX) == s,
{
    assert((s - 128) * 256 == 256 * (s - 128));
    lemma_div_multiples_vanish(s - 128, 256);
}

/// At zero volume every sample becomes the silence value.
pub proof fn lemma_scale_zero(s: u8)
    ensures
        spec_scale_sample(s, 0) == SILENCE,
{
}

/// At full volume a `pull` slot holds the source byte itself while data
/// remains, and the silence value after the end; at zero volume it holds
/// the silence value whatever the cursor.
pub proof fn lemma_pull_byte_at_extremes(data: Seq<u8>, cursor: int, i: int)
    requires
        0 <= cursor,
        0 <= i,
    ensures
        cursor + i < data.len() ==> spec_pull_byte(data, cursor, VOLUME_MAX, i) == data[cursor + i],
        cursor + i >= data.len() ==> spec_pull_byte(data, cursor, VOLUME_MAX, i) == SILENCE,
        spec_pull_byte(data, cursor, 0, i) == SILENCE,
{
    if cursor + i < data.len() {
        lemma_scale_full(data[cursor + i]);
        lemma_scale_zero(data[cursor + i]);
    }
}

} // verus!
