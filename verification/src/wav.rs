//! The RIFF/WAVE container and the one-time sample conversion done at
//! load time: little-endian readers, a chunk scan, header validation, and
//! the requantize / channel-convert / resample pipeline that turns the
//! container's PCM payload into the device's format.

use vstd::prelude::*;
use vstd::arithmetic::div_mod::{
    lemma_div_pos_is_pos,
    lemma_fundamental_div_mod,
    lemma_mod_bound,
    lemma_multiply_divide_lt,
};
use vstd::arithmetic::mul::{lemma_mul_inequality, lemma_mul_nonnegative};
use crate::audio::DeviceFormat;

verus! {

/// The little-endian 16-bit value stored at byte offset `i`.
pub open spec fn spec_le16(s: Seq<u8>, i: int) -> int {
    s[i] + 256 * s[i + 1]
}

/// The little-endian 32-bit value stored at byte offset `i`.
pub open spec fn spec_le32(s: Seq<u8>, i: int) -> int {
    s[i] + 256 * s[i + 1] + 65536 * s[i + 2] + 16777216 * s[i + 3]
}

/// Whether the four bytes at offset `i` spell the tag `a b c d`.
pub open spec fn spec_tag_at(s: Seq<u8>, i: int, a: u8, b: u8, c: u8, d: u8) -> bool {
    &&& s[i] == a
    &&& s[i + 1] == b
    &&& s[i + 2] == c
    &&& s[i + 3] == d
}

/// Whether the buffer starts with a RIFF header of form WAVE:
/// `RIFF` at offset 0 and `WAVE` at offset 8.
pub open spec fn spec_has_riff_header(s: Seq<u8>) -> bool {
    &&& s.len() >= 12
    &&& spec_tag_at(s, 0, 0x52, 0x49, 0x46, 0x46)
    &&& spec_tag_at(s, 8, 0x57, 0x41, 0x56, 0x45)
}

/// Scan the chunk list from offset `i` for the chunk tagged `a b c d`;
/// the result is the chunk payload's offset and size. Each chunk is an
/// 8-byte header (tag, 32-bit size) followed by `size` payload bytes; the
/// scan takes chunks as written, back to back, and gives up at the first
/// chunk that runs past the buffer's end.
pub open spec fn spec_find_chunk(
    s: Seq<u8>,
    a: u8,
    b: u8,
    c: u8,
    d: u8,
    i: int,
) -> Option<(int, int)>
    decreases s.len() - i,
{
    if i < 0 || i + 8 > s.len() {
        Option::None
    } else {
        let size = spec_le32(s, i + 4);
        if spec_tag_at(s, i, a, b, c, d) {
            if i + 8 + size <= s.len() {
                Option::Some((i + 8, size))
            } else {
                Option::None
            }
        } else {
            if i + 8 + size + 8 <= s.len() {
                spec_find_chunk(s, a, b, c, d, i + 8 + size)
            } else {
                Option::None
            }
        }
    }
}

/// A found chunk lies within the buffer.
pub proof fn lemma_find_chunk_in_bounds(s: Seq<u8>, a: u8, b: u8, c: u8, d: u8, i: int)
    ensures
        spec_find_chunk(s, a, b, c, d, i) matches Option::Some(p) ==> 0 <= p.0 && 0 <= p.1 && p.0
            + p.1 <= s.len(),
    decreases s.len() - i,
{
    if i < 0 || i + 8 > s.len() {
    } else {
        let size = spec_le32(s, i + 4);
        if !spec_tag_at(s, i, a, b, c, d) && i + 8 + size + 8 <= s.len() {
            lemma_find_chunk_in_bounds(s, a, b, c, d, i + 8 + size);
        }
    }
}

/// The source format a WAVE `fmt ` chunk declares.
#[derive(Clone, Copy, Debug, PartialEq, Eq, Structural)]
pub struct WavFormat {
    /// Encoding id; `1` is integer PCM.
    pub audio_format: u16,
    /// Interleaved channel count.
    pub channels: u16,
    /// Sample frames per second.
    pub freq: u32,
    /// Bits per sample.
    pub bits: u16,
}

/// Parse a WAVE container: the RIFF header, the `fmt ` chunk (at least 16
/// bytes: encoding, channels, sample rate, bits per sample at offset 14),
/// and the `data` chunk, whose payload is the result's second component.
pub open spec fn spec_parse_wav(s: Seq<u8>) -> Option<(WavFormat, Seq<u8>)> {
    if !spec_has_riff_header(s) {
        Option::None
    } else {
        match spec_find_chunk(s, 0x66, 0x6d, 0x74, 0x20, 12) {
            Option::None => Option::None,
            Option::Some(f) => if f.1 < 16 {
                Option::None
            } else {
                match spec_find_chunk(s, 0x64, 0x61, 0x74, 0x61, 12) {
                    Option::None => Option::None,
                    Option::Some(dt) => Option::Some(
                        (
                            WavFormat {
                                audio_format: spec_le16(s, f.0) as u16,
                                channels: spec_le16(s, f.0 + 2) as u16,
                                freq: spec_le32(s, f.0 + 4) as u32,
                                bits: spec_le16(s, f.0 + 14) as u16,
                            },
                            s.subrange(dt.0, dt.0 + dt.1),
                        ),
                    ),
                }
            },
        }
    }
}

/// The source formats the converter accepts: integer PCM, 8 or 16 bits
/// per sample, one or two channels, a positive sample rate.
pub open spec fn spec_supported(f: WavFormat) -> bool {
    &&& f.audio_format == 1
    &&& f.bits == 8 || f.bits == 16
    &&& f.channels == 1 || f.channels == 2
    &&& f.freq >= 1
}

/// A signed 16-bit sample's high byte re-centered on the unsigned
/// midpoint: the two's-complement sign flip turns the signed high byte
/// into the sample's unsigned 8-bit value.
pub open spec fn spec_center_high_byte(hi: u8) -> u8 {
    if hi >= 128 {
        (hi - 128) as u8
    } else {
        (hi + 128) as u8
    }
}

/// 16-bit little-endian signed samples requantized to unsigned 8-bit:
/// sample `i` keeps its high byte, re-centered. A trailing odd byte is
/// dropped.
pub open spec fn spec_requantized(p: Seq<u8>) -> Seq<u8> {
    Seq::new((p.len() / 2) as nat, |i: int| spec_center_high_byte(p[2 * i + 1]))
}

/// Interleaved stereo samples mixed down to mono: each output sample is
/// the rounded-down average of the frame's two channels.
pub open spec fn spec_to_mono(p: Seq<u8>) -> Seq<u8> {
    Seq::new((p.len() / 2) as nat, |i: int| ((p[2 * i] + p[2 * i + 1]) / 2) as u8)
}

/// Mono samples duplicated into interleaved stereo frames.
pub open spec fn spec_to_stereo(p: Seq<u8>) -> Seq<u8> {
    Seq::new((p.len() * 2) as nat, |i: int| p[i / 2])
}

/// Frames of `c` interleaved samples resampled from `sf` to `df` frames
/// per second by nearest-neighbour index mapping: output frame `j` copies
/// input frame `j * sf / df`, channel by channel. The output holds
/// `floor(frames * df / sf)` frames.
pub open spec fn spec_resampled(p: Seq<u8>, c: int, sf: int, df: int) -> Seq<u8> {
    let nf = p.len() as int / c;
    let of = nf * df / sf;
    Seq::new((of * c) as nat, |t: int| p[(t / c) * sf / df * c + t % c])
}

/// The whole conversion done once at load: requantize to unsigned 8-bit,
/// match the device's channel count (downmix or duplicate), then resample
/// to the device's rate.
pub open spec fn spec_channel_converted(p: Seq<u8>, src_ch: u16, dev_ch: u16) -> Seq<u8> {
    if src_ch == dev_ch {
        p
    } else if src_ch == 2 {
        spec_to_mono(p)
    } else {
        spec_to_stereo(p)
    }
}

/// The device-format bytes that a supported payload converts to.
pub open spec fn spec_converted(p: Seq<u8>, f: WavFormat, dev: DeviceFormat) -> Seq<u8> {
    let decoded = if f.bits == 16 {
        spec_requantized(p)
    } else {
        p
    };
    spec_resampled(
        spec_channel_converted(decoded, f.channels, dev.channels),
        dev.channels as int,
        f.freq as int,
        dev.freq as int,
    )
}

/// The conversion cannot grow the payload beyond doubling it for a
/// second channel and multiplying by the device rate: a bound the loader
/// uses to size the output.
pub proof fn lemma_converted_len(p: Seq<u8>, f: WavFormat, dev: DeviceFormat)
    requires
        dev.channels == 1 || dev.channels == 2,
        1 <= dev.freq,
        1 <= f.freq,
    ensures
        spec_converted(p, f, dev).len() <= p.len() * dev.freq * 2,
{
    let pl = p.len() as int;
    let decoded = if f.bits == 16 {
        spec_requantized(p)
    } else {
        p
    };
    let dl = decoded.len() as int;
    lemma_div_pos_is_pos(pl, 2);
    assert(dl <= pl);
    let ch = spec_channel_converted(decoded, f.channels, dev.channels);
    let cl = ch.len() as int;
    assert(cl <= 2 * pl) by {
        if f.channels == dev.channels {
        } else if f.channels == 2 {
            lemma_div_pos_is_pos(dl, 2);
        }
    }
    let c = dev.channels as int;
    let sf = f.freq as int;
    let df = dev.freq as int;
    let nf = cl / c;
    let of = nf * df / sf;
    lemma_div_pos_is_pos(cl, c);
    lemma_mul_nonnegative(nf, df);
    lemma_div_pos_is_pos(nf * df, sf);
    lemma_mul_nonnegative(of, c);
    assert(spec_converted(p, f, dev).len() == of * c);
    assert(sf * of <= nf * df) by {
        lemma_fundamental_div_mod(nf * df, sf);
        lemma_mod_bound(nf * df, sf);
    }
    assert(of <= sf * of) by (nonlinear_arith)
        requires
            0 <= of,
            1 <= sf,
    ;
    lemma_mul_inequality(of, nf * df, c);
    assert(nf * c <= cl) by {
        lemma_fundamental_div_mod(cl, c);
        lemma_mod_bound(cl, c);
    }
    assert((nf * df) * c <= (2 * pl) * df) by (nonlinear_arith)
        requires
            nf * c <= cl,
            cl <= 2 * pl,
            0 <= nf,
            0 <= df,
            0 <= c,
            0 <= pl,
    ;
    assert((2 * pl) * df == pl * df * 2) by (nonlinear_arith);
}

fn read_u16_le(s: &Vec<u8>, i: usize) -> (r: u16)
    requires
        i + 2 <= s.len(),
    ensures
        r == spec_le16(s@, i as int),
{
    (s[i] as u16) + 256 * (s[i + 1] as u16)
}

fn read_u32_le(s: &Vec<u8>, i: usize) -> (r: u32)
    requires
        i + 4 <= s.len(),
    ensures
        r == spec_le32(s@, i as int),
{
    (s[i] as u32) + 256 * (s[i + 1] as u32) + 65536 * (s[i + 2] as u32) + 16777216 * (s[i + 3]
        as u32)
}

fn tag_at(s: &Vec<u8>, i: usize, a: u8, b: u8, c: u8, d: u8) -> (r: bool)
    requires
        i + 4 <= s.len(),
    ensures
        r == spec_tag_at(s@, i as int, a, b, c, d),
{
    s[i] == a && s[i + 1] == b && s[i + 2] == c && s[i + 3] == d
}

fn find_chunk(s: &Vec<u8>, a: u8, b: u8, c: u8, d: u8) -> (r: Option<(usize, usize)>)
    ensures
        match r {
            Option::Some(p) => spec_find_chunk(s@, a, b, c, d, 12) == Option::Some(
                (p.0 as int, p.1 as int),
            ),
            Option::None => spec_find_chunk(s@, a, b, c, d, 12) is None,
        },
{
    let n: usize = s.len();
    if n < 20 {
        return Option::None;
    }
    let mut i: usize = 12;
    loop
        invariant
            12 <= i,
            i + 8 <= n,
            n == s@.len(),
            spec_find_chunk(s@, a, b, c, d, 12) == spec_find_chunk(s@, a, b, c, d, i as int),
        decreases n - i,
    {
        let size32: u32 = read_u32_le(s, i + 4);
        let remaining: usize = n - (i + 8);
        if tag_at(s, i, a, b, c, d) {
            if size32 as u64 <= remaining as u64 {
                return Option::Some((i + 8, size32 as usize));
            } else {
                return Option::None;
            }
        } else {
            if size32 as u64 + 8 <= remaining as u64 {
                i = i + 8 + size32 as usize;
            } else {
                return Option::None;
            }
        }
    }
}

/// Parse a WAVE container into its declared source format and its PCM
/// payload; `None` when the container is malformed.
pub fn parse_wav(s: &Vec<u8>) -> (r: Option<(WavFormat, Vec<u8>)>)
    ensures
        match r {
            Option::Some(p) => spec_parse_wav(s@) == Option::Some((p.0, p.1@)),
            Option::None => spec_parse_wav(s@) is None,
        },
{
    let n: usize = s.len();
    if n < 12 {
        return Option::None;
    }
    if !tag_at(s, 0, 0x52, 0x49, 0x46, 0x46) || !tag_at(s, 8, 0x57, 0x41, 0x56, 0x45) {
        return Option::None;
    }
    let fmt = find_chunk(s, 0x66, 0x6d, 0x74, 0x20);
    match fmt {
        Option::None => Option::None,
        Option::Some((fo, fsz)) => {
            if fsz < 16 {
                return Option::None;
            }
            proof {
                lemma_find_chunk_in_bounds(s@, 0x66, 0x6d, 0x74, 0x20, 12);
            }
            let audio_format: u16 = read_u16_le(s, fo);
            let channels: u16 = read_u16_le(s, fo + 2);
            let freq: u32 = read_u32_le(s, fo + 4);
            let bits: u16 = read_u16_le(s, fo + 14);
            let dt = find_chunk(s, 0x64, 0x61, 0x74, 0x61);
            match dt {
                Option::None => Option::None,
                Option::Some((doff, dsz)) => {
                    proof {
                        lemma_find_chunk_in_bounds(s@, 0x64, 0x61, 0x74, 0x61, 12);
                    }
                    let mut payload: Vec<u8> = Vec::new();
                    let mut k: usize = 0;
                    while k < dsz
                        invariant
                            k <= dsz,
                            doff + dsz <= s@.len(),
                            s@.len() <= usize::MAX,
                            payload@.len() == k,
                            forall|j: int| 0 <= j < k ==> payload@[j] == s@[doff + j],
                        decreases dsz - k,
                    {
                        payload.push(s[doff + k]);
                        k = k + 1;
                    }
                    proof {
                        assert(payload@ =~= s@.subrange(doff as int, doff as int + dsz as int));
                    }
                    Option::Some((WavFormat { audio_format, channels, freq, bits }, payload))
                },
            }
        },
    }
}

fn center_high_byte(hi: u8) -> (r: u8)
    ensures
        r == spec_center_high_byte(hi),
{
    if hi >= 128 {
        hi - 128
    } else {
        hi + 128
    }
}

/// Requantize 16-bit little-endian signed samples to the device's
/// unsigned 8-bit quantization.
pub fn requantize(p: &Vec<u8>) -> (r: Vec<u8>)
    ensures
        r@ == spec_requantized(p@),
{
    let n: usize = p.len() / 2;
    let mut out: Vec<u8> = Vec::new();
    let mut i: usize = 0;
    while i < n
        invariant
            n == p@.len() / 2,
            2 * n <= p@.len() <= usize::MAX,
            i <= n,
            out@.len() == i,
            forall|j: int| 0 <= j < i ==> out@[j] == spec_center_high_byte(p@[2 * j + 1]),
        decreases n - i,
    {
        out.push(center_high_byte(p[2 * i + 1]));
        i = i + 1;
    }
    proof {
        assert(out@ =~= spec_requantized(p@));
    }
    out
}

/// Mix interleaved stereo down to mono by averaging each frame's two
/// channels.
pub fn to_mono(p: &Vec<u8>) -> (r: Vec<u8>)
    ensures
        r@ == spec_to_mono(p@),
{
    let n: usize = p.len() / 2;
    let mut out: Vec<u8> = Vec::new();
    let mut i: usize = 0;
    while i < n
        invariant
            n == p@.len() / 2,
            2 * n <= p@.len() <= usize::MAX,
            i <= n,
            out@.len() == i,
            forall|j: int| 0 <= j < i ==> out@[j] == ((p@[2 * j] + p@[2 * j + 1]) / 2) as u8,
        decreases n - i,
    {
        let avg: u16 = (p[2 * i] as u16 + p[2 * i + 1] as u16) / 2;
        out.push(avg as u8);
        i = i + 1;
    }
    proof {
        assert(out@ =~= spec_to_mono(p@));
    }
    out
}

/// Duplicate mono samples into interleaved stereo frames.
pub fn to_stereo(p: &Vec<u8>) -> (r: Vec<u8>)
    requires
        p@.len() * 2 <= usize::MAX,
    ensures
        r@ == spec_to_stereo(p@),
{
    let n: usize = p.len() * 2;
    let mut out: Vec<u8> = Vec::new();
    let mut t: usize = 0;
    while t < n
        invariant
            n == p@.len() * 2,
            t <= n,
            out@.len() == t,
            forall|j: int| 0 <= j < t ==> out@[j] == p@[j / 2],
        decreases n - t,
    {
        out.push(p[t / 2]);
        t = t + 1;
    }
    proof {
        assert(out@ =~= spec_to_stereo(p@));
    }
    out
}

/// The input frame that output frame `j` of a resample copies lies
/// within the input.
proof fn lemma_resample_src_in_range(nfi: int, sfi: int, dfi: int, j: int)
    requires
        0 < sfi,
        0 < dfi,
        0 <= nfi,
        0 <= j < nfi * dfi / sfi,
    ensures
        0 <= j * sfi / dfi < nfi,
{
    let of = nfi * dfi / sfi;
    lemma_mul_nonnegative(nfi, dfi);
    lemma_fundamental_div_mod(nfi * dfi, sfi);
    lemma_mod_bound(nfi * dfi, sfi);
    assert(sfi * of <= nfi * dfi);
    lemma_mul_inequality(j, of - 1, sfi);
    assert((of - 1) * sfi == of * sfi - sfi) by (nonlinear_arith);
    assert(of * sfi == sfi * of) by (nonlinear_arith);
    assert(j * sfi < nfi * dfi);
    assert(nfi * dfi == dfi * nfi) by (nonlinear_arith);
    lemma_multiply_divide_lt(j * sfi, dfi, nfi);
    lemma_mul_nonnegative(j, sfi);
    lemma_div_pos_is_pos(j * sfi, dfi);
}

/// Resample frames of `channels` interleaved samples from `src_freq` to
/// `dev_freq` frames per second by nearest-neighbour index mapping.
pub fn resample(p: &Vec<u8>, channels: u16, src_freq: u32, dev_freq: u32) -> (r: Vec<u8>)
    requires
        channels == 1 || channels == 2,
        1 <= src_freq,
        1 <= dev_freq,
        spec_resampled(p@, channels as int, src_freq as int, dev_freq as int).len() <= usize::MAX,
    ensures
        r@ == spec_resampled(p@, channels as int, src_freq as int, dev_freq as int),
{
    let c: usize = channels as usize;
    let nf: usize = p.len() / c;
    proof {
        lemma_mul_nonnegative(nf as int, dev_freq as int);
        lemma_div_pos_is_pos(nf as int * dev_freq as int, src_freq as int);
        assert(nf as int * dev_freq as int <= 0xffff_ffff_ffff_ffff * 0xffff_ffff)
            by (nonlinear_arith)
            requires
                0 <= nf as int <= 0xffff_ffff_ffff_ffff,
                0 <= dev_freq as int <= 0xffff_ffff,
        ;
        let ofi = nf as int * dev_freq as int / src_freq as int;
        lemma_mul_nonnegative(ofi, c as int);
        assert(spec_resampled(p@, channels as int, src_freq as int, dev_freq as int).len() == ofi
            * c);
        assert(ofi <= ofi * (c as int)) by (nonlinear_arith)
            requires
                0 <= ofi,
                1 <= c as int,
        ;
    }
    let of: usize = ((nf as u128) * (dev_freq as u128) / (src_freq as u128)) as usize;
    let n: usize = of * c;
    let mut out: Vec<u8> = Vec::new();
    let mut t: usize = 0;
    while t < n
        invariant
            c == channels,
            1 <= c <= 2,
            1 <= src_freq,
            1 <= dev_freq,
            nf == p@.len() as int / c as int,
            p@.len() <= usize::MAX,
            of == nf as int * dev_freq as int / src_freq as int,
            n == of * c,
            t <= n,
            out@.len() == t,
            forall|j: int|
                0 <= j < t ==> out@[j] == p@[(j / (c as int)) * (src_freq as int) / (
                dev_freq as int) * (c as int) + j % (c as int)],
        decreases n - t,
    {
        let j: usize = t / c;
        let k: usize = t % c;
        proof {
            assert((c as int) * (of as int) == of as int * c as int) by (nonlinear_arith);
            lemma_multiply_divide_lt(t as int, c as int, of as int);
            lemma_div_pos_is_pos(t as int, c as int);
            lemma_resample_src_in_range(nf as int, src_freq as int, dev_freq as int, j as int);
            lemma_mod_bound(t as int, c as int);
            assert(j as int * src_freq as int <= 0xffff_ffff_ffff_ffff * 0xffff_ffff)
                by (nonlinear_arith)
                requires
                    0 <= j as int <= 0xffff_ffff_ffff_ffff,
                    0 <= src_freq as int <= 0xffff_ffff,
            ;
        }
        let src: usize = ((j as u128) * (src_freq as u128) / (dev_freq as u128)) as usize;
        proof {
            lemma_mul_inequality(src as int, nf as int - 1, c as int);
            assert((nf as int - 1) * c == nf as int * c - c) by (nonlinear_arith);
            assert(nf as int * c as int <= p@.len()) by {
                lemma_fundamental_div_mod(p@.len() as int, c as int);
                lemma_mod_bound(p@.len() as int, c as int);
            }
        }
        let idx: usize = src * c + k;
        out.push(p[idx]);
        t = t + 1;
    }
    proof {
        assert(out@ =~= spec_resampled(p@, channels as int, src_freq as int, dev_freq as int));
    }
    out
}

} // verus!
