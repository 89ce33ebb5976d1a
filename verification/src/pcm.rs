use vstd::prelude::*;
use vstd::string::StringExecFns;

use crate::sources::PlayerSourceError;

verus! {

/// Little-endian PCM sample encodings the player reads without a codec.
#[derive(Debug, Clone, Copy, PartialEq, Eq, Structural)]
pub enum PcmCodec {
    U8,
    S16Le,
    S24Le,
    S32Le,
    F32Le,
}

pub open spec fn sample_width(codec: PcmCodec) -> nat {
    match codec {
        PcmCodec::U8 => 1,
        PcmCodec::S16Le => 2,
        PcmCodec::S24Le => 3,
        PcmCodec::S32Le => 4,
        PcmCodec::F32Le => 4,
    }
}

/// Bytes one sample of `codec` takes.
pub fn pcm_sample_bytes(codec: PcmCodec) -> (n: usize)
    ensures
        n == sample_width(codec),
{
    match codec {
        PcmCodec::U8 => 1,
        PcmCodec::S16Le => 2,
        PcmCodec::S24Le => 3,
        PcmCodec::S32Le => 4,
        PcmCodec::F32Le => 4,
    }
}

/// Bytes of one interleaved frame; the product saturates.
pub open spec fn frame_size(channels: usize, sample_bytes: usize) -> nat {
    if channels * sample_bytes > usize::MAX { usize::MAX as nat } else { (channels * sample_bytes) as nat }
}

/// How the interleaved frames of a PCM track are laid out.
#[derive(Debug, Clone, Copy, PartialEq, Eq, Structural)]
pub struct PcmLayout {
    pub codec: PcmCodec,
    pub sample_rate: u32,
    pub channels: usize,
    pub sample_bytes: usize,
    pub frame_bytes: usize,
}

/// The layout of a PCM track from its parameters, checked in order: a sample rate must be
/// known and non-zero, a channel count must be known, the codec must be a supported PCM
/// encoding, and a frame must hold at least one byte.
pub fn pcm_track_layout(sample_rate: Option<u32>, channels: Option<usize>, codec: Option<PcmCodec>) -> (r:
    Result<PcmLayout, PlayerSourceError>)
    ensures
        !(sample_rate matches Some(rate) && rate > 0) ==> r matches Err(
            PlayerSourceError::MissingSampleRate,
        ),
        (sample_rate matches Some(rate) && rate > 0) && channels is None ==> (r matches Err(
            PlayerSourceError::Decode(message),
        ) && message@ == "pcm track has no channel count"@),
        (sample_rate matches Some(rate) && rate > 0) && channels is Some && codec is None
            ==> (r matches Err(PlayerSourceError::Decode(message)) && message@
            == "unsupported pcm codec"@),
        r matches Ok(layout) ==> {
            &&& sample_rate == Some(layout.sample_rate)
            &&& layout.sample_rate > 0
            &&& channels == Some(layout.channels)
            &&& codec == Some(layout.codec)
            &&& layout.channels > 0
            &&& layout.sample_bytes == sample_width(layout.codec)
            &&& layout.frame_bytes == frame_size(layout.channels, layout.sample_bytes)
        },
        (sample_rate matches Some(rate) && rate > 0) && (channels matches Some(c) && c > 0)
            && codec is Some ==> r is Ok,
        (sample_rate matches Some(rate) && rate > 0) && channels == Some(0usize) && codec is Some
            ==> (r matches Err(PlayerSourceError::Decode(message)) && message@
            == "pcm track has invalid channel count"@),
{
    let rate = match sample_rate {
        Some(rate) => rate,
        None => {
            return Err(PlayerSourceError::MissingSampleRate);
        },
    };
    if rate == 0 {
        return Err(PlayerSourceError::MissingSampleRate);
    }
    let channels = match channels {
        Some(c) => c,
        None => {
            return Err(PlayerSourceError::Decode(String::from_str("pcm track has no channel count")));
        },
    };
    let codec = match codec {
        Some(c) => c,
        None => {
            return Err(PlayerSourceError::Decode(String::from_str("unsupported pcm codec")));
        },
    };
    let sample_bytes = pcm_sample_bytes(codec);
    let frame_bytes = match channels.checked_mul(sample_bytes) {
        Some(n) => {
            assert(channels > 0 ==> n >= 1) by (nonlinear_arith)
                requires
                    n == channels * sample_bytes,
                    sample_bytes >= 1,
            ;
            n
        },
        None => usize::MAX,
    };
    if channels == 0 || frame_bytes == 0 {
        return Err(
            PlayerSourceError::Decode(String::from_str("pcm track has invalid channel count")),
        );
    }
    Ok(PcmLayout { codec, sample_rate: rate, channels, sample_bytes, frame_bytes })
}

/// One decoded PCM sample before scaling: its integer value, or the bit pattern of an f32.
#[derive(Debug, Clone, Copy, PartialEq, Eq, Structural)]
pub enum PcmRaw {
    U8(u8),
    S16(i32),
    S24(i32),
    S32(i32),
    F32Bits(u32),
}

/// Little-endian unsigned value of `bytes[offset..offset + n]`.
pub open spec fn le_value(bytes: Seq<u8>, offset: int, n: nat) -> nat
    decreases n,
{
    if n == 0 {
        0
    } else {
        bytes[offset] as nat + 256 * le_value(bytes, offset + 1, (n - 1) as nat)
    }
}

/// The two's-complement reading of an `n`-byte unsigned value.
pub open spec fn signed_value(v: nat, n: nat) -> int {
    let half = vstd::arithmetic::power2::pow2((8 * n - 1) as nat);
    if v >= half { v - 2 * half } else { v as int }
}

/// The sample of `codec` stored at `offset` in `bytes`.
pub open spec fn raw_sample(codec: PcmCodec, bytes: Seq<u8>, offset: int) -> PcmRaw {
    match codec {
        PcmCodec::U8 => PcmRaw::U8(bytes[offset]),
        PcmCodec::S16Le => PcmRaw::S16(signed_value(le_value(bytes, offset, 2), 2) as i32),
        PcmCodec::S24Le => PcmRaw::S24(signed_value(le_value(bytes, offset, 3), 3) as i32),
        PcmCodec::S32Le => PcmRaw::S32(signed_value(le_value(bytes, offset, 4), 4) as i32),
        PcmCodec::F32Le => PcmRaw::F32Bits(le_value(bytes, offset, 4) as u32),
    }
}

proof fn lemma_pow2_values()
    ensures
        vstd::arithmetic::power2::pow2(7) == 128,
        vstd::arithmetic::power2::pow2(15) == 32768,
        vstd::arithmetic::power2::pow2(23) == 0x80_0000,
        vstd::arithmetic::power2::pow2(31) == 0x8000_0000,
{
    vstd::arithmetic::power2::lemma2_to64();
}

/// Reads the sample of `codec` at `offset` in `bytes`.
pub fn read_raw_sample(codec: PcmCodec, bytes: &[u8], offset: usize) -> (r: PcmRaw)
    requires
        offset + sample_width(codec) <= bytes@.len(),
    ensures
        r == raw_sample(codec, bytes@, offset as int),
{
    proof {
        lemma_pow2_values();
    }
    match codec {
        PcmCodec::U8 => PcmRaw::U8(bytes[offset]),
        PcmCodec::S16Le => {
            let v: u32 = bytes[offset] as u32 + 256 * bytes[offset + 1] as u32;
            assert(v == le_value(bytes@, offset as int, 2)) by {
                reveal_with_fuel(le_value, 3);
            }
            let s: i32 = if v >= 32768 { v as i32 - 65536 } else { v as i32 };
            PcmRaw::S16(s)
        },
        PcmCodec::S24Le => {
            let v: u32 = bytes[offset] as u32 + 256 * bytes[offset + 1] as u32 + 65536
                * bytes[offset + 2] as u32;
            assert(v == le_value(bytes@, offset as int, 3)) by {
                reveal_with_fuel(le_value, 4);
            }
            let s: i32 = if v >= 0x80_0000 { v as i32 - 0x100_0000 } else { v as i32 };
            PcmRaw::S24(s)
        },
        PcmCodec::S32Le => {
            let v: u64 = bytes[offset] as u64 + 256 * bytes[offset + 1] as u64 + 65536
                * bytes[offset + 2] as u64 + 0x100_0000 * bytes[offset + 3] as u64;
            assert(v == le_value(bytes@, offset as int, 4)) by {
                reveal_with_fuel(le_value, 5);
            }
            let s: i64 = if v >= 0x8000_0000 { v as i64 - 0x1_0000_0000 } else { v as i64 };
            PcmRaw::S32(s as i32)
        },
        PcmCodec::F32Le => {
            let v: u32 = bytes[offset] as u32 + 256 * bytes[offset + 1] as u32 + 65536
                * bytes[offset + 2] as u32 + 0x100_0000 * bytes[offset + 3] as u32;
            assert(v == le_value(bytes@, offset as int, 4)) by {
                reveal_with_fuel(le_value, 5);
            }
            PcmRaw::F32Bits(v)
        },
    }
}

/// Left and right samples of the whole frames in a packet of interleaved PCM: a mono
/// frame is heard on both sides, further channels are ignored, and trailing bytes that do
/// not make a whole frame are dropped.
pub fn pcm_packet_frames(data: &[u8], layout: PcmLayout) -> (frames: Vec<(PcmRaw, PcmRaw)>)
    requires
        layout.channels > 0,
        layout.sample_bytes == sample_width(layout.codec),
        layout.frame_bytes == frame_size(layout.channels, layout.sample_bytes),
    ensures
        frames@.len() == data@.len() / layout.frame_bytes as nat,
        forall|i: int|
            0 <= i < frames@.len() ==> (#[trigger] frames@[i]).0 == raw_sample(
                layout.codec,
                data@,
                i * layout.frame_bytes,
            ) && frames@[i].1 == if layout.channels == 1 {
                frames@[i].0
            } else {
                raw_sample(layout.codec, data@, i * layout.frame_bytes + layout.sample_bytes)
            },
{
    let fb = layout.frame_bytes;
    let sb = layout.sample_bytes;
    assert(fb >= sb && (layout.channels >= 2 ==> fb >= 2 * sb)) by (nonlinear_arith)
        requires
            fb == (if layout.channels * sb > usize::MAX { usize::MAX as int } else { layout.channels * sb }),
            layout.channels >= 1,
            1 <= sb <= 4,
    ;
    let count = data.len() / fb;
    let mut frames: Vec<(PcmRaw, PcmRaw)> = Vec::new();
    let mut i: usize = 0;
    while i < count
        invariant
            fb == layout.frame_bytes,
            sb == layout.sample_bytes,
            fb >= sb,
            layout.channels >= 2 ==> fb >= 2 * sb,
            sb == sample_width(layout.codec),
            layout.channels > 0,
            count == data@.len() / fb as nat,
            0 <= i <= count,
            frames@.len() == i,
            forall|k: int|
                0 <= k < i ==> (#[trigger] frames@[k]).0 == raw_sample(
                    layout.codec,
                    data@,
                    k * fb,
                ) && frames@[k].1 == if layout.channels == 1 {
                    frames@[k].0
                } else {
                    raw_sample(layout.codec, data@, k * fb + sb)
                },
        decreases count - i,
    {
        assert((i + 1) * fb <= data@.len()) by (nonlinear_arith)
            requires
                i < count,
                count == data@.len() / fb as nat,
                fb > 0,
        ;
        assert(i * fb + fb == (i + 1) * fb) by (nonlinear_arith);
        assert(i * fb + fb <= data@.len());
        assert(data@.len() == data.len());
        let start = i * fb;
        let left = read_raw_sample(layout.codec, data, start);
        let right = if layout.channels == 1 {
            left
        } else {
            read_raw_sample(layout.codec, data, start + sb)
        };
        frames.push((left, right));
        i = i + 1;
    }
    frames
}

} // verus!
