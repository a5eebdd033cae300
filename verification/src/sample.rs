//! Canonical PCM samples and decoder output normalization.
//!
//! Every native sample representation a codec can yield is normalized into
//! one canonical format: full-scale signed 32-bit PCM, interleaved by
//! channel.  Each native range is scaled onto the canonical span by the
//! standard widening convention (the value is centred, then multiplied by
//! the ratio of the two ranges' widths), which keeps relative sample order
//! and maps the native minimum onto the canonical minimum.

use vstd::prelude::*;

verus! {

/// Canonical value of an unsigned 8-bit sample: centre on zero, then scale
/// the width 256 native range onto the width 2^32 canonical range.
pub open spec fn norm_u8_spec(v: u8) -> int {
    (v - 128) * 0x100_0000
}

/// Canonical value of a signed 16-bit sample.
pub open spec fn norm_s16_spec(v: i16) -> int {
    v * 0x1_0000
}

/// Normalize one unsigned 8-bit sample to canonical 32-bit PCM.
pub fn normalize_u8(v: u8) -> (r: i32)
    ensures
        r as int == norm_u8_spec(v),
{
    (v as i32 - 128) * 0x100_0000
}

/// Normalize one signed 16-bit sample to canonical 32-bit PCM.
pub fn normalize_s16(v: i16) -> (r: i32)
    ensures
        r as int == norm_s16_spec(v),
{
    (v as i32) * 0x1_0000
}

/// Normalizing an unsigned 8-bit sample preserves relative order, strictly.
pub proof fn lemma_norm_u8_order(a: u8, b: u8)
    ensures
        (a <= b) <==> (norm_u8_spec(a) <= norm_u8_spec(b)),
        (a < b) <==> (norm_u8_spec(a) < norm_u8_spec(b)),
{
}

/// Normalizing a signed 16-bit sample preserves relative order, strictly.
pub proof fn lemma_norm_s16_order(a: i16, b: i16)
    ensures
        (a <= b) <==> (norm_s16_spec(a) <= norm_s16_spec(b)),
        (a < b) <==> (norm_s16_spec(a) < norm_s16_spec(b)),
{
}

/// The native unsigned 8-bit range lands on the canonical span: the native
/// minimum maps to the canonical minimum, the native maximum to the top of
/// the canonical range less one native quantization step.
pub proof fn lemma_norm_u8_range(v: u8)
    ensures
        i32::MIN <= norm_u8_spec(v) <= i32::MAX,
        norm_u8_spec(0) == i32::MIN,
        norm_u8_spec(255) == i32::MAX - 0xFF_FFFF,
{
}

/// The native signed 16-bit range lands on the canonical span.
pub proof fn lemma_norm_s16_range(v: i16)
    ensures
        i32::MIN <= norm_s16_spec(v) <= i32::MAX,
        norm_s16_spec(i16::MIN) == i32::MIN,
        norm_s16_spec(i16::MAX) == i32::MAX - 0xFFFF,
{
}

/// One decoded packet's worth of native samples, as per-channel planes.
/// These are the integer representations the engine normalizes itself;
/// floating-point representations never enter the library.
pub enum PcmPacket {
    U8 { planes: Vec<Vec<u8>> },
    S16 { planes: Vec<Vec<i16>> },
}

/// Number of channel planes in a packet.
pub open spec fn packet_channels(p: PcmPacket) -> nat {
    match p {
        PcmPacket::U8 { planes } => planes@.len(),
        PcmPacket::S16 { planes } => planes@.len(),
    }
}

/// Number of frames (samples per channel) in a packet.
pub open spec fn packet_frames(p: PcmPacket) -> nat {
    match p {
        PcmPacket::U8 { planes } => if planes@.len() == 0 {
            0
        } else {
            planes@[0]@.len()
        },
        PcmPacket::S16 { planes } => if planes@.len() == 0 {
            0
        } else {
            planes@[0]@.len()
        },
    }
}

/// A packet is well formed when every channel plane has the same length.
pub open spec fn packet_wf(p: PcmPacket) -> bool {
    match p {
        PcmPacket::U8 { planes } => forall|c: int|
            0 <= c < planes@.len() ==> planes@[c]@.len() == packet_frames(p),
        PcmPacket::S16 { planes } => forall|c: int|
            0 <= c < planes@.len() ==> planes@[c]@.len() == packet_frames(p),
    }
}

/// Canonical value of the sample in channel `c` at frame `f`.
pub open spec fn packet_sample(p: PcmPacket, c: int, f: int) -> int {
    match p {
        PcmPacket::U8 { planes } => norm_u8_spec(planes@[c]@[f]),
        PcmPacket::S16 { planes } => norm_s16_spec(planes@[c]@[f]),
    }
}

/// A frame's slot lies strictly before the next frame's first slot.
proof fn lemma_flat_lt(f0: int, c0: int, f: int, channels: int)
    requires
        0 <= f0 < f,
        0 <= c0 < channels,
    ensures
        f0 * channels + c0 < f * channels,
{
    assert((f0 + 1) * channels <= f * channels) by (nonlinear_arith)
        requires
            0 <= f0 < f,
            channels > 0,
    ;
    assert((f0 + 1) * channels == f0 * channels + channels) by (nonlinear_arith);
}

/// Normalize a whole decoded packet into canonical interleaved PCM: frame
/// by frame, one canonical sample per channel, oldest frame first.
pub fn normalize_interleave(p: &PcmPacket) -> (out: Vec<i32>)
    requires
        packet_wf(*p),
    ensures
        out@.len() == packet_frames(*p) * packet_channels(*p),
        forall|f: int, c: int|
            0 <= f < packet_frames(*p) && 0 <= c < packet_channels(*p)
                ==> out@[f * packet_channels(*p) + c] == packet_sample(*p, c, f),
{
    let ghost gp = *p;
    let mut out: Vec<i32> = Vec::new();
    match p {
        PcmPacket::U8 { planes } => {
            let channels = planes.len();
            if channels == 0 {
                return out;
            }
            let frames = planes[0].len();
            let mut f: usize = 0;
            while f < frames
                invariant
                    packet_wf(gp),
                    gp == (PcmPacket::U8 { planes: *planes }),
                    channels == packet_channels(gp),
                    frames == packet_frames(gp),
                    f <= frames,
                    channels >= 1,
                    out@.len() == f * channels,
                    forall|f0: int, c0: int|
                        0 <= f0 < f && 0 <= c0 < channels
                            ==> out@[f0 * channels + c0] == packet_sample(gp, c0, f0),
                decreases frames - f,
            {
                let mut c: usize = 0;
                while c < channels
                    invariant
                        packet_wf(gp),
                        gp == (PcmPacket::U8 { planes: *planes }),
                        channels == packet_channels(gp),
                        frames == packet_frames(gp),
                        f < frames,
                        c <= channels,
                        channels >= 1,
                        out@.len() == f * channels + c,
                        forall|f0: int, c0: int|
                            0 <= f0 < f && 0 <= c0 < channels
                                ==> out@[f0 * channels + c0] == packet_sample(gp, c0, f0),
                        forall|c0: int|
                            0 <= c0 < c ==> out@[f * channels + c0] == packet_sample(gp, c0, f as int),
                    decreases channels - c,
                {
                    let s = normalize_u8(planes[c][f]);
                    out.push(s);
                    proof {
                        assert forall|f0: int, c0: int|
                            0 <= f0 < f && 0 <= c0 < channels implies out@[f0 * channels + c0]
                            == packet_sample(gp, c0, f0) by {
                            lemma_flat_lt(f0, c0, f as int, channels as int);
                        };
                    }
                    c += 1;
                }
                proof {
                    assert(f * channels + channels == (f + 1) * channels) by (nonlinear_arith);
                    assert forall|f0: int, c0: int|
                        0 <= f0 < f + 1 && 0 <= c0 < channels implies out@[f0 * channels + c0]
                        == packet_sample(gp, c0, f0) by {
                        if f0 < f {
                            assert(out@[f0 * channels + c0] == packet_sample(gp, c0, f0));
                        } else {
                            assert(out@[f * channels + c0] == packet_sample(gp, c0, f as int));
                        }
                    };
                }
                f += 1;
            }
            out
        },
        PcmPacket::S16 { planes } => {
            let channels = planes.len();
            if channels == 0 {
                return out;
            }
            let frames = planes[0].len();
            let mut f: usize = 0;
            while f < frames
                invariant
                    packet_wf(gp),
                    gp == (PcmPacket::S16 { planes: *planes }),
                    channels == packet_channels(gp),
                    frames == packet_frames(gp),
                    f <= frames,
                    channels >= 1,
                    out@.len() == f * channels,
                    forall|f0: int, c0: int|
                        0 <= f0 < f && 0 <= c0 < channels
                            ==> out@[f0 * channels + c0] == packet_sample(gp, c0, f0),
                decreases frames - f,
            {
                let mut c: usize = 0;
                while c < channels
                    invariant
                        packet_wf(gp),
                        gp == (PcmPacket::S16 { planes: *planes }),
                        channels == packet_channels(gp),
                        frames == packet_frames(gp),
                        f < frames,
                        c <= channels,
                        channels >= 1,
                        out@.len() == f * channels + c,
                        forall|f0: int, c0: int|
                            0 <= f0 < f && 0 <= c0 < channels
                                ==> out@[f0 * channels + c0] == packet_sample(gp, c0, f0),
                        forall|c0: int|
                            0 <= c0 < c ==> out@[f * channels + c0] == packet_sample(gp, c0, f as int),
                    decreases channels - c,
                {
                    let s = normalize_s16(planes[c][f]);
                    out.push(s);
                    proof {
                        assert forall|f0: int, c0: int|
                            0 <= f0 < f && 0 <= c0 < channels implies out@[f0 * channels + c0]
                            == packet_sample(gp, c0, f0) by {
                            lemma_flat_lt(f0, c0, f as int, channels as int);
                        };
                    }
                    c += 1;
                }
                proof {
                    assert(f * channels + channels == (f + 1) * channels) by (nonlinear_arith);
                    assert forall|f0: int, c0: int|
                        0 <= f0 < f + 1 && 0 <= c0 < channels implies out@[f0 * channels + c0]
                        == packet_sample(gp, c0, f0) by {
                        if f0 < f {
                            assert(out@[f0 * channels + c0] == packet_sample(gp, c0, f0));
                        } else {
                            assert(out@[f * channels + c0] == packet_sample(gp, c0, f as int));
                        }
                    };
                }
                f += 1;
            }
            out
        },
    }
}

} // verus!
