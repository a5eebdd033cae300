use termtunes::sample::{normalize_interleave, normalize_s16, normalize_u8, PcmPacket};

#[test]
fn u8_maps_native_range_onto_canonical_span() {
    assert_eq!(normalize_u8(0), i32::MIN);
    assert_eq!(normalize_u8(128), 0);
    assert_eq!(normalize_u8(255), i32::MAX - 0xFF_FFFF);
}

#[test]
fn s16_maps_native_range_onto_canonical_span() {
    assert_eq!(normalize_s16(i16::MIN), i32::MIN);
    assert_eq!(normalize_s16(0), 0);
    assert_eq!(normalize_s16(1), 0x1_0000);
    assert_eq!(normalize_s16(i16::MAX), i32::MAX - 0xFFFF);
}

#[test]
fn normalization_preserves_relative_order() {
    let mut prev_u8 = None;
    for v in 0..=255u8 {
        let n = normalize_u8(v);
        if let Some(p) = prev_u8 {
            assert!(n > p);
        }
        prev_u8 = Some(n);
    }
    let mut prev = None;
    for v in (-32768i32..=32767).step_by(37) {
        let n = normalize_s16(v as i16);
        if let Some(p) = prev {
            assert!(n > p);
        }
        prev = Some(n);
    }
}

#[test]
fn interleave_orders_frames_then_channels() {
    let pkt = PcmPacket::S16 {
        planes: vec![vec![1, 2, 3], vec![-1, -2, -3]],
    };
    let out = normalize_interleave(&pkt);
    assert_eq!(
        out,
        vec![
            0x1_0000, -0x1_0000, 0x2_0000, -0x2_0000, 0x3_0000, -0x3_0000
        ]
    );
}

#[test]
fn interleave_of_u8_packet() {
    let pkt = PcmPacket::U8 {
        planes: vec![vec![128, 129, 127]],
    };
    let out = normalize_interleave(&pkt);
    assert_eq!(out, vec![0, 0x100_0000, -0x100_0000]);
}

/// A minimal 16-bit PCM WAV file with the given mono samples.
fn wav_s16_mono(sample_rate: u32, samples: &[i16]) -> Vec<u8> {
    let data_len = (samples.len() * 2) as u32;
    let mut out = Vec::new();
    out.extend_from_slice(b"RIFF");
    out.extend_from_slice(&(36 + data_len).to_le_bytes());
    out.extend_from_slice(b"WAVE");
    out.extend_from_slice(b"fmt ");
    out.extend_from_slice(&16u32.to_le_bytes());
    out.extend_from_slice(&1u16.to_le_bytes());
    out.extend_from_slice(&1u16.to_le_bytes());
    out.extend_from_slice(&sample_rate.to_le_bytes());
    out.extend_from_slice(&(sample_rate * 2).to_le_bytes());
    out.extend_from_slice(&2u16.to_le_bytes());
    out.extend_from_slice(&16u16.to_le_bytes());
    out.extend_from_slice(b"data");
    out.extend_from_slice(&data_len.to_le_bytes());
    for s in samples {
        out.extend_from_slice(&s.to_le_bytes());
    }
    out
}

/// Decoding a synthetic ascending tone and normalizing it keeps the exact
/// sample order and scales each value by the native-to-canonical ratio.
#[test]
fn decode_then_normalize_round_trip() {
    let tone: Vec<i16> = (0..2000).map(|i| (i - 1000) as i16).collect();
    let bytes = wav_s16_mono(8000, &tone);

    let mss = symphonia::core::io::MediaSourceStream::new(
        Box::new(std::io::Cursor::new(bytes)),
        symphonia::core::io::MediaSourceStreamOptions::default(),
    );
    let probed = symphonia::default::get_probe()
        .format(
            &symphonia::core::probe::Hint::new(),
            mss,
            &symphonia::core::formats::FormatOptions::default(),
            &symphonia::core::meta::MetadataOptions::default(),
        )
        .expect("probe");
    let mut format = probed.format;
    let track = format
        .tracks()
        .iter()
        .find(|t| t.codec_params.codec != symphonia::core::codecs::CODEC_TYPE_NULL)
        .expect("track")
        .clone();
    let mut decoder = symphonia::default::get_codecs()
        .make(&track.codec_params, &symphonia::core::codecs::DecoderOptions::default())
        .expect("decoder");

    let mut all: Vec<i32> = Vec::new();
    while let Ok(packet) = format.next_packet() {
        let decoded = decoder.decode(&packet).expect("decode");
        let channels = decoded.spec().channels.count();
        let frames = decoded.frames();
        match decoded {
            symphonia::core::audio::AudioBufferRef::S16(buf) => {
                let mut planes: Vec<Vec<i16>> = Vec::new();
                for ch in 0..channels {
                    let plane: &[i16] = symphonia::core::audio::Signal::chan(&*buf, ch);
                    planes.push(plane[..frames].to_vec());
                }
                all.extend(normalize_interleave(&PcmPacket::S16 { planes }));
            }
            _ => panic!("expected 16-bit buffers from a 16-bit wav"),
        }
    }

    assert_eq!(all.len(), tone.len());
    for (i, s) in tone.iter().enumerate() {
        assert_eq!(all[i], (*s as i32) * 0x1_0000);
    }
    for w in all.windows(2) {
        assert!(w[0] < w[1]);
    }
}
