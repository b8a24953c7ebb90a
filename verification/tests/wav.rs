use lifelogging::audio::codec::traits::{
    compression_ratio, compression_ratio_of, content_disposition, Codec, CodecType,
};
use lifelogging::audio::codec::wav::WavCodec;
use lifelogging::error::CodecError;
use std::time::Instant;

fn quantize(sample: f32, bits: u16) -> i32 {
    if bits == 16 {
        (sample.clamp(-1.0, 1.0) * 32767.0) as i32
    } else {
        (sample.clamp(-1.0, 1.0) * 2147483647.0) as i32
    }
}

fn dequantize(value: i32, bits: u16) -> f32 {
    if bits == 16 {
        value as f32 / 32767.0
    } else {
        value as f32 / 2147483647.0
    }
}

fn encode_float(codec: &WavCodec, samples: &[f32], rate: u32) -> Vec<u8> {
    let pcm: Vec<i32> = samples.iter().map(|&s| quantize(s, codec.bits_per_sample())).collect();
    codec.encode_samples(&pcm, rate).unwrap()
}

fn decode_float(codec: &WavCodec, bytes: &[u8], rate: u32) -> Vec<f32> {
    let pcm = codec.decode_samples(bytes, rate).unwrap();
    pcm.iter().map(|&v| dequantize(v, codec.bits_per_sample())).collect()
}

fn invalid_data(result: Result<Vec<i32>, CodecError>) -> &'static str {
    match result {
        Err(CodecError::InvalidData(reason)) => reason,
        other => panic!("expected an invalid-data error, got {:?}", other),
    }
}

#[test]
fn five_samples_at_8000() {
    let codec = WavCodec::new(16).unwrap();
    let input = [0.0f32, 0.5, -0.5, 1.0, -1.0];
    let bytes = encode_float(&codec, &input, 8000);
    let expected: Vec<u8> = vec![
        0x52, 0x49, 0x46, 0x46, 0x2e, 0x00, 0x00, 0x00, 0x57, 0x41, 0x56, 0x45, 0x66, 0x6d, 0x74,
        0x20, 0x10, 0x00, 0x00, 0x00, 0x01, 0x00, 0x01, 0x00, 0x40, 0x1f, 0x00, 0x00, 0x80, 0x3e,
        0x00, 0x00, 0x02, 0x00, 0x10, 0x00, 0x64, 0x61, 0x74, 0x61, 0x0a, 0x00, 0x00, 0x00, 0x00,
        0x00, 0xff, 0x3f, 0x01, 0xc0, 0xff, 0x7f, 0x01, 0x80,
    ];
    assert_eq!(bytes.len(), 44 + 10);
    assert_eq!(bytes, expected);
    let decoded = decode_float(&codec, &bytes, 8000);
    assert_eq!(decoded.len(), 5);
    for (x, y) in input.iter().zip(decoded.iter()) {
        assert!((x - y).abs() < 1.0 / 32767.0);
    }
}

#[test]
fn header_matches_the_text() {
    let codec = WavCodec::new(16).unwrap();
    let header = codec.write_header(3, 44100);
    assert_eq!(header.len(), 44);
    assert_eq!(&header[0..4], b"RIFF");
    assert_eq!(u32::from_le_bytes([header[4], header[5], header[6], header[7]]), 36 + 6);
    assert_eq!(&header[8..12], b"WAVE");
    assert_eq!(&header[12..16], b"fmt ");
    assert_eq!(u32::from_le_bytes([header[16], header[17], header[18], header[19]]), 16);
    assert_eq!(u16::from_le_bytes([header[20], header[21]]), 1);
    assert_eq!(u16::from_le_bytes([header[22], header[23]]), 1);
    assert_eq!(u32::from_le_bytes([header[24], header[25], header[26], header[27]]), 44100);
    assert_eq!(u32::from_le_bytes([header[28], header[29], header[30], header[31]]), 88200);
    assert_eq!(u16::from_le_bytes([header[32], header[33]]), 2);
    assert_eq!(u16::from_le_bytes([header[34], header[35]]), 16);
    assert_eq!(&header[36..40], b"data");
    assert_eq!(u32::from_le_bytes([header[40], header[41], header[42], header[43]]), 6);
    let wide = WavCodec::new(32).unwrap();
    let header = wide.write_header(3, 44100);
    assert_eq!(u32::from_le_bytes([header[28], header[29], header[30], header[31]]), 176400);
    assert_eq!(u16::from_le_bytes([header[32], header[33]]), 4);
    assert_eq!(u16::from_le_bytes([header[34], header[35]]), 32);
    assert_eq!(u32::from_le_bytes([header[40], header[41], header[42], header[43]]), 12);
}

#[test]
fn only_16_and_32_bits() {
    assert!(WavCodec::new(16).is_ok());
    assert!(WavCodec::new(32).is_ok());
    for bits in [0u16, 8, 15, 17, 24, 31, 33, 64] {
        match WavCodec::new(bits) {
            Err(CodecError::InvalidConfiguration(reason)) => {
                assert_eq!(reason, "WAV only supports 16 or 32 bits per sample")
            }
            other => panic!("expected a configuration error, got {:?}", other),
        }
    }
    assert_eq!(WavCodec::default().bits_per_sample(), 16);
}

#[test]
fn malformed_files_are_told_apart() {
    let codec = WavCodec::default();
    let short = invalid_data(codec.decode_samples(&[0u8; 10], 8000));
    assert_eq!(short, "WAV header too short");
    let mut wrong = encode_float(&codec, &[0.0, 0.0], 8000);
    wrong[0] = b'X';
    let magic = invalid_data(codec.decode_samples(&wrong, 8000));
    assert_eq!(magic, "Invalid WAV header");
    let mut wave = encode_float(&codec, &[0.0, 0.0], 8000);
    wave[8] = b'w';
    assert_eq!(invalid_data(codec.decode_samples(&wave, 8000)), "Invalid WAV header");
    let mut headless = encode_float(&codec, &[0.0, 0.0, 0.0, 0.0], 8000);
    headless[36..40].copy_from_slice(b"junk");
    let missing = invalid_data(codec.decode_samples(&headless, 8000));
    assert_eq!(missing, "No data chunk found");
    assert_ne!(short, magic);
    assert_ne!(short, missing);
    assert_ne!(magic, missing);
    assert_eq!(invalid_data(codec.decode_samples(&[], 8000)), "WAV header too short");
    assert_eq!(invalid_data(codec.decode_samples(&[0u8; 43], 8000)), "WAV header too short");
    assert_eq!(invalid_data(codec.decode_samples(&[0u8; 44], 8000)), "Invalid WAV header");
}

#[test]
fn unknown_chunks_are_passed_over() {
    let codec = WavCodec::default();
    let plain = encode_float(&codec, &[0.25, -0.25, 0.75], 16000);
    let mut file: Vec<u8> = plain[..36].to_vec();
    file.extend_from_slice(b"LIST");
    file.extend_from_slice(&5u32.to_le_bytes());
    file.extend_from_slice(&[1, 2, 3, 4, 5]);
    file.extend_from_slice(&plain[36..]);
    assert_eq!(
        codec.decode_samples(&file, 16000).unwrap(),
        codec.decode_samples(&plain, 16000).unwrap()
    );
    assert_eq!(codec.decode_samples(&plain, 16000).unwrap(), vec![8191, -8191, 24575]);
}

#[test]
fn chunk_that_claims_too_much_ends_the_search() {
    let codec = WavCodec::default();
    let plain = encode_float(&codec, &[0.25, -0.25, 0.75, 0.5, 0.5, 0.5], 16000);
    let mut file: Vec<u8> = plain[..12].to_vec();
    file.extend_from_slice(b"LIST");
    file.extend_from_slice(&u32::MAX.to_le_bytes());
    file.extend_from_slice(&plain[12..]);
    assert_eq!(invalid_data(codec.decode_samples(&file, 16000)), "No data chunk found");
}

#[test]
fn trailing_bytes_short_of_a_sample_are_left() {
    let codec = WavCodec::default();
    let mut file = encode_float(&codec, &[0.5, 0.5], 8000);
    file.push(0x7f);
    assert_eq!(codec.decode_samples(&file, 8000).unwrap(), vec![16383, 16383]);
    let wide = WavCodec::new(32).unwrap();
    let mut file = wide.encode_samples(&[1, -1], 8000).unwrap();
    file.extend_from_slice(&[1, 2, 3]);
    assert_eq!(wide.decode_samples(&file, 8000).unwrap(), vec![1, -1]);
}

#[test]
fn samples_are_clamped_to_full_scale() {
    let codec = WavCodec::default();
    let file = codec.encode_samples(&[40000, -40000, 32767, -32767, -32768, 0], 8000).unwrap();
    assert_eq!(
        codec.decode_samples(&file, 8000).unwrap(),
        vec![32767, -32767, 32767, -32767, -32767, 0]
    );
    let wide = WavCodec::new(32).unwrap();
    let file = wide.encode_samples(&[i32::MAX, i32::MIN, -2147483647, 123456789], 8000).unwrap();
    assert_eq!(
        wide.decode_samples(&file, 8000).unwrap(),
        vec![2147483647, -2147483647, -2147483647, 123456789]
    );
    assert_eq!(codec.encode_sample(70000), vec![0xff, 0x7f]);
    assert_eq!(codec.encode_sample(-1), vec![0xff, 0xff]);
    assert_eq!(wide.encode_sample(-2), vec![0xfe, 0xff, 0xff, 0xff]);
    assert_eq!(wide.encode_sample(0x01020304), vec![0x04, 0x03, 0x02, 0x01]);
}

#[test]
fn one_sample_from_its_bytes() {
    let codec = WavCodec::default();
    assert_eq!(codec.decode_sample(&[0xff, 0x7f]).unwrap(), 32767);
    assert_eq!(codec.decode_sample(&[0x00, 0x80]).unwrap(), -32768);
    assert_eq!(codec.decode_sample(&[0x01, 0xc0]).unwrap(), -16383);
    match codec.decode_sample(&[1, 2, 3]) {
        Err(CodecError::InvalidData(reason)) => assert_eq!(reason, "Invalid sample data"),
        other => panic!("expected an invalid-data error, got {:?}", other),
    }
    let wide = WavCodec::new(32).unwrap();
    assert_eq!(wide.decode_sample(&[0x04, 0x03, 0x02, 0x01]).unwrap(), 0x01020304);
    assert_eq!(wide.decode_sample(&[0x00, 0x00, 0x00, 0x80]).unwrap(), i32::MIN);
    assert!(wide.decode_sample(&[0x00, 0x00]).is_err());
}

#[test]
fn rates_that_the_header_cannot_hold_are_refused() {
    let codec = WavCodec::default();
    match codec.encode_samples(&[0], u32::MAX) {
        Err(CodecError::UnsupportedSampleRate(rate)) => assert_eq!(rate, u32::MAX),
        other => panic!("expected an unsupported rate, got {:?}", other),
    }
    assert!(codec.encode_samples(&[0], u32::MAX / 2).is_ok());
    assert!(codec.encode_samples(&[0], u32::MAX / 2 + 1).is_err());
    let wide = WavCodec::new(32).unwrap();
    assert!(wide.encode_samples(&[0], u32::MAX / 4).is_ok());
    assert!(wide.encode_samples(&[0], u32::MAX / 4 + 1).is_err());
}

#[test]
fn round_trip_stays_within_one_step() {
    let codec = WavCodec::default();
    let mut x = -1.0f32;
    let mut samples = Vec::new();
    while x <= 1.0 {
        samples.push(x);
        x += 0.000_37;
    }
    samples.push(1.0);
    for &x in samples.iter() {
        let decoded = decode_float(&codec, &encode_float(&codec, &[x], 44100), 44100);
        assert_eq!(decoded.len(), 1);
        assert!((decoded[0] - x).abs() < 1.0 / 32767.0);
    }
}

#[test]
fn integer_samples_come_back_exactly() {
    let codec = WavCodec::default();
    let samples: Vec<i32> = (-32767..=32767).collect();
    let file = codec.encode_samples(&samples, 22050).unwrap();
    assert_eq!(file.len(), 44 + 2 * samples.len());
    assert_eq!(codec.decode_samples(&file, 22050).unwrap(), samples);
    let wide = WavCodec::new(32).unwrap();
    let samples: Vec<i32> = vec![0, 1, -1, 65536, -65536, 2147483647, -2147483647];
    let file = wide.encode_samples(&samples, 22050).unwrap();
    assert_eq!(file.len(), 44 + 4 * samples.len());
    assert_eq!(wide.decode_samples(&file, 22050).unwrap(), samples);
}

#[test]
fn test_wav_codec() {
    let codec = WavCodec::default();
    let rate = 48000u32;
    let mut sweep = Vec::new();
    for i in 0..(rate as usize * 5) {
        let t = i as f32 / rate as f32;
        let freq = 20.0 * (1000.0f32).powf(t / 5.0);
        sweep.push((2.0 * std::f32::consts::PI * freq * t).sin());
    }
    let mut seed = 0x2545_f491u32;
    let mut noise = Vec::new();
    for _ in 0..(rate as usize * 5) {
        seed = seed.wrapping_mul(1664525).wrapping_add(1013904223);
        noise.push((seed >> 8) as f32 / 8388607.5 - 1.0);
    }
    let mut impulses = vec![0.0f32; rate as usize];
    for i in 0..10 {
        impulses[i * rate as usize / 10] = 1.0;
    }
    for samples in [&sweep, &noise, &impulses] {
        let start = Instant::now();
        let encoded = encode_float(&codec, samples, rate);
        let encode_duration = start.elapsed();
        let decoded = decode_float(&codec, &encoded, rate);
        assert_eq!(samples.len(), decoded.len());
        let duration_secs = samples.len() as f32 / rate as f32;
        assert!(duration_secs / encode_duration.as_secs_f32() > 1.0);
        for (x, y) in samples.iter().zip(decoded.iter()) {
            assert!((x - y).abs() < 1.0 / 32767.0);
        }
    }
    assert_eq!(decode_float(&codec, &encode_float(&codec, &impulses, rate), rate), impulses);
}

#[test]
fn wav_codec_describes_itself() {
    let codec = WavCodec::default();
    assert_eq!(codec.name(), "WAV");
    assert_eq!(codec.mime_type(), "audio/wav");
    assert_eq!(codec.extension(), "wav");
    assert!(codec.is_lossless());
    assert!(!codec.is_lossy());
    assert_eq!(codec.codec_type(), CodecType::Lossless);
    assert_eq!(codec.sample_bits(), 16);
    assert_eq!(content_disposition(&codec), "attachment; filename=\"audio.wav\"");
    assert_ne!(CodecType::Lossy, CodecType::Lossless);
}

#[test]
fn codec_interface_encodes_and_decodes() {
    let codec = WavCodec::default();
    let bytes = Codec::encode(&codec, &[1, 2, 3], 8000).unwrap();
    assert_eq!(bytes.len(), 50);
    assert_eq!(Codec::decode(&codec, &bytes, 8000).unwrap(), vec![1, 2, 3]);
    assert!(Codec::encode(&codec, &[1], u32::MAX).is_err());
}

#[test]
fn compression_ratio_is_raw_over_encoded() {
    let codec = WavCodec::default();
    let ratio = compression_ratio(&codec, &[0; 100], 8000).unwrap();
    assert_eq!(ratio.raw_bytes, 400);
    assert_eq!(ratio.encoded_bytes, 244);
    let ratio = compression_ratio_of(10, &[0u8; 8]);
    assert_eq!((ratio.raw_bytes, ratio.encoded_bytes), (40, 8));
    assert!(compression_ratio(&codec, &[0; 4], u32::MAX).is_err());
}
