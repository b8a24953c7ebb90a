use lifelogging::audio::codec::registry::CodecRegistry;
use lifelogging::audio::codec::traits::{
    attachment_for, compression_ratio, content_disposition, Codec, CodecType, LossyCodec,
};
use lifelogging::error::CodecError;

struct Halving;

impl Codec for Halving {
    fn name(&self) -> &'static str {
        "HALF"
    }

    fn mime_type(&self) -> &'static str {
        "audio/x-half"
    }

    fn extension(&self) -> &'static str {
        "half"
    }

    fn codec_type(&self) -> CodecType {
        CodecType::Lossy
    }

    fn sample_bits(&self) -> u16 {
        16
    }

    fn encode(&self, data: &[i32], _sample_rate: u32) -> Result<Vec<u8>, CodecError> {
        Ok(data.iter().step_by(2).map(|&s| (s >> 8) as u8).collect())
    }

    fn decode(&self, data: &[u8], _sample_rate: u32) -> Result<Vec<i32>, CodecError> {
        Ok(data.iter().flat_map(|&b| [(b as i8 as i32) << 8; 2]).collect())
    }
}

impl LossyCodec for Halving {
    fn target_bitrate(&self) -> Option<u32> {
        None
    }
}

#[test]
fn codec_of_the_caller_plugs_in() {
    let mut registry: CodecRegistry<Box<dyn Codec>> = CodecRegistry::new();
    registry.register_as("half", Box::new(Halving));
    registry.register_as("wav", Box::new(lifelogging::audio::codec::wav::WavCodec::default()));
    let half = registry.get("half").unwrap();
    assert_eq!(half.name(), "HALF");
    assert!(half.is_lossy());
    assert!(!half.is_lossless());
    assert_eq!(half.codec_type(), CodecType::Lossy);
    assert_eq!(half.encode(&[256, 0, 512, 0], 8000).unwrap(), vec![1, 2]);
    assert_eq!(half.decode(&[1, 2], 8000).unwrap(), vec![256, 256, 512, 512]);
    let wav = registry.get("wav").unwrap();
    assert!(wav.is_lossless());
    assert_eq!(wav.encode(&[1], 8000).unwrap().len(), 46);
    assert!(registry.get("opus").is_none());
    assert_eq!(content_disposition(&Halving), "attachment; filename=\"audio.half\"");
    let ratio = compression_ratio(&Halving, &[0; 8], 8000).unwrap();
    assert_eq!((ratio.raw_bytes, ratio.encoded_bytes), (32, 4));
    assert_eq!(Halving.target_bitrate(), None);
    assert_eq!(attachment_for("flac"), "attachment; filename=\"audio.flac\"");
}
