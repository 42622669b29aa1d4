use innervoice_core::audio::{decode_wav_pcm16_mono, prepare_transcription, validate_encoding};
use innervoice_core::error::ErrorKind;
use innervoice_core::speech::EngineState;

fn wav_bytes(channels: u16, sample_rate: u32, bits: u16, samples: &[i16]) -> Vec<u8> {
    let spec = hound::WavSpec {
        channels,
        sample_rate,
        bits_per_sample: bits,
        sample_format: hound::SampleFormat::Int,
    };
    let mut buf: Vec<u8> = Vec::new();
    {
        let cursor = std::io::Cursor::new(&mut buf);
        let mut writer = hound::WavWriter::new(cursor, spec).unwrap();
        for s in samples {
            if bits == 16 {
                writer.write_sample(*s).unwrap();
            } else {
                writer.write_sample(*s as i8).unwrap();
            }
        }
        writer.finalize().unwrap();
    }
    buf
}

#[test]
fn valid_wav_yields_samples_in_order() {
    let bytes = wav_bytes(1, 16000, 16, &[0, 1000, -1000, 32767]);
    let samples = decode_wav_pcm16_mono(&bytes).unwrap();
    assert_eq!(samples, vec![0, 1000, -1000, 32767]);
}

#[test]
fn stereo_audio_is_invalid_naming_channel_count() {
    let bytes = wav_bytes(2, 16000, 16, &[1, 2, 3, 4]);
    let e = decode_wav_pcm16_mono(&bytes).unwrap_err();
    assert_eq!(e.kind, ErrorKind::InvalidAudioFormat);
    assert_eq!(e.message, "audio has 2 channels; expected mono (1 channel)");
}

#[test]
fn wrong_sample_rate_is_invalid_naming_rate() {
    let bytes = wav_bytes(1, 44100, 16, &[1, 2]);
    let e = decode_wav_pcm16_mono(&bytes).unwrap_err();
    assert_eq!(e.kind, ErrorKind::InvalidAudioFormat);
    assert_eq!(e.message, "audio has 44100 Hz; expected 16000 Hz");
}

#[test]
fn eight_bit_samples_are_invalid_naming_depth() {
    let bytes = wav_bytes(1, 16000, 8, &[1, 2]);
    let e = decode_wav_pcm16_mono(&bytes).unwrap_err();
    assert_eq!(e.kind, ErrorKind::InvalidAudioFormat);
    assert_eq!(
        e.message,
        "audio is not 16-bit signed integer PCM; bits per sample: 8; sample format: integer"
    );
}

#[test]
fn garbage_bytes_are_an_audio_read_error() {
    let bytes = vec![1u8, 2, 3, 4, 5];
    let e = decode_wav_pcm16_mono(&bytes).unwrap_err();
    assert_eq!(e.kind, ErrorKind::AudioReadError);
}

#[test]
fn validate_encoding_accepts_the_contract() {
    assert!(validate_encoding(1, 16000, 16, true).is_ok());
}

#[test]
fn validate_encoding_rejects_each_deviation() {
    let e = validate_encoding(2, 16000, 16, true).unwrap_err();
    assert_eq!(e.kind, ErrorKind::InvalidAudioFormat);
    assert!(e.message.contains("2 channels"));
    let e = validate_encoding(1, 44100, 16, true).unwrap_err();
    assert!(e.message.contains("44100 Hz"));
    let e = validate_encoding(1, 16000, 32, false).unwrap_err();
    assert!(e.message.contains("32"));
    assert!(e.message.contains("float"));
    let e = validate_encoding(1, 16000, 16, false).unwrap_err();
    assert_eq!(e.kind, ErrorKind::InvalidAudioFormat);
    let e = validate_encoding(0, 16000, 16, true).unwrap_err();
    assert!(e.message.contains("0 channels"));
}

#[test]
fn transcription_before_any_load_is_not_initialized() {
    let state: EngineState<u64> = EngineState::Uninitialized;
    let bytes = wav_bytes(1, 16000, 16, &[1, 2]);
    let e = prepare_transcription(&state, &bytes, Some(String::from("English"))).unwrap_err();
    assert_eq!(e.kind, ErrorKind::NotInitialized);
}

#[test]
fn prepared_request_has_samples_and_language() {
    let state: EngineState<u64> = EngineState::Ready(5);
    let bytes = wav_bytes(1, 16000, 16, &[7, -7]);
    let plan = prepare_transcription(&state, &bytes, Some(String::from("English"))).unwrap();
    assert_eq!(plan.samples, vec![7, -7]);
    assert_eq!(plan.language, "en");
}

#[test]
fn prepared_request_defaults_language_without_hint() {
    let state: EngineState<u64> = EngineState::Ready(5);
    let bytes = wav_bytes(1, 16000, 16, &[0]);
    let plan = prepare_transcription(&state, &bytes, None).unwrap();
    assert_eq!(plan.language, "de");
}

#[test]
fn invalid_audio_is_rejected_before_inference() {
    let state: EngineState<u64> = EngineState::Ready(5);
    let bytes = wav_bytes(2, 16000, 16, &[0, 0]);
    let e = prepare_transcription(&state, &bytes, None).unwrap_err();
    assert_eq!(e.kind, ErrorKind::InvalidAudioFormat);
}
