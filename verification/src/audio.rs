//! Audio intake of the transcription service: parsing a WAV container held
//! in memory through the `hound` decoder, validating the fixed encoding
//! contract (mono, 16 kHz, 16-bit signed integer samples), and preparing a
//! transcription request.
//!
//! The host shell reads the container bytes from disk, normalizes the
//! validated samples to floating point, and runs inference; every decision
//! about what is accepted stands here.

use vstd::prelude::*;
use vstd::string::*;

use crate::error::{Error, ErrorKind};
use crate::speech::{default_language, hint_code, not_init_text, resolve_language, snapshot, EngineState};
use crate::text::{chars_of, dec_chars, dec_seq, string_from_chars};

verus! {

/// What hound reads as the declared encoding of a WAV container held in
/// memory: channel count, sample rate, bits per sample, and whether the
/// samples are integer-coded; `None` when the container does not parse.
/// A function of the container bytes alone.
pub uninterp spec fn wav_spec_of(bytes: Seq<u8>) -> Option<(u16, u32, u16, bool)>;

/// The 16-bit samples hound decodes from a WAV container held in memory,
/// in order; `None` when the container does not parse or some sample
/// cannot be read. A function of the container bytes alone.
pub uninterp spec fn wav_samples_of(bytes: Seq<u8>) -> Option<Seq<i16>>;

/// Relies on `hound::WavReader::new` and `WavReader::spec`: parses the WAV
/// header of the byte buffer and reports the declared encoding, a function
/// of the bytes alone.
#[verifier::external_body]
fn wav_probe(bytes: &Vec<u8>) -> (r: Option<(u16, u32, u16, bool)>)
    ensures
        r == wav_spec_of(bytes@),
{
    match hound::WavReader::new(bytes.as_slice()) {
        Ok(reader) => {
            let header = reader.spec();
            Some(
                (
                    header.channels,
                    header.sample_rate,
                    header.bits_per_sample,
                    matches!(header.sample_format, hound::SampleFormat::Int),
                ),
            )
        },
        Err(_) => None,
    }
}

/// Relies on `hound::WavReader::new` and its samples iterator: decodes
/// every sample of the container as a signed 16-bit value, in order, a
/// function of the bytes alone; the error text is the decoder's own.
#[verifier::external_body]
fn wav_read_samples(bytes: &Vec<u8>) -> (r: Result<Vec<i16>, String>)
    ensures
        r matches Ok(v) ==> wav_samples_of(bytes@) == Some(v@),
        r is Err ==> wav_samples_of(bytes@) is None,
{
    let mut reader = match hound::WavReader::new(bytes.as_slice()) {
        Ok(reader) => reader,
        Err(err) => return Err(err.to_string()),
    };
    match reader.samples::<i16>().collect::<Result<Vec<i16>, hound::Error>>() {
        Ok(v) => Ok(v),
        Err(err) => Err(err.to_string()),
    }
}

/// The fixed encoding contract: mono, 16 kHz, 16-bit signed integer
/// samples.
pub open spec fn encoding_ok(channels: u16, sample_rate: u32, bits: u16, int_coded: bool) -> bool {
    channels == 1 && sample_rate == 16000 && bits == 16 && int_coded
}

/// Message naming the offending channel count.
pub open spec fn channels_err_text(channels: u16) -> Seq<char> {
    "audio has "@ + dec_seq(channels as nat) + " channels; expected mono (1 channel)"@
}

/// Message naming the offending sample rate.
pub open spec fn rate_err_text(sample_rate: u32) -> Seq<char> {
    "audio has "@ + dec_seq(sample_rate as nat) + " Hz; expected 16000 Hz"@
}

/// Message naming the offending sample encoding.
pub open spec fn depth_err_text(bits: u16, int_coded: bool) -> Seq<char> {
    "audio is not 16-bit signed integer PCM; bits per sample: "@ + dec_seq(bits as nat) + (
    if int_coded {
        "; sample format: integer"@
    } else {
        "; sample format: float"@
    })
}

/// The message of whichever contract field deviates first: channel count,
/// then sample rate, then sample encoding.
pub open spec fn encoding_err_text(
    channels: u16,
    sample_rate: u32,
    bits: u16,
    int_coded: bool,
) -> Seq<char> {
    if channels != 1 {
        channels_err_text(channels)
    } else if sample_rate != 16000 {
        rate_err_text(sample_rate)
    } else {
        depth_err_text(bits, int_coded)
    }
}

/// Validates a declared audio encoding against the fixed contract, naming
/// the actual offending value on failure.
pub fn validate_encoding(channels: u16, sample_rate: u32, bits: u16, int_coded: bool) -> (r:
    Result<(), Error>)
    ensures
        r is Ok <==> encoding_ok(channels, sample_rate, bits, int_coded),
        !encoding_ok(channels, sample_rate, bits, int_coded) ==> (r matches Err(e) && e.kind
            == ErrorKind::InvalidAudioFormat && e.message@ == encoding_err_text(
            channels,
            sample_rate,
            bits,
            int_coded,
        )),
{
    if channels != 1 {
        let mut m = chars_of("audio has ");
        let mut d = dec_chars(channels as u64);
        m.append(&mut d);
        let mut tail = chars_of(" channels; expected mono (1 channel)");
        m.append(&mut tail);
        Err(Error::new(ErrorKind::InvalidAudioFormat, string_from_chars(&m)))
    } else if sample_rate != 16000 {
        let mut m = chars_of("audio has ");
        let mut d = dec_chars(sample_rate as u64);
        m.append(&mut d);
        let mut tail = chars_of(" Hz; expected 16000 Hz");
        m.append(&mut tail);
        Err(Error::new(ErrorKind::InvalidAudioFormat, string_from_chars(&m)))
    } else if bits != 16 || !int_coded {
        let mut m = chars_of("audio is not 16-bit signed integer PCM; bits per sample: ");
        let mut d = dec_chars(bits as u64);
        m.append(&mut d);
        let mut tail = if int_coded {
            chars_of("; sample format: integer")
        } else {
            chars_of("; sample format: float")
        };
        m.append(&mut tail);
        Err(Error::new(ErrorKind::InvalidAudioFormat, string_from_chars(&m)))
    } else {
        Ok(())
    }
}

/// Reads a WAV container held in memory, validates the fixed encoding
/// contract, and yields the raw 16-bit samples in order: a container that
/// does not parse or read is an audio-read failure; one whose declared
/// encoding deviates is an invalid-format failure naming the deviation.
pub fn decode_wav_pcm16_mono(bytes: &Vec<u8>) -> (r: Result<Vec<i16>, Error>)
    ensures
        wav_spec_of(bytes@) is None ==> (r matches Err(e) && e.kind == ErrorKind::AudioReadError),
        wav_spec_of(bytes@) matches Some(h) ==> (if !encoding_ok(h.0, h.1, h.2, h.3) {
            r matches Err(e) && e.kind == ErrorKind::InvalidAudioFormat && e.message@
                == encoding_err_text(h.0, h.1, h.2, h.3)
        } else {
            match wav_samples_of(bytes@) {
                Option::None => r matches Err(e) && e.kind == ErrorKind::AudioReadError,
                Option::Some(s) => r matches Ok(v) && v@ == s,
            }
        }),
{
    match wav_probe(bytes) {
        None => Err(
            Error::new(
                ErrorKind::AudioReadError,
                String::from_str("audio container could not be parsed"),
            ),
        ),
        Some((channels, sample_rate, bits, int_coded)) => {
            match validate_encoding(channels, sample_rate, bits, int_coded) {
                Err(e) => Err(e),
                Ok(()) => {
                    match wav_read_samples(bytes) {
                        Ok(v) => Ok(v),
                        Err(msg) => {
                            let mut m = String::from_str("audio samples could not be read: ");
                            m.append(msg.as_str());
                            Err(Error::new(ErrorKind::AudioReadError, m))
                        },
                    }
                },
            }
        },
    }
}

/// Everything a transcription run needs besides the engine handle: the
/// validated raw samples and the effective language code.
#[derive(Debug)]
pub struct TranscriptionPlan {
    pub samples: Vec<i16>,
    pub language: String,
}

/// How a prepared request relates to the container bytes and the hint.
pub open spec fn plan_rel(
    audio: Seq<u8>,
    lang: Option<String>,
    r: Result<TranscriptionPlan, Error>,
) -> bool {
    &&& (wav_spec_of(audio) is None ==> (r matches Err(e) && e.kind == ErrorKind::AudioReadError))
    &&& (wav_spec_of(audio) matches Some(h) ==> (if !encoding_ok(h.0, h.1, h.2, h.3) {
        r matches Err(e) && e.kind == ErrorKind::InvalidAudioFormat && e.message@
            == encoding_err_text(h.0, h.1, h.2, h.3)
    } else {
        match wav_samples_of(audio) {
            Option::None => r matches Err(e) && e.kind == ErrorKind::AudioReadError,
            Option::Some(s) => r matches Ok(p) && p.samples@ == s && p.language@ == (match lang {
                Option::Some(hint) => hint_code(hint@),
                Option::None => default_language(),
            }),
        }
    }))
}

/// Prepares a transcription request: fails before anything else when no
/// model is loaded; then decodes and validates the audio container and
/// derives the effective language code. The host shell normalizes the
/// samples and runs inference against the snapshot handle.
pub fn prepare_transcription<H>(
    state: &EngineState<H>,
    audio: &Vec<u8>,
    lang: Option<String>,
) -> (r: Result<TranscriptionPlan, Error>)
    ensures
        *state is Uninitialized ==> (r matches Err(e) && e.kind == ErrorKind::NotInitialized
            && e.message@ == not_init_text()),
        *state is Ready ==> plan_rel(audio@, lang, r),
{
    match snapshot(state) {
        Err(e) => Err(e),
        Ok(_) => {
            match decode_wav_pcm16_mono(audio) {
                Err(e) => Err(e),
                Ok(samples) => {
                    let language = resolve_language(lang);
                    Ok(TranscriptionPlan { samples, language })
                },
            }
        },
    }
}

} // verus!
