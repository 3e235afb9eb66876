//! What is handed to the recogniser, and what is kept of its answer.

use vstd::prelude::*;
use vstd::string::*;

use crate::asr::prompt_echo::{echoes, filter_prompt_echo};
use crate::audio::silence::{audio_gate_reason, gate, SILENCE_RMS_THRESHOLD};
use crate::text::{blank, chars_of, is_blank, same_text};

verus! {

broadcast use vstd::string::group_string_axioms;

/// The fewest samples that are decoded: 1.1 seconds.
pub const MIN_DECODE_SAMPLES: usize = 17_600;

#[derive(Clone, PartialEq, Eq, Debug)]
pub struct TranscriptionConfig {
    pub language: String,
    pub model_id: String,
    pub prompt: Option<String>,
}

/// Why nothing was transcribed.
#[derive(Clone, PartialEq, Eq, Debug)]
pub enum AsrError {
    Unavailable(String),
    Inference(String),
    Worker(String),
    Audio(String),
}

impl AsrError {
    /// What the error says to a reader.
    pub fn message(&self) -> (result: String)
        ensures
            result@ == match *self {
                AsrError::Unavailable(reason) => "ASR backend is unavailable: "@ + reason@,
                AsrError::Inference(reason) => "ASR inference failed: "@ + reason@,
                AsrError::Worker(reason) => "ASR worker failed: "@ + reason@,
                AsrError::Audio(reason) => "audio encoding failed: "@ + reason@,
            },
    {
        let (start, reason) = match self {
            AsrError::Unavailable(reason) => ("ASR backend is unavailable: ", reason),
            AsrError::Inference(reason) => ("ASR inference failed: ", reason),
            AsrError::Worker(reason) => ("ASR worker failed: ", reason),
            AsrError::Audio(reason) => ("audio encoding failed: ", reason),
        };
        let mut text = String::from_str(start);
        text.append(reason.as_str());
        text
    }
}

/// How a stream is cut: at silences, whatever is asked for.
#[derive(Clone, Copy, PartialEq, Eq, Structural, Debug)]
pub enum SegmentationMode {
    Silence,
}

impl Default for SegmentationMode {
    fn default() -> (result: Self)
        ensures
            result is Silence,
    {
        SegmentationMode::Silence
    }
}

impl SegmentationMode {
    /// The mode of a name: any name stands for silence.
    #[must_use]
    pub fn parse(value: &str) -> (result: Self)
        ensures
            result is Silence,
    {
        let _ = value;
        SegmentationMode::Silence
    }
}

/// The silence that ends a phrase, at least one millisecond.
pub fn segmentation_silence(phrase_silence_ms: u64) -> (result: u64)
    ensures
        phrase_silence_ms >= 1 ==> result == phrase_silence_ms,
        phrase_silence_ms == 0 ==> result == 1,
{
    if phrase_silence_ms < 1 {
        1
    } else {
        phrase_silence_ms
    }
}

/// Why a phrase is not decoded: shorter than 300 ms, or silent.
pub open spec fn phrase_worth_decoding(samples: nat, energy: u64) -> bool {
    gate(samples, energy, 16_000, 300, SILENCE_RMS_THRESHOLD) is None
}

/// A phrase with silence after it up to the fewest samples that are decoded.
pub open spec fn padded(phrase: Seq<i16>) -> Seq<i16> {
    if phrase.len() < MIN_DECODE_SAMPLES {
        phrase + Seq::new((MIN_DECODE_SAMPLES - phrase.len()) as nat, |i: int| 0i16)
    } else {
        phrase
    }
}

/// Makes a phrase ready for decoding; taps and silence are left out, which a recogniser
/// might otherwise turn into text shaped like its prompt.
pub fn prepare_phrase(phrase: Vec<i16>, energy: u64) -> (result: Option<Vec<i16>>)
    ensures
        match result {
            Some(ready) => phrase_worth_decoding(phrase@.len(), energy) && ready@ == padded(
                phrase@,
            ),
            None => !phrase_worth_decoding(phrase@.len(), energy),
        },
{
    if audio_gate_reason(phrase.as_slice(), energy, 16_000, 300, SILENCE_RMS_THRESHOLD).is_some() {
        return None;
    }
    let ghost given = phrase@;
    let mut ready = phrase;
    while ready.len() < MIN_DECODE_SAMPLES
        invariant
            given.len() <= ready@.len(),
            given.len() < MIN_DECODE_SAMPLES ==> ready@.len() <= MIN_DECODE_SAMPLES,
            given.len() >= MIN_DECODE_SAMPLES ==> ready@.len() == given.len(),
            forall|i: int| 0 <= i < given.len() ==> ready@[i] == given[i],
            forall|i: int| given.len() <= i < ready@.len() ==> ready@[i] == 0,
        decreases MIN_DECODE_SAMPLES - ready@.len(),
    {
        ready.push(0);
    }
    assert(ready@ =~= padded(given));
    Some(ready)
}

/// What is kept of a decoded text: nothing that repeats the prompt or is blank.
pub fn accept_text(text: String, prompt: Option<&str>) -> (result: Option<String>)
    ensures
        match result {
            Some(kept) => kept == text && !is_blank(text@) && !(prompt is Some && echoes(
                text@,
                prompt->0@,
            )),
            None => is_blank(text@) || (prompt is Some && echoes(text@, prompt->0@)),
        },
{
    let kept = filter_prompt_echo(text, prompt);
    if blank(kept.as_str()) {
        proof {
            if kept@.len() == 0 {
                assert(kept@ =~= Seq::empty());
            }
        }
        None
    } else {
        proof {
            if kept@.len() == 0 {
                assert(is_blank(kept@));
            }
        }
        Some(kept)
    }
}

/// The language that is handed on: none where the recogniser is to find out.
pub fn language_hint(language: &String) -> (result: Option<&str>)
    ensures
        match result {
            Some(hint) => language@ != "auto"@ && hint@ == language@,
            None => language@ == "auto"@,
        },
{
    if same_text(language.as_str(), "auto") {
        None
    } else {
        Some(language.as_str())
    }
}

/// The prompt that is handed on: none that is empty.
pub fn initial_prompt(prompt: &Option<String>) -> (result: Option<&str>)
    ensures
        match result {
            Some(text) => prompt is Some && text@ == prompt->0@ && prompt->0@.len() > 0,
            None => prompt is None || prompt->0@.len() == 0,
        },
{
    match prompt {
        Some(text) => {
            let size: usize = chars_of(text.as_str()).len();
            if size == 0 {
                None
            } else {
                Some(text.as_str())
            }
        },
        None => None,
    }
}

/// How many threads decode: as many as the machine runs at once, four where that is not
/// known, and never more than eight.
pub fn decode_threads(available: Option<usize>) -> (result: i32)
    ensures
        result == match available {
            Some(n) => if n < 8 {
                n as int
            } else {
                8
            },
            None => 4,
        },
        0 <= result <= 8,
        available matches Some(n) ==> result <= n && (result == n || result == 8),
{
    match available {
        Some(n) => {
            if n < 8 {
                n as i32
            } else {
                8
            }
        },
        None => 4,
    }
}

/// Why a model cannot be used.
pub fn unavailable_reason(load_error: &Option<String>, model_path: &str) -> (result: AsrError)
    ensures
        result matches AsrError::Unavailable(reason) && reason@ == match *load_error {
            Some(error) => error@,
            None => "model was not loaded from "@ + model_path@,
        },
{
    let reason = match load_error {
        Some(error) => error.clone(),
        None => {
            let mut text = String::from_str("model was not loaded from ");
            text.append(model_path);
            text
        },
    };
    AsrError::Unavailable(reason)
}

/// A phrase is decoded exactly when it lasts three tenths of a second and is not silent, and
/// then it starts with all its samples and goes on with silence up to the least length.
pub proof fn phrases_are_decoded_whole(phrase: Seq<i16>, energy: u64, i: int)
    requires
        phrase.len() * 1000 <= u64::MAX,
    ensures
        phrase_worth_decoding(phrase.len(), energy) <==> phrase.len() >= 4_800 && energy
            >= SILENCE_RMS_THRESHOLD,
        padded(phrase).take(phrase.len() as int) == phrase,
        padded(phrase).len() == if phrase.len() < 17_600 {
            17_600
        } else {
            phrase.len()
        },
        phrase.len() <= i < padded(phrase).len() ==> padded(phrase)[i] == 0,
{
    crate::audio::silence::audio_worth_transcribing(
        phrase.len(),
        energy,
        16_000,
        300,
        SILENCE_RMS_THRESHOLD,
    );
    assert(padded(phrase).take(phrase.len() as int) =~= phrase);
}

} // verus!
