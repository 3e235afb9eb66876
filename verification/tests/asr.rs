use speakiput::asr::filler::{finish_cleanup, remove_filler_words, remove_stutters};
use speakiput::asr::prompt_echo::{
    filter_prompt_echo, is_prompt_echo, longest_common_word_run, normalize,
};
use speakiput::asr::whisper::{
    accept_text, decode_threads, initial_prompt, language_hint, prepare_phrase,
    segmentation_silence, unavailable_reason, AsrError, SegmentationMode, MIN_DECODE_SAMPLES,
};

const PROMPT: &str = "John Doe speaking. Professional, culinary register: French pastry, \
    sourdough baking, fermentation science, restaurant kitchen workflows. Speech is in \
    English or French; transcribe in the spoken language.";

#[test]
fn removes_fillers_and_repeated_words() {
    assert_eq!(
        remove_filler_words("um I I actually went home", &vec![]),
        "I went home"
    );
}

#[test]
fn supports_custom_non_english_fillers() {
    assert_eq!(
        remove_filler_words("é tipo tipo um teste", &vec!["tipo".into()]),
        "é um teste"
    );
}

#[test]
fn blank_and_special_filler_words_are_handled() {
    let blank = vec!["  ".to_owned()];
    assert_eq!(remove_filler_words("uh yes", &blank), "yes");
    let special = vec!["c++".to_owned()];
    assert_eq!(remove_filler_words("I like c++ a lot", &special), "I like a lot");
    assert_eq!(remove_filler_words("um ok", &special), "um ok");
}

#[test]
fn stutters_and_spaces_are_tidied() {
    assert_eq!(remove_stutters("  the The  THE cat\tcat sat "), "the cat sat");
    assert_eq!(finish_cleanup("a   a b"), "a b");
    assert_eq!(remove_stutters(""), "");
    let once = remove_stutters("no no yes yes no");
    assert_eq!(once, "no yes no");
    assert_eq!(remove_stutters(&once), once);
}

#[test]
fn empty_and_short_responses_never_echo() {
    assert!(!is_prompt_echo("", PROMPT));
    assert!(!is_prompt_echo("John.", PROMPT));
    assert!(!is_prompt_echo("hello world this is a test", ""));
}

#[test]
fn full_and_partial_prompt_echoes_are_detected() {
    assert!(is_prompt_echo(PROMPT, PROMPT));
    assert!(is_prompt_echo(
        "JOHN DOE SPEAKING — professional / culinary register",
        PROMPT
    ));
    assert!(is_prompt_echo(
        "okay um John Doe speaking professional culinary register French pastry sourdough baking right",
        PROMPT
    ));
}

#[test]
fn real_speech_is_not_flagged() {
    assert!(!is_prompt_echo(
        "I am working on the sourdough recipe for a French pastry tonight",
        PROMPT
    ));
}

#[test]
fn longest_run_is_contiguous() {
    assert_eq!(
        longest_common_word_run(
            &["the", "quick", "brown", "fox"],
            &["jumps", "over", "the", "quick", "brown", "dog"]
        ),
        3
    );
    assert_eq!(longest_common_word_run(&[], &["a"]), 0);
}

#[test]
fn normal_form_keeps_letters_and_digits() {
    assert_eq!(normalize("  Olá, MUNDO!! 42"), "olá mundo 42");
    assert_eq!(normalize("ÀÉ—Ü"), "àé ü");
    assert_eq!(normalize("..."), "");
    assert_eq!(normalize("İ"), "i\u{307}");
}

#[test]
fn echoes_are_dropped_and_speech_is_kept() {
    assert_eq!(filter_prompt_echo(PROMPT.into(), Some(PROMPT)), "");
    assert_eq!(filter_prompt_echo(PROMPT.into(), None), PROMPT);
    assert_eq!(accept_text("bom dia".into(), Some(PROMPT)), Some("bom dia".into()));
    assert_eq!(accept_text(" \n".into(), None), None);
    assert_eq!(accept_text(PROMPT.into(), Some(PROMPT)), None);
}

#[test]
fn segmentation_falls_back_to_silence() {
    assert_eq!(SegmentationMode::parse("silence"), SegmentationMode::Silence);
    assert_eq!(SegmentationMode::parse("unknown"), SegmentationMode::Silence);
}

#[test]
fn phrases_are_gated_and_padded() {
    let loud = 0.5_f64.to_bits();
    let ready = prepare_phrase(vec![9; 8_000], loud).unwrap();
    assert_eq!(ready.len(), MIN_DECODE_SAMPLES);
    assert_eq!(ready[7_999], 9);
    assert_eq!(ready[8_000], 0);
    assert_eq!(prepare_phrase(vec![9; 20_000], loud).unwrap().len(), 20_000);
    assert_eq!(prepare_phrase(vec![9; 1_600], loud), None);
    assert_eq!(prepare_phrase(vec![9; 8_000], 0.001_f64.to_bits()), None);
}

#[test]
fn inference_options_follow_the_configuration() {
    assert_eq!(language_hint(&"auto".to_owned()), None);
    assert_eq!(language_hint(&"pt".to_owned()), Some("pt"));
    assert_eq!(initial_prompt(&Some(String::new())), None);
    assert_eq!(initial_prompt(&Some("x".into())), Some("x"));
    assert_eq!(decode_threads(None), 4);
    assert_eq!(decode_threads(Some(3)), 3);
    assert_eq!(decode_threads(Some(64)), 8);
    assert_eq!(segmentation_silence(0), 1);
    assert_eq!(segmentation_silence(700), 700);
}

#[test]
fn an_unloaded_model_says_why() {
    let error = unavailable_reason(&None, "/models/x.bin");
    assert_eq!(
        error.message(),
        "ASR backend is unavailable: model was not loaded from /models/x.bin"
    );
    assert_eq!(
        unavailable_reason(&Some("no file".into()), "/x"),
        AsrError::Unavailable("no file".into())
    );
    assert_eq!(
        AsrError::Inference("oops".into()).message(),
        "ASR inference failed: oops"
    );
}
