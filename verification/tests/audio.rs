use std::io::Cursor;

use speakiput::audio::phrase_split::PhraseSplitter;
use speakiput::audio::silence::{
    audio_gate_reason, is_silent, AutoStopDetector, GateReason, SILENCE_RMS_THRESHOLD,
};
use speakiput::audio::source::{
    list_devices, resample_plan, select_input_device, AudioCaptureError, DeviceChoice,
};
use speakiput::audio::wav::{encode_wav, CHANNELS, SAMPLE_RATE};

const FRAME: usize = 10;
const SPEECH: i16 = 1000;
const QUIET_SPEECH: i16 = 500;

fn rms_energy(samples: &[i16]) -> f64 {
    if samples.is_empty() {
        return 0.0;
    }
    let sum_squares: f64 = samples
        .iter()
        .map(|&sample| f64::from(sample) * f64::from(sample))
        .sum();
    (sum_squares / samples.len() as f64).sqrt() / f64::from(i16::MAX)
}

fn energy(samples: &[i16]) -> u64 {
    rms_energy(samples).to_bits()
}

fn level(threshold: f64) -> u64 {
    threshold.to_bits()
}

fn feed(splitter: &mut PhraseSplitter, samples: &[i16]) -> Vec<Vec<i16>> {
    let energies = splitter
        .next_frames(samples)
        .iter()
        .map(|frame| energy(frame))
        .collect::<Vec<_>>();
    splitter.feed(samples, &energies)
}

fn detect(detector: &mut AutoStopDetector, samples: &[i16]) -> bool {
    detector.feed(samples, energy(samples))
}

fn gate(samples: &[i16], rate: u32, min_ms: u64, threshold: f64) -> Option<GateReason> {
    audio_gate_reason(samples, energy(samples), rate, min_ms, level(threshold))
}

fn splitter() -> PhraseSplitter {
    PhraseSplitter::with_params(FRAME, level(0.01), 3, 2, 100, 1, 5)
}

fn frames(pattern: &[(i16, usize)]) -> Vec<i16> {
    let mut out = Vec::new();
    for &(value, count) in pattern {
        out.extend(std::iter::repeat_n(value, count * FRAME));
    }
    out
}

fn tone(duration_ms: usize, amplitude: i16) -> Vec<i16> {
    (0..16 * duration_ms)
        .map(|index| if index % 32 < 16 { amplitude } else { -amplitude })
        .collect()
}

#[test]
fn basic_split_two_phrases() {
    let mut splitter = splitter();
    let audio = frames(&[(0, 2), (SPEECH, 5), (0, 4), (SPEECH, 3), (0, 4)]);
    let mut phrases = feed(&mut splitter, &audio);
    phrases.extend(splitter.flush());
    assert_eq!(phrases.len(), 2);
    assert_eq!(phrases[0].len(), 7 * FRAME);
    assert_eq!(phrases[1].len(), 5 * FRAME);
}

#[test]
fn padding_included_around_speech() {
    let mut splitter = splitter();
    let phrases = feed(&mut splitter, &frames(&[(0, 3), (SPEECH, 4), (0, 4)]));
    assert_eq!(phrases.len(), 1);
    assert_eq!(phrases[0].len(), 6 * FRAME);
    assert!(phrases[0][..FRAME].iter().all(|&sample| sample == 0));
    assert!(phrases[0][FRAME..5 * FRAME].iter().all(|&sample| sample == SPEECH));
    assert!(phrases[0][5 * FRAME..].iter().all(|&sample| sample == 0));
}

#[test]
fn no_leading_pad_when_speech_starts_at_zero() {
    let mut splitter = splitter();
    let phrases = feed(&mut splitter, &frames(&[(SPEECH, 4), (0, 4)]));
    assert_eq!(phrases[0].len(), 5 * FRAME);
    assert_eq!(phrases[0][0], SPEECH);
}

#[test]
fn short_blip_discarded_as_noise() {
    let mut splitter = splitter();
    assert!(feed(&mut splitter, &frames(&[(0, 2), (SPEECH, 1), (0, 4)])).is_empty());
    assert!(splitter.flush().is_none());
}

#[test]
fn incremental_feeding_matches_single_feed() {
    let audio = frames(&[(0, 2), (SPEECH, 5), (0, 4), (SPEECH, 3), (0, 4)]);
    let mut whole = splitter();
    let mut expected = feed(&mut whole, &audio);
    expected.extend(whole.flush());
    let mut incremental = splitter();
    let mut got = Vec::new();
    for chunk in audio.chunks(7) {
        got.extend(feed(&mut incremental, chunk));
    }
    got.extend(incremental.flush());
    assert_eq!(expected, got);
}

#[test]
fn cap_force_splits_at_quietest_frame() {
    let mut splitter = PhraseSplitter::with_params(FRAME, level(0.01), 3, 2, 6, 1, 3);
    let audio = frames(&[(SPEECH, 4), (QUIET_SPEECH, 1), (SPEECH, 3)]);
    let mut phrases = feed(&mut splitter, &audio);
    phrases.extend(splitter.flush());
    assert_eq!(phrases.len(), 2);
    assert_eq!(phrases[0].len(), 4 * FRAME);
    assert!(phrases[0].iter().all(|&sample| sample == SPEECH));
    assert_eq!(phrases[1].len(), 4 * FRAME);
    assert_eq!(phrases[1][0], QUIET_SPEECH);
}

#[test]
fn continuous_speech_is_emitted_without_loss_or_duplication() {
    let mut splitter = PhraseSplitter::with_params(FRAME, level(0.01), 3, 2, 6, 1, 3);
    let audio = frames(&[(SPEECH, 25)]);
    let mut phrases = feed(&mut splitter, &audio);
    phrases.extend(splitter.flush());
    assert!(phrases.len() >= 4);
    assert_eq!(phrases.into_iter().flatten().collect::<Vec<_>>(), audio);
}

#[test]
fn flush_emits_trailing_phrase_once() {
    let mut splitter = splitter();
    assert!(feed(&mut splitter, &frames(&[(0, 1), (SPEECH, 4), (0, 1)])).is_empty());
    assert_eq!(splitter.flush().unwrap().len(), 6 * FRAME);
    assert!(splitter.flush().is_none());
}

#[test]
fn flush_trims_excess_trailing_silence() {
    let mut splitter = splitter();
    assert!(feed(&mut splitter, &frames(&[(0, 1), (SPEECH, 4), (0, 2)])).is_empty());
    assert_eq!(splitter.flush().unwrap().len(), 6 * FRAME);
}

#[test]
fn pure_silence_yields_nothing() {
    let mut splitter = splitter();
    assert!(feed(&mut splitter, &frames(&[(0, 50)])).is_empty());
    assert!(splitter.flush().is_none());
}

#[test]
fn long_leading_silence_does_not_grow_buffer() {
    let mut splitter = splitter();
    feed(&mut splitter, &frames(&[(0, 1000)]));
    assert!(splitter.buffered() <= 2 * FRAME);
}

#[test]
fn zero_parameters_are_raised() {
    let mut splitter = PhraseSplitter::with_params(0, level(0.01), 0, 0, 0, 0, 0);
    let phrases = feed(&mut splitter, &[SPEECH, 0, SPEECH, SPEECH]);
    assert_eq!(phrases, vec![vec![SPEECH], vec![SPEECH]]);
    assert_eq!(splitter.flush(), Some(vec![SPEECH]));
}

#[test]
fn silence_is_zero_rms() {
    let silence = vec![0_i16; 1600];
    assert_eq!(rms_energy(&silence), 0.0);
    assert!(is_silent(energy(&silence), level(0.01)));
}

#[test]
fn empty_slice_is_zero_rms() {
    assert_eq!(rms_energy(&[]), 0.0);
    assert!(is_silent(energy(&[]), level(0.01)));
}

#[test]
fn loud_signal_has_high_rms() {
    let loud = vec![i16::MAX; 1600];
    let rms = rms_energy(&loud);
    assert!(rms > 0.9, "loud signal RMS should be near 1.0, got {rms}");
    assert!(!is_silent(energy(&loud), level(0.01)));
}

#[test]
fn quiet_signal_is_detected() {
    let quiet = (0..1600)
        .map(|index| i16::try_from(index % 100).unwrap() - 50)
        .collect::<Vec<_>>();
    assert!(rms_energy(&quiet) < 0.01);
    assert!(is_silent(energy(&quiet), level(0.01)));
}

#[test]
fn threshold_bits_are_those_of_the_number() {
    assert_eq!(SILENCE_RMS_THRESHOLD, 0.003_f64.to_bits());
}

#[test]
fn auto_stop_not_triggered_without_speech() {
    let mut detector = AutoStopDetector::new(level(0.01), 2000, 16_000);
    let silence = vec![0_i16; 16_000];
    assert!(!detect(&mut detector, &silence));
    assert!(!detect(&mut detector, &silence));
    assert!(!detect(&mut detector, &silence));
    assert!(!detector.has_speech());
}

#[test]
fn auto_stop_triggered_after_speech_then_silence() {
    let mut detector = AutoStopDetector::new(level(0.01), 2000, 16_000);
    assert!(!detect(&mut detector, &vec![10_000; 16_000]));
    assert!(!detect(&mut detector, &vec![0; 16_000]));
    assert!(detect(&mut detector, &vec![0; 16_000]));
}

#[test]
fn auto_stop_resets_on_speech() {
    let mut detector = AutoStopDetector::new(level(0.01), 2000, 16_000);
    let speech = vec![10_000; 16_000];
    let silence = vec![0; 16_000];
    detect(&mut detector, &speech);
    detect(&mut detector, &silence);
    assert!(!detect(&mut detector, &vec![0; 8_000]));
    assert!(!detect(&mut detector, &speech));
    detect(&mut detector, &silence);
    assert!(!detect(&mut detector, &vec![0; 8_000]));
    assert!(detect(&mut detector, &vec![0; 8_000]));
}

#[test]
fn auto_stop_reset() {
    let mut detector = AutoStopDetector::new(level(0.01), 2000, 16_000);
    detect(&mut detector, &vec![10_000; 16_000]);
    detector.reset();
    assert!(!detector.has_speech());
}

#[test]
fn gate_rejects_empty_short_and_silent_audio() {
    assert_eq!(gate(&[], 16_000, 300, 0.005), Some(GateReason::Empty));
    assert_eq!(
        gate(&vec![10_000; 1_600], 16_000, 300, 0.005),
        Some(GateReason::TooShort)
    );
    assert_eq!(
        gate(&vec![0; 16_000], 16_000, 300, 0.005),
        Some(GateReason::Silent)
    );
    assert_eq!(GateReason::TooShort.as_str(), "too short");
    assert_eq!(GateReason::Empty.as_str(), "empty");
    assert_eq!(GateReason::Silent.as_str(), "silent");
    assert_eq!(GateReason::Invalid.as_str(), "invalid");
}

#[test]
fn gate_accepts_speech() {
    let samples = (0..16_000)
        .map(|index| ((f64::from(index) * 0.1).sin() * 16_000.0) as i16)
        .collect::<Vec<_>>();
    assert_eq!(gate(&samples, 16_000, 300, 0.005), None);
}

#[test]
fn zero_configuration_is_safe() {
    let samples = vec![10_000; 1_600];
    assert_eq!(gate(&samples, 0, 300, 0.005), Some(GateReason::Invalid));
    let mut detector = AutoStopDetector::new(level(0.01), 0, 0);
    assert!(!detect(&mut detector, &samples));
    assert!(detect(&mut detector, &[0]));
}

#[test]
fn auto_stop_exact_threshold() {
    let mut detector = AutoStopDetector::new(level(0.01), 100, 16_000);
    detect(&mut detector, &vec![10_000; 1_600]);
    assert!(detect(&mut detector, &vec![0; 1_600]));
}

#[test]
fn short_transient_does_not_restart_silence_timer() {
    let mut detector = AutoStopDetector::with_confirmation(level(0.01), 500, 200, 16_000);
    assert!(!detect(&mut detector, &vec![10_000; 4_000]));
    assert!(!detect(&mut detector, &vec![0; 4_000]));
    assert!(!detect(&mut detector, &vec![10_000; 1_600]));
    assert!(detect(&mut detector, &vec![0; 4_000]));
}

#[test]
fn silence_and_short_tap_are_rejected_before_asr() {
    let silence = vec![0; 16_000];
    assert_eq!(
        audio_gate_reason(&silence, energy(&silence), 16_000, 300, SILENCE_RMS_THRESHOLD),
        Some(GateReason::Silent)
    );
    let tap = tone(100, 8_000);
    assert_eq!(
        audio_gate_reason(&tap, energy(&tap), 16_000, 300, SILENCE_RMS_THRESHOLD),
        Some(GateReason::TooShort)
    );
}

#[test]
fn pause_fixture_splits_into_two_phrases() {
    let mut audio = tone(500, 9_000);
    audio.extend(vec![0; 800 * 16]);
    audio.extend(tone(500, 9_000));
    let mut splitter = PhraseSplitter::new(16_000, SILENCE_RMS_THRESHOLD, 700);
    let mut phrases = feed(&mut splitter, &audio);
    if let Some(phrase) = splitter.flush() {
        phrases.push(phrase);
    }
    assert_eq!(phrases.len(), 2);
    assert!(phrases.iter().all(|phrase| !phrase.is_empty()));
}

#[test]
fn trailing_silence_fixture_triggers_auto_stop_behavior() {
    let mut audio = tone(450, 10_000);
    audio.extend(vec![0; 1_200 * 16]);
    let mut detector = AutoStopDetector::new(SILENCE_RMS_THRESHOLD, 1_000, 16_000);
    assert!(audio.chunks(160).any(|chunk| detect(&mut detector, chunk)));
}

#[test]
fn encode_wav_round_trips_samples() {
    let samples = (0..1600)
        .map(|index| i16::try_from(index % 256).unwrap())
        .collect::<Vec<_>>();
    let wav = encode_wav(&samples).unwrap();
    assert_eq!(&wav[..4], b"RIFF");
    let reader = hound::WavReader::new(Cursor::new(wav)).unwrap();
    assert_eq!(reader.spec().channels, CHANNELS);
    assert_eq!(reader.spec().sample_rate, SAMPLE_RATE);
    assert_eq!(reader.spec().bits_per_sample, 16);
    assert_eq!(
        reader
            .into_samples::<i16>()
            .collect::<Result<Vec<_>, _>>()
            .unwrap(),
        samples
    );
}

#[test]
fn encode_wav_accepts_empty_audio() {
    assert_eq!(&encode_wav(&[]).unwrap()[..4], b"RIFF");
}

#[test]
fn encode_wav_writes_the_stated_bytes() {
    let wav = encode_wav(&[1, -2]).unwrap();
    let mut expected = b"RIFF".to_vec();
    expected.extend(40_u32.to_le_bytes());
    expected.extend(b"WAVEfmt ");
    expected.extend(16_u32.to_le_bytes());
    expected.extend(1_u16.to_le_bytes());
    expected.extend(1_u16.to_le_bytes());
    expected.extend(16_000_u32.to_le_bytes());
    expected.extend(32_000_u32.to_le_bytes());
    expected.extend(2_u16.to_le_bytes());
    expected.extend(16_u16.to_le_bytes());
    expected.extend(b"data");
    expected.extend(4_u32.to_le_bytes());
    expected.extend(1_i16.to_le_bytes());
    expected.extend((-2_i16).to_le_bytes());
    assert_eq!(wav, expected);
}

#[test]
fn resampling_picks_every_third_sample_of_48khz() {
    let plan = resample_plan(480, 48_000);
    assert_eq!(plan.len(), 160);
    assert_eq!(&plan[..4], &[0, 3, 6, 9]);
    assert_eq!(resample_plan(5, 16_000), vec![0, 1, 2, 3, 4]);
    assert_eq!(resample_plan(2, 8_000), vec![0, 0, 1, 1]);
    assert!(resample_plan(0, 44_100).is_empty());
}

#[test]
fn devices_are_chosen_by_name() {
    let names = vec![None, Some("usb".to_owned()), Some("built-in".to_owned())];
    assert_eq!(select_input_device("default", &names), Ok(DeviceChoice::Default));
    assert_eq!(
        select_input_device("built-in", &names),
        Ok(DeviceChoice::Listed(2))
    );
    let error = select_input_device("hdmi", &names).unwrap_err();
    assert_eq!(error, AudioCaptureError::DeviceNotFound("hdmi".into()));
    assert_eq!(error.message(), "audio device hdmi was not found");
    let listed = list_devices(names, &Some("usb".to_owned()));
    assert_eq!(listed.len(), 2);
    assert!(listed[0].is_default);
    assert_eq!(listed[1].id, "built-in");
    assert!(!listed[1].is_default);
}
