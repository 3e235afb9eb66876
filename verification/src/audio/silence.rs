//! Silence and the automatic stop after it.

use vstd::prelude::*;

use crate::arith::{capped_u64, saturating_product_u64, saturating_sum_u64};

verus! {

/// Normalised energy 0.003, below which audio counts as silence.
pub const SILENCE_RMS_THRESHOLD: u64 = 0x3f68_9374_bc6a_7efa;

/// Whether an energy lies below a threshold.
#[must_use]
pub fn is_silent(energy: u64, threshold: u64) -> (result: bool)
    ensures
        result == (energy < threshold),
{
    energy < threshold
}

/// Why audio is not worth transcribing.
#[derive(Clone, Copy, PartialEq, Eq, Structural, Debug)]
pub enum GateReason {
    Empty,
    TooShort,
    Silent,
    Invalid,
}

impl GateReason {
    /// The reason in words.
    #[must_use]
    pub fn as_str(self) -> (result: &'static str)
        ensures
            result@ == match self {
                GateReason::Empty => "empty"@,
                GateReason::TooShort => "too short"@,
                GateReason::Silent => "silent"@,
                GateReason::Invalid => "invalid"@,
            },
    {
        match self {
            GateReason::Empty => "empty",
            GateReason::TooShort => "too short",
            GateReason::Silent => "silent",
            GateReason::Invalid => "invalid",
        }
    }
}

/// How long so many samples last, in milliseconds.
pub open spec fn duration_ms(samples: nat, sample_rate: u32) -> int
    recommends
        sample_rate > 0,
{
    capped_u64(samples as int * 1000) / sample_rate as int
}

/// Why audio of so many samples and such an energy is not worth transcribing, if so.
pub open spec fn gate(
    samples: nat,
    energy: u64,
    sample_rate: u32,
    min_duration_ms: u64,
    threshold: u64,
) -> Option<GateReason> {
    if samples == 0 {
        Some(GateReason::Empty)
    } else if sample_rate == 0 {
        Some(GateReason::Invalid)
    } else if duration_ms(samples, sample_rate) < min_duration_ms {
        Some(GateReason::TooShort)
    } else if energy < threshold {
        Some(GateReason::Silent)
    } else {
        None
    }
}

/// Why audio is not worth transcribing, if so.
#[must_use]
pub fn audio_gate_reason(
    samples: &[i16],
    energy: u64,
    sample_rate: u32,
    min_duration_ms: u64,
    threshold: u64,
) -> (result: Option<GateReason>)
    ensures
        result == gate(samples@.len(), energy, sample_rate, min_duration_ms, threshold),
{
    if samples.len() == 0 {
        return Some(GateReason::Empty);
    }
    if sample_rate == 0 {
        return Some(GateReason::Invalid);
    }
    let duration: u64 = saturating_product_u64(samples.len() as u64, 1000) / (sample_rate as u64);
    if duration < min_duration_ms {
        return Some(GateReason::TooShort);
    }
    if is_silent(energy, threshold) {
        return Some(GateReason::Silent);
    }
    None
}

/// Counts the silence after speech and says when it has lasted long enough.
#[derive(Debug)]
pub struct AutoStopDetector {
    threshold: u64,
    silent_samples: u64,
    timeout_samples: u64,
    confirmation_samples: u64,
    voiced_candidate_samples: u64,
    speech_detected: bool,
}

/// What a detector has heard.
pub struct Heard {
    /// An energy below this is silence.
    pub threshold: u64,
    /// So many samples of silence after speech end the recording.
    pub timeout: int,
    /// So many voiced samples in a row are speech.
    pub confirmation: int,
    /// Samples since speech was last confirmed.
    pub silent: int,
    /// Voiced samples in a row up to now.
    pub voiced: int,
    /// Speech has been confirmed.
    pub speech: bool,
}

/// What a detector has heard after one more chunk.
pub open spec fn hear(before: Heard, samples: nat, energy: u64) -> Heard {
    if energy >= before.threshold {
        let voiced = capped_u64(before.voiced + samples);
        let confirmed = voiced >= before.confirmation;
        Heard {
            voiced,
            speech: before.speech || confirmed,
            silent: if confirmed {
                0
            } else if before.speech {
                capped_u64(before.silent + samples)
            } else {
                before.silent
            },
            ..before
        }
    } else {
        Heard {
            voiced: 0,
            silent: if before.speech {
                capped_u64(before.silent + samples)
            } else {
                before.silent
            },
            ..before
        }
    }
}

/// The recording should end.
pub open spec fn should_stop(heard: Heard) -> bool {
    heard.speech && heard.silent >= heard.timeout
}

/// So many milliseconds in samples.
pub open spec fn samples_in(ms: u64, sample_rate: u32) -> int {
    capped_u64(ms * sample_rate) / 1000
}

/// A detector that has heard nothing.
pub open spec fn nothing_heard(
    threshold: u64,
    timeout_ms: u64,
    confirmation_ms: u64,
    sample_rate: u32,
) -> Heard {
    Heard {
        threshold,
        timeout: if samples_in(timeout_ms, sample_rate) < 1 {
            1
        } else {
            samples_in(timeout_ms, sample_rate)
        },
        confirmation: samples_in(confirmation_ms, sample_rate),
        silent: 0,
        voiced: 0,
        speech: false,
    }
}

impl View for AutoStopDetector {
    type V = Heard;

    closed spec fn view(&self) -> Heard {
        Heard {
            threshold: self.threshold,
            timeout: self.timeout_samples as int,
            confirmation: self.confirmation_samples as int,
            silent: self.silent_samples as int,
            voiced: self.voiced_candidate_samples as int,
            speech: self.speech_detected,
        }
    }
}

impl AutoStopDetector {
    /// A detector to which every voiced chunk is speech.
    #[must_use]
    pub fn new(threshold: u64, timeout_ms: u64, sample_rate: u32) -> (result: Self)
        ensures
            result@ == nothing_heard(threshold, timeout_ms, 0, sample_rate),
    {
        Self::with_confirmation(threshold, timeout_ms, 0, sample_rate)
    }

    /// A detector to which only sound that lasts is speech: a tap or a knock crosses the
    /// threshold without keeping the recording alive.
    #[must_use]
    pub fn with_confirmation(
        threshold: u64,
        timeout_ms: u64,
        confirmation_ms: u64,
        sample_rate: u32,
    ) -> (result: Self)
        ensures
            result@ == nothing_heard(threshold, timeout_ms, confirmation_ms, sample_rate),
    {
        let timeout: u64 = saturating_product_u64(timeout_ms, sample_rate as u64) / 1000;
        let timeout_samples: u64 = if timeout < 1 {
            1
        } else {
            timeout
        };
        let confirmation_samples: u64 = saturating_product_u64(confirmation_ms, sample_rate as u64)
            / 1000;
        Self {
            threshold,
            silent_samples: 0,
            timeout_samples,
            confirmation_samples,
            voiced_candidate_samples: 0,
            speech_detected: false,
        }
    }

    /// Hears one more chunk, of which the energy is given, and says whether the recording
    /// should end.
    pub fn feed(&mut self, samples: &[i16], energy: u64) -> (result: bool)
        ensures
            final(self)@ == hear(old(self)@, samples@.len(), energy),
            result == should_stop(final(self)@),
    {
        let sample_count: u64 = samples.len() as u64;
        if energy >= self.threshold {
            self.voiced_candidate_samples = saturating_sum_u64(
                self.voiced_candidate_samples,
                sample_count,
            );
            if self.voiced_candidate_samples >= self.confirmation_samples {
                self.speech_detected = true;
                self.silent_samples = 0;
            } else if self.speech_detected {
                self.silent_samples = saturating_sum_u64(self.silent_samples, sample_count);
            }
        } else {
            self.voiced_candidate_samples = 0;
            if self.speech_detected {
                self.silent_samples = saturating_sum_u64(self.silent_samples, sample_count);
            }
        }
        self.speech_detected && self.silent_samples >= self.timeout_samples
    }

    /// Forgets what was heard.
    pub fn reset(&mut self)
        ensures
            final(self)@ == (Heard { silent: 0, voiced: 0, speech: false, ..old(self)@ }),
    {
        self.silent_samples = 0;
        self.voiced_candidate_samples = 0;
        self.speech_detected = false;
    }

    /// Whether speech has been confirmed.
    #[must_use]
    pub fn has_speech(&self) -> (result: bool)
        ensures
            result == self@.speech,
    {
        self.speech_detected
    }
}

/// What has been heard after a sequence of chunks, each given by its length and energy.
pub open spec fn hear_all(before: Heard, chunks: Seq<(nat, u64)>) -> Heard
    decreases chunks.len(),
{
    if chunks.len() == 0 {
        before
    } else {
        hear(hear_all(before, chunks.drop_last()), chunks.last().0, chunks.last().1)
    }
}

/// The samples of a sequence of chunks.
pub open spec fn total_samples(chunks: Seq<(nat, u64)>) -> nat
    decreases chunks.len(),
{
    if chunks.len() == 0 {
        0
    } else {
        total_samples(chunks.drop_last()) + chunks.last().0
    }
}

/// Silence alone never ends a recording: however long it lasts, there is no speech.
pub proof fn silence_alone_never_stops(before: Heard, chunks: Seq<(nat, u64)>)
    requires
        !before.speech,
        forall|i: int| 0 <= i < chunks.len() ==> (#[trigger] chunks[i]).1 < before.threshold,
    ensures
        !hear_all(before, chunks).speech,
        !should_stop(hear_all(before, chunks)),
        hear_all(before, chunks).threshold == before.threshold,
    decreases chunks.len(),
{
    if chunks.len() > 0 {
        assert(chunks.drop_last() =~= chunks.take(chunks.len() - 1));
        assert forall|i: int| 0 <= i < chunks.drop_last().len() implies (
        #[trigger] chunks.drop_last()[i]).1 < before.threshold by {
            assert(chunks[i].1 < before.threshold);
        }
        silence_alone_never_stops(before, chunks.drop_last());
        assert(chunks[chunks.len() - 1].1 < before.threshold);
    }
}

/// After speech, silence ends the recording exactly when it has lasted as long as was asked.
pub proof fn silence_after_speech_stops_in_time(before: Heard, chunks: Seq<(nat, u64)>)
    requires
        before.speech,
        before.silent == 0,
        before.timeout <= u64::MAX,
        forall|i: int| 0 <= i < chunks.len() ==> (#[trigger] chunks[i]).1 < before.threshold,
    ensures
        should_stop(hear_all(before, chunks)) <==> total_samples(chunks) >= before.timeout,
        hear_all(before, chunks).silent == capped_u64(total_samples(chunks) as int),
        hear_all(before, chunks).speech,
        hear_all(before, chunks).threshold == before.threshold,
        hear_all(before, chunks).timeout == before.timeout,
    decreases chunks.len(),
{
    if chunks.len() > 0 {
        assert forall|i: int| 0 <= i < chunks.drop_last().len() implies (
        #[trigger] chunks.drop_last()[i]).1 < before.threshold by {
            assert(chunks[i].1 < before.threshold);
        }
        silence_after_speech_stops_in_time(before, chunks.drop_last());
        assert(chunks[chunks.len() - 1].1 < before.threshold);
    }
}

/// A sound too short to be speech does not restart the count of silence.
pub proof fn a_short_sound_does_not_restart_the_count(before: Heard, samples: nat, energy: u64)
    requires
        before.speech,
        before.voiced == 0,
        0 <= before.silent <= u64::MAX,
        samples < before.confirmation,
        samples <= u64::MAX,
    ensures
        hear(before, samples, energy).silent == capped_u64(before.silent + samples),
{
}

// ---------------------------------------------------------------------------
// When a recording stops, told of its chunks alone
// ---------------------------------------------------------------------------

/// The chunks from one place to another are all voiced.
pub open spec fn all_voiced(chunks: Seq<(nat, u64)>, threshold: u64, from: int, to: int) -> bool {
    forall|k: int| from <= k < to ==> (#[trigger] chunks[k]).1 >= threshold
}

/// A chunk confirms speech: it ends a row of voiced chunks that is as long as was asked.
pub open spec fn confirms(d: Heard, chunks: Seq<(nat, u64)>, i: int) -> bool {
    exists|from: int|
        0 <= from <= i < chunks.len() && #[trigger] all_voiced(chunks, d.threshold, from, i + 1)
            && total_samples(chunks.subrange(from, i + 1)) >= d.confirmation
}

/// A chunk is the last that confirms speech.
pub open spec fn last_confirming(d: Heard, chunks: Seq<(nat, u64)>, j: int) -> bool {
    &&& confirms(d, chunks, j)
    &&& forall|k: int| j < k < chunks.len() ==> !#[trigger] confirms(d, chunks, k)
}

/// Where the row of voiced chunks at the end starts.
spec fn voiced_from(chunks: Seq<(nat, u64)>, threshold: u64) -> int
    decreases chunks.len(),
{
    if chunks.len() == 0 || chunks.last().1 < threshold {
        chunks.len() as int
    } else {
        voiced_from(chunks.drop_last(), threshold)
    }
}

proof fn voiced_from_is_maximal(chunks: Seq<(nat, u64)>, threshold: u64)
    ensures
        ({
            let from = voiced_from(chunks, threshold);
            &&& 0 <= from <= chunks.len()
            &&& all_voiced(chunks, threshold, from, chunks.len() as int)
            &&& from > 0 ==> chunks[from - 1].1 < threshold
        }),
    decreases chunks.len(),
{
    if chunks.len() > 0 && chunks.last().1 >= threshold {
        let rest = chunks.drop_last();
        voiced_from_is_maximal(rest, threshold);
        let from = voiced_from(rest, threshold);
        assert forall|k: int| from <= k < chunks.len() implies (#[trigger] chunks[k]).1
            >= threshold by {
            if k < rest.len() {
                assert(rest[k] == chunks[k]);
            }
        }
        if from > 0 {
            assert(rest[from - 1] == chunks[from - 1]);
        }
    }
}

proof fn totals_add_up(front: Seq<(nat, u64)>, back: Seq<(nat, u64)>)
    ensures
        total_samples(front + back) == total_samples(front) + total_samples(back),
    decreases back.len(),
{
    if back.len() == 0 {
        assert(front + back =~= front);
    } else {
        totals_add_up(front, back.drop_last());
        assert((front + back).drop_last() =~= front + back.drop_last());
        assert((front + back).last() == back.last());
    }
}

proof fn confirmed_at_the_end(d: Heard, chunks: Seq<(nat, u64)>)
    requires
        chunks.len() > 0,
    ensures
        confirms(d, chunks, chunks.len() - 1) <==> chunks.last().1 >= d.threshold && total_samples(
            chunks.skip(voiced_from(chunks, d.threshold)),
        ) >= d.confirmation,
{
    let n = chunks.len() as int;
    let start = voiced_from(chunks, d.threshold);
    voiced_from_is_maximal(chunks, d.threshold);
    if confirms(d, chunks, n - 1) {
        let from = choose|from: int|
            0 <= from <= n - 1 < chunks.len() && #[trigger] all_voiced(
                chunks,
                d.threshold,
                from,
                n - 1 + 1,
            ) && total_samples(chunks.subrange(from, n - 1 + 1)) >= d.confirmation;
        assert(chunks[n - 1].1 >= d.threshold);
        assert(start <= from) by {
            if from < start {
                assert(chunks[start - 1].1 >= d.threshold);
            }
        }
        assert(chunks.skip(start) =~= chunks.subrange(start, from) + chunks.subrange(from, n));
        totals_add_up(chunks.subrange(start, from), chunks.subrange(from, n));
    }
    if chunks.last().1 >= d.threshold && total_samples(chunks.skip(start)) >= d.confirmation {
        assert(start < n) by {
            if start == n {
                assert(chunks[n - 1].1 < d.threshold);
            }
        }
        let i = n - 1;
        assert(chunks.skip(start) =~= chunks.subrange(start, i + 1));
        assert(all_voiced(chunks, d.threshold, start, i + 1));
        assert(confirms(d, chunks, i));
    }
}

proof fn confirming_is_settled(d: Heard, chunks: Seq<(nat, u64)>, i: int)
    requires
        0 <= i < chunks.len() - 1,
    ensures
        confirms(d, chunks, i) == confirms(d, chunks.drop_last(), i),
{
    let rest = chunks.drop_last();
    if confirms(d, chunks, i) {
        let from = choose|from: int|
            0 <= from <= i < chunks.len() && #[trigger] all_voiced(
                chunks,
                d.threshold,
                from,
                i + 1,
            ) && total_samples(chunks.subrange(from, i + 1)) >= d.confirmation;
        assert(rest.subrange(from, i + 1) =~= chunks.subrange(from, i + 1));
        assert forall|k: int| from <= k < i + 1 implies (#[trigger] rest[k]).1
            >= d.threshold by {
            assert(chunks[k].1 >= d.threshold);
        }
        assert(all_voiced(rest, d.threshold, from, i + 1));
    }
    if confirms(d, rest, i) {
        let from = choose|from: int|
            0 <= from <= i < rest.len() && #[trigger] all_voiced(rest, d.threshold, from, i + 1)
                && total_samples(rest.subrange(from, i + 1)) >= d.confirmation;
        assert(rest.subrange(from, i + 1) =~= chunks.subrange(from, i + 1));
        assert forall|k: int| from <= k < i + 1 implies (#[trigger] chunks[k]).1
            >= d.threshold by {
            assert(rest[k].1 >= d.threshold);
        }
        assert(all_voiced(chunks, d.threshold, from, i + 1));
    }
}

proof fn heard_is_told_of_the_chunks(d: Heard, chunks: Seq<(nat, u64)>)
    requires
        d.silent == 0,
        d.voiced == 0,
        !d.speech,
        0 <= d.confirmation <= u64::MAX,
    ensures
        ({
            let h = hear_all(d, chunks);
            &&& h.threshold == d.threshold && h.timeout == d.timeout && h.confirmation
                == d.confirmation
            &&& h.voiced == capped_u64(
                total_samples(chunks.skip(voiced_from(chunks, d.threshold))) as int,
            )
            &&& h.speech <==> exists|i: int| #[trigger] confirms(d, chunks, i)
            &&& !h.speech ==> h.silent == 0
            &&& forall|j: int| #[trigger]
                last_confirming(d, chunks, j) ==> h.silent == capped_u64(
                    total_samples(chunks.skip(j + 1)) as int,
                )
            &&& h.speech ==> exists|j: int| #[trigger] last_confirming(d, chunks, j)
        }),
    decreases chunks.len(),
{
    let n = chunks.len() as int;
    if n == 0 {
        assert(chunks.skip(0).len() == 0);
    } else {
        let rest = chunks.drop_last();
        heard_is_told_of_the_chunks(d, rest);
        let before = hear_all(d, rest);
        let h = hear_all(d, chunks);
        let (size, energy) = chunks.last();
        let start = voiced_from(chunks, d.threshold);
        voiced_from_is_maximal(chunks, d.threshold);
        voiced_from_is_maximal(rest, d.threshold);
        confirmed_at_the_end(d, chunks);
        if energy >= d.threshold {
            assert(chunks.skip(start).drop_last() =~= rest.skip(start));
            assert(chunks.skip(start).last() == chunks.last());
        } else {
            assert(chunks.skip(start).len() == 0);
        }
        assert forall|i: int| 0 <= i < n - 1 implies confirms(d, chunks, i) == #[trigger] confirms(
            d,
            rest,
            i,
        ) by {
            confirming_is_settled(d, chunks, i);
        }
        let now = confirms(d, chunks, n - 1);
        if now {
            assert(last_confirming(d, chunks, n - 1));
            assert(chunks.skip(n).len() == 0);
            assert forall|j: int| #[trigger] last_confirming(d, chunks, j) implies j == n - 1 by {
                if j < n - 1 {
                    assert(!confirms(d, chunks, n - 1));
                }
            }
        } else {
            assert forall|j: int| #[trigger] last_confirming(d, chunks, j) implies
                last_confirming(d, rest, j) && h.silent == capped_u64(
                total_samples(chunks.skip(j + 1)) as int,
            ) by {
                assert(confirms(d, chunks, j));
                assert(0 <= j < n - 1);
                assert(confirms(d, rest, j));
                assert forall|k: int| j < k < rest.len() implies !#[trigger] confirms(
                    d,
                    rest,
                    k,
                ) by {
                    assert(!confirms(d, chunks, k));
                }
                assert(last_confirming(d, rest, j));
                assert(chunks.skip(j + 1).drop_last() =~= rest.skip(j + 1));
                assert(chunks.skip(j + 1).last() == chunks.last());
            }
            if h.speech {
                let j = choose|j: int| #[trigger] last_confirming(d, rest, j);
                assert(confirms(d, rest, j));
                assert(confirms(d, chunks, j));
                assert forall|k: int| j < k < n implies !#[trigger] confirms(d, chunks, k) by {
                    if k < n - 1 {
                        assert(!confirms(d, rest, k));
                    }
                }
                assert(last_confirming(d, chunks, j));
            }
        }
        if h.speech && !now {
            let i = choose|i: int| #[trigger] confirms(d, rest, i);
            assert(confirms(d, chunks, i));
        }
        if exists|i: int| #[trigger] confirms(d, chunks, i) {
            let i = choose|i: int| #[trigger] confirms(d, chunks, i);
            if i < n - 1 {
                assert(confirms(d, rest, i));
            }
        }
    }
}

/// A detector asks for the end of a recording exactly when speech was confirmed and the
/// samples of all the chunks since it was last confirmed come to the timeout, however the
/// pauses and the sounds before that were distributed.
pub proof fn a_recording_stops_after_the_last_speech(d: Heard, chunks: Seq<(nat, u64)>)
    requires
        d.silent == 0,
        d.voiced == 0,
        !d.speech,
        0 <= d.confirmation <= u64::MAX,
        1 <= d.timeout <= u64::MAX,
    ensures
        should_stop(hear_all(d, chunks)) <==> exists|j: int|
            #[trigger] last_confirming(d, chunks, j) && total_samples(chunks.skip(j + 1))
                >= d.timeout,
        hear_all(d, chunks).speech <==> exists|i: int| #[trigger] confirms(d, chunks, i),
{
    heard_is_told_of_the_chunks(d, chunks);
    let h = hear_all(d, chunks);
    if should_stop(h) {
        let j = choose|j: int| #[trigger] last_confirming(d, chunks, j);
        assert(total_samples(chunks.skip(j + 1)) >= d.timeout);
    }
    if exists|j: int|
        #[trigger] last_confirming(d, chunks, j) && total_samples(chunks.skip(j + 1)) >= d.timeout {
        let j = choose|j: int|
            #[trigger] last_confirming(d, chunks, j) && total_samples(chunks.skip(j + 1))
                >= d.timeout;
        assert(confirms(d, chunks, j));
    }
}

/// A chunk that confirms speech restarts the count of silence, whatever was counted before.
pub proof fn confirmed_speech_restarts_the_count(before: Heard, samples: nat, energy: u64)
    requires
        energy >= before.threshold,
        before.voiced >= 0,
        before.confirmation <= u64::MAX,
        before.voiced + samples >= before.confirmation,
    ensures
        hear(before, samples, energy).silent == 0,
        hear(before, samples, energy).speech,
        before.timeout >= 1 ==> !should_stop(hear(before, samples, energy)),
{
}

/// The timeout and the confirmation are as many whole samples as their milliseconds hold,
/// where these can be counted; a timeout is one sample at least.
pub proof fn times_are_counted_in_samples(
    threshold: u64,
    timeout_ms: u64,
    confirmation_ms: u64,
    sample_rate: u32,
)
    requires
        timeout_ms * sample_rate <= u64::MAX,
        confirmation_ms * sample_rate <= u64::MAX,
    ensures
        ({
            let d = nothing_heard(threshold, timeout_ms, confirmation_ms, sample_rate);
            &&& d.threshold == threshold
            &&& d.silent == 0 && d.voiced == 0 && !d.speech
            &&& d.timeout >= 1
            &&& timeout_ms * sample_rate < (d.timeout + 1) * 1000
            &&& d.timeout > 1 ==> d.timeout * 1000 <= timeout_ms * sample_rate
            &&& d.confirmation * 1000 <= confirmation_ms * sample_rate < (d.confirmation + 1) * 1000
        }),
{
    assert(timeout_ms * sample_rate >= 0 && confirmation_ms * sample_rate >= 0)
        by (nonlinear_arith)
        requires
            timeout_ms >= 0,
            confirmation_ms >= 0,
            sample_rate >= 0,
    ;
}

/// Audio is worth transcribing exactly when there is some, its rate is known, it lasts as
/// long as was asked, and it is not silent.
pub proof fn audio_worth_transcribing(
    samples: nat,
    energy: u64,
    sample_rate: u32,
    min_duration_ms: u64,
    threshold: u64,
)
    requires
        samples * 1000 <= u64::MAX,
    ensures
        gate(samples, energy, sample_rate, min_duration_ms, threshold) is None <==> samples > 0
            && sample_rate > 0 && samples * 1000 >= min_duration_ms * sample_rate && energy
            >= threshold,
{
    if samples > 0 && sample_rate > 0 {
        let whole = samples as int * 1000;
        let rate = sample_rate as int;
        vstd::arithmetic::div_mod::lemma_fundamental_div_mod(whole, rate);
        let q = whole / rate;
        if q >= min_duration_ms {
            assert(rate * q >= min_duration_ms * rate) by (nonlinear_arith)
                requires
                    q >= min_duration_ms,
                    rate > 0,
            ;
        } else {
            assert(rate * q + rate <= min_duration_ms * rate) by (nonlinear_arith)
                requires
                    q + 1 <= min_duration_ms,
                    rate > 0,
            ;
        }
    }
}

} // verus!
