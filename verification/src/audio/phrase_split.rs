//! Cutting a stream of speech into phrases at its silences.

use vstd::prelude::*;

verus! {

/// How phrases are cut. Lengths are counted in frames, frames in samples.
pub struct Params {
    pub frame_len: int,
    /// A frame with less energy than this is silent.
    pub threshold: u64,
    /// So many silent frames in a row end a phrase.
    pub split_silence: int,
    /// A phrase with fewer voiced frames is noise.
    pub min_speech: int,
    /// A phrase of so many frames is split at its quietest frame.
    pub max_phrase: int,
    /// So many frames are kept around the speech.
    pub pad: int,
    /// The quietest frame is looked for among so many frames at the end.
    pub quiet_search: int,
}

/// What a splitter holds: the samples not yet emitted or dropped, the energies of the
/// whole frames among them, and where the phrase under way stands.
pub struct Progress {
    pub buffer: Seq<i16>,
    pub energies: Seq<u64>,
    pub in_phrase: bool,
    pub emit_start: int,
    pub phrase_start: int,
    pub speech: int,
    pub trailing: int,
}

/// Nothing held.
pub open spec fn empty_progress() -> Progress {
    Progress {
        buffer: Seq::empty(),
        energies: Seq::empty(),
        in_phrase: false,
        emit_start: 0,
        phrase_start: 0,
        speech: 0,
        trailing: 0,
    }
}

/// The parameters make sense.
pub open spec fn params_ok(p: Params) -> bool {
    p.frame_len >= 1 && p.split_silence >= 1 && p.min_speech >= 1 && p.max_phrase >= 2 && p.pad >= 0
        && p.quiet_search >= 1
}

/// What holds between two frames. The samples held are bounded: outside a phrase by the
/// padding, inside one by the padding and the longest phrase.
pub open spec fn progress_ok(p: Params, s: Progress) -> bool {
    &&& s.energies.len() * p.frame_len <= s.buffer.len()
    &&& !s.in_phrase ==> s.energies.len() <= p.pad
    &&& s.in_phrase ==> {
        &&& 0 <= s.emit_start <= s.phrase_start < s.energies.len()
        &&& s.phrase_start <= p.pad
        &&& s.energies.len() - s.phrase_start < p.max_phrase
        &&& 0 <= s.trailing <= s.energies.len() - s.phrase_start
        &&& 0 <= s.speech <= s.energies.len()
    }
}

/// How many whole frames are held whose energy is not yet known.
pub open spec fn pending(p: Params, s: Progress) -> int {
    s.buffer.len() as int / p.frame_len - s.energies.len()
}

/// The samples of the frames `from` (included) to `to` (excluded).
pub open spec fn frames(p: Params, s: Progress, from: int, to: int) -> Seq<i16> {
    s.buffer.subrange(from * p.frame_len, to * p.frame_len)
}

/// Without its first `n` frames.
pub open spec fn dropped(p: Params, s: Progress, n: int) -> Progress {
    Progress { buffer: s.buffer.skip(n * p.frame_len), energies: s.energies.skip(n), ..s }
}

/// How many frames are voiced.
pub open spec fn voiced_count(energies: Seq<u64>, threshold: u64) -> int
    decreases energies.len(),
{
    if energies.len() == 0 {
        0
    } else {
        voiced_count(energies.drop_last(), threshold) + if energies.last() >= threshold {
            1int
        } else {
            0
        }
    }
}

/// How many frames at the end are silent.
pub open spec fn trailing_silent(energies: Seq<u64>, threshold: u64) -> int
    decreases energies.len(),
{
    if energies.len() == 0 || energies.last() >= threshold {
        0
    } else {
        1 + trailing_silent(energies.drop_last(), threshold)
    }
}

/// `at` is the first of the quietest frames from `from` to the end.
pub open spec fn is_quietest(energies: Seq<u64>, from: int, at: int) -> bool {
    &&& from <= at < energies.len()
    &&& forall|k: int| from <= k < at ==> energies[at] < #[trigger] energies[k]
    &&& forall|k: int| at <= k < energies.len() ==> energies[at] <= #[trigger] energies[k]
}

/// The first of the quietest frames from `from` to the end.
pub open spec fn quietest(energies: Seq<u64>, from: int) -> int {
    choose|at: int| is_quietest(energies, from, at)
}

/// The larger of two numbers.
pub open spec fn larger(a: int, b: int) -> int {
    if a < b {
        b
    } else {
        a
    }
}

/// The smaller of two numbers.
pub open spec fn smaller(a: int, b: int) -> int {
    if a < b {
        a
    } else {
        b
    }
}

/// Where the search for a quiet frame starts, the last frame being the newest.
pub open spec fn search_start(p: Params, s: Progress) -> int {
    larger(s.energies.len() - p.quiet_search, s.phrase_start + 1)
}

/// The phrase ends: the frames up to the end of the speech and its padding are emitted, if
/// they hold enough speech, and no more than the padding is kept.
pub open spec fn ended(p: Params, s: Progress) -> (Progress, Option<Seq<i16>>) {
    let speech_end = s.energies.len() - s.trailing;
    let end_frame = smaller(speech_end + p.pad, s.energies.len() as int);
    let keep_from = larger(s.energies.len() - p.pad, speech_end);
    (
        dropped(p, Progress { in_phrase: false, speech: 0, trailing: 0, ..s }, keep_from),
        if s.speech >= p.min_speech {
            Some(frames(p, s, s.emit_start, end_frame))
        } else {
            None
        },
    )
}

/// The phrase is split: the frames before the quietest of the newest ones are emitted, and
/// the phrase goes on with the rest.
pub open spec fn forced(p: Params, s: Progress) -> (Progress, Option<Seq<i16>>) {
    let at = quietest(s.energies, search_start(p, s));
    let rest = s.energies.skip(at);
    (
        Progress {
            phrase_start: 0,
            emit_start: 0,
            speech: voiced_count(rest, p.threshold),
            trailing: trailing_silent(rest, p.threshold),
            ..dropped(p, s, at)
        },
        Some(frames(p, s, s.emit_start, at)),
    )
}

/// What the next whole frame, of this energy, does: what is held afterwards, and the
/// phrase emitted, if any.
pub open spec fn step(p: Params, s: Progress, energy: u64) -> (Progress, Option<Seq<i16>>) {
    let i = s.energies.len() as int;
    let silent = energy < p.threshold;
    let heard = Progress { energies: s.energies.push(energy), ..s };
    if !s.in_phrase && silent {
        (dropped(p, heard, larger(i + 1 - p.pad, 0)), None)
    } else if !s.in_phrase {
        (
            Progress {
                in_phrase: true,
                phrase_start: i,
                emit_start: larger(i - p.pad, 0),
                speech: 1,
                trailing: 0,
                ..heard
            },
            None,
        )
    } else if silent && s.trailing + 1 >= p.split_silence {
        ended(p, Progress { trailing: s.trailing + 1, ..heard })
    } else {
        let counted = if silent {
            Progress { trailing: s.trailing + 1, ..heard }
        } else {
            Progress { speech: s.speech + 1, trailing: 0, ..heard }
        };
        if i + 1 - s.phrase_start >= p.max_phrase {
            forced(p, counted)
        } else {
            (counted, None)
        }
    }
}

/// What a sequence of whole frames does.
pub open spec fn run(p: Params, s: Progress, energies: Seq<u64>) -> (Progress, Seq<Seq<i16>>)
    decreases energies.len(),
{
    if energies.len() == 0 {
        (s, Seq::empty())
    } else {
        let (before, phrases) = run(p, s, energies.drop_last());
        let (after, phrase) = step(p, before, energies.last());
        (
            after,
            match phrase {
                Some(phrase) => phrases.push(phrase),
                None => phrases,
            },
        )
    }
}

/// With more samples at the end.
pub open spec fn extended(s: Progress, samples: Seq<i16>) -> Progress {
    Progress { buffer: s.buffer + samples, ..s }
}

/// What feeding samples does, given the energies of the frames that they complete.
pub open spec fn fed(p: Params, s: Progress, samples: Seq<i16>, energies: Seq<u64>) -> (
    Progress,
    Seq<Seq<i16>>,
) {
    run(p, extended(s, samples), energies)
}

/// What is emitted at the end of the stream: the phrase under way, without the silence
/// after its padding, if it holds enough speech.
pub open spec fn flushed(p: Params, s: Progress) -> Option<Seq<i16>> {
    if !s.in_phrase || s.speech < p.min_speech {
        None
    } else if s.trailing > p.pad {
        Some(frames(p, s, s.emit_start, s.energies.len() - s.trailing + p.pad))
    } else {
        Some(s.buffer.skip(s.emit_start * p.frame_len))
    }
}

/// The contents of a list of phrases.
pub open spec fn phrase_views(phrases: Seq<Vec<i16>>) -> Seq<Seq<i16>> {
    Seq::new(phrases.len(), |i: int| phrases[i]@)
}

// ---------------------------------------------------------------------------
// Facts about single frames
// ---------------------------------------------------------------------------

pub proof fn voiced_count_bounds(energies: Seq<u64>, threshold: u64)
    ensures
        0 <= voiced_count(energies, threshold) <= energies.len(),
    decreases energies.len(),
{
    if energies.len() > 0 {
        voiced_count_bounds(energies.drop_last(), threshold);
    }
}

pub proof fn trailing_silent_bounds(energies: Seq<u64>, threshold: u64)
    ensures
        0 <= trailing_silent(energies, threshold) <= energies.len(),
    decreases energies.len(),
{
    if energies.len() > 0 {
        trailing_silent_bounds(energies.drop_last(), threshold);
    }
}

/// There is a first quietest frame, and only one.
pub proof fn quietest_exists(energies: Seq<u64>, from: int)
    requires
        0 <= from < energies.len(),
    ensures
        is_quietest(energies, from, quietest(energies, from)),
    decreases energies.len() - from,
{
    if from + 1 == energies.len() {
        assert(is_quietest(energies, from, from));
    } else {
        quietest_exists(energies, from + 1);
        let later = quietest(energies, from + 1);
        if energies[from] <= energies[later] {
            assert(is_quietest(energies, from, from));
        } else {
            assert(is_quietest(energies, from, later));
        }
    }
}

proof fn quietest_is_unique(energies: Seq<u64>, from: int, at: int)
    requires
        is_quietest(energies, from, at),
    ensures
        quietest(energies, from) == at,
{
    let other = quietest(energies, from);
    assert(is_quietest(energies, from, other));
    if at < other {
        assert(energies[other] < energies[at]);
    } else if other < at {
        assert(energies[at] < energies[other]);
    }
}

pub proof fn frames_fit(n: int, m: int, frame_len: int, size: int)
    requires
        0 <= n <= m,
        frame_len >= 1,
        m * frame_len <= size,
    ensures
        0 <= n * frame_len <= m * frame_len <= size,
        (m - n) * frame_len == m * frame_len - n * frame_len,
{
    assert(n * frame_len <= m * frame_len) by (nonlinear_arith)
        requires
            n <= m,
            frame_len >= 1,
    ;
    assert(0 <= n * frame_len) by (nonlinear_arith)
        requires
            0 <= n,
            frame_len >= 1,
    ;
    assert((m - n) * frame_len == m * frame_len - n * frame_len) by (nonlinear_arith);
}

/// Dropping whole frames leaves as many frames pending.
pub proof fn dropping_keeps_pending(p: Params, s: Progress, n: int)
    requires
        params_ok(p),
        0 <= n <= s.energies.len(),
        s.energies.len() * p.frame_len <= s.buffer.len(),
    ensures
        pending(p, dropped(p, s, n)) == pending(p, s),
        dropped(p, s, n).buffer.len() == s.buffer.len() - n * p.frame_len,
        dropped(p, s, n).energies.len() == s.energies.len() - n,
        dropped(p, s, n).energies.len() * p.frame_len <= dropped(p, s, n).buffer.len(),
{
    frames_fit(n, s.energies.len() as int, p.frame_len, s.buffer.len() as int);
    let b = s.buffer.len() as int;
    vstd::arithmetic::div_mod::lemma_hoist_over_denominator(b, -n, p.frame_len as nat);
    assert(b / p.frame_len + (-n) == (b + (-n) * p.frame_len) / p.frame_len);
    assert((-n) * p.frame_len == -(n * p.frame_len)) by (nonlinear_arith);
}

/// One frame more is held when one is pending.
pub proof fn pending_frames_fit(p: Params, s: Progress)
    requires
        params_ok(p),
        pending(p, s) > 0,
    ensures
        (s.energies.len() + 1) * p.frame_len <= s.buffer.len(),
{
    let b = s.buffer.len() as int;
    vstd::arithmetic::div_mod::lemma_fundamental_div_mod(b, p.frame_len);
    let q = b / p.frame_len;
    assert((s.energies.len() + 1) * p.frame_len <= q * p.frame_len) by (nonlinear_arith)
        requires
            s.energies.len() + 1 <= q,
            p.frame_len >= 1,
    ;
    assert(p.frame_len * q == q * p.frame_len) by (nonlinear_arith);
}

/// A frame keeps what holds between frames, and one frame less is pending after it.
pub proof fn step_keeps_progress(p: Params, s: Progress, energy: u64)
    requires
        params_ok(p),
        progress_ok(p, s),
        pending(p, s) > 0,
    ensures
        progress_ok(p, step(p, s, energy).0),
        pending(p, step(p, s, energy).0) == pending(p, s) - 1,
{
    pending_frames_fit(p, s);
    let i = s.energies.len() as int;
    let silent = energy < p.threshold;
    let heard = Progress { energies: s.energies.push(energy), ..s };
    assert(heard.energies.len() == i + 1);
    assert(pending(p, heard) == pending(p, s) - 1);
    if !s.in_phrase && silent {
        dropping_keeps_pending(p, heard, larger(i + 1 - p.pad, 0));
    } else if !s.in_phrase {
    } else if silent && s.trailing + 1 >= p.split_silence {
        let t = Progress { trailing: s.trailing + 1, ..heard };
        let speech_end = t.energies.len() - t.trailing;
        let keep_from = larger(t.energies.len() - p.pad, speech_end);
        dropping_keeps_pending(
            p,
            Progress { in_phrase: false, speech: 0, trailing: 0, ..t },
            keep_from,
        );
    } else {
        let counted = if silent {
            Progress { trailing: s.trailing + 1, ..heard }
        } else {
            Progress { speech: s.speech + 1, trailing: 0, ..heard }
        };
        if i + 1 - s.phrase_start >= p.max_phrase {
            let from = search_start(p, counted);
            quietest_exists(counted.energies, from);
            let at = quietest(counted.energies, from);
            dropping_keeps_pending(p, counted, at);
            voiced_count_bounds(counted.energies.skip(at), p.threshold);
            trailing_silent_bounds(counted.energies.skip(at), p.threshold);
        }
    }
}

pub proof fn run_keeps_progress(p: Params, s: Progress, energies: Seq<u64>)
    requires
        params_ok(p),
        progress_ok(p, s),
        energies.len() <= pending(p, s),
    ensures
        progress_ok(p, run(p, s, energies).0),
        pending(p, run(p, s, energies).0) == pending(p, s) - energies.len(),
    decreases energies.len(),
{
    if energies.len() > 0 {
        run_keeps_progress(p, s, energies.drop_last());
        step_keeps_progress(p, run(p, s, energies.drop_last()).0, energies.last());
    }
}

// ---------------------------------------------------------------------------
// The splitter
// ---------------------------------------------------------------------------

/// Cuts a stream of samples into phrases.
pub struct PhraseSplitter {
    frame_len: usize,
    threshold: u64,
    split_silence_frames: usize,
    min_speech_frames: usize,
    max_phrase_frames: usize,
    pad_frames: usize,
    quiet_search_frames: usize,
    buffer: Vec<i16>,
    energies: Vec<u64>,
    in_phrase: bool,
    emit_start_frame: usize,
    phrase_start_frame: usize,
    speech_frames: usize,
    trailing_silence: usize,
}

impl View for PhraseSplitter {
    type V = Progress;

    closed spec fn view(&self) -> Progress {
        Progress {
            buffer: self.buffer@,
            energies: self.energies@,
            in_phrase: self.in_phrase,
            emit_start: self.emit_start_frame as int,
            phrase_start: self.phrase_start_frame as int,
            speech: self.speech_frames as int,
            trailing: self.trailing_silence as int,
        }
    }
}

fn at_least(value: usize, minimum: usize) -> (result: usize)
    ensures
        result == larger(value as int, minimum as int),
{
    if value < minimum {
        minimum
    } else {
        value
    }
}

/// How a splitter cuts that is made for a rate of samples and a length of silence.
pub open spec fn params_for(sample_rate: int, threshold: u64, phrase_silence_ms: int) -> Params {
    Params {
        frame_len: larger(sample_rate * 100 / 1000, 1),
        threshold,
        split_silence: larger((phrase_silence_ms + 99) / 100, 1),
        min_speech: 3,
        max_phrase: 200,
        pad: 1,
        quiet_search: 20,
    }
}

/// A frame is a tenth of a second, and the silence that ends a phrase is the fewest frames
/// that last as long as was asked for, but at least one. Speech counts from three tenths of a
/// second, a phrase lasts twenty seconds at most and is cut in its last two, and a tenth of a
/// second is kept around it.
pub proof fn frames_cover_the_times_asked_for(
    sample_rate: int,
    threshold: u64,
    phrase_silence_ms: int,
)
    requires
        sample_rate >= 10,
        phrase_silence_ms >= 0,
    ensures
        ({
            let p = params_for(sample_rate, threshold, phrase_silence_ms);
            &&& p.threshold == threshold
            &&& p.frame_len * 10 <= sample_rate < p.frame_len * 10 + 10
            &&& phrase_silence_ms <= p.split_silence * 100
            &&& p.split_silence > 1 ==> (p.split_silence - 1) * 100 < phrase_silence_ms
            &&& p.split_silence >= 1
            &&& p.min_speech * 100 == 300
            &&& p.max_phrase * 100 == 20 * 1000
            &&& p.quiet_search * 100 == 2 * 1000
            &&& p.pad * 100 == 100
        }),
{
}

impl PhraseSplitter {
    /// How the splitter cuts.
    pub closed spec fn params(&self) -> Params {
        Params {
            frame_len: self.frame_len as int,
            threshold: self.threshold,
            split_silence: self.split_silence_frames as int,
            min_speech: self.min_speech_frames as int,
            max_phrase: self.max_phrase_frames as int,
            pad: self.pad_frames as int,
            quiet_search: self.quiet_search_frames as int,
        }
    }

    /// The splitter stands between two frames.
    pub open spec fn wf(&self) -> bool {
        params_ok(self.params()) && progress_ok(self.params(), self@)
    }

    /// The splitter has seen every whole frame that it holds.
    pub open spec fn settled(&self) -> bool {
        pending(self.params(), self@) == 0
    }

    /// A splitter with frames, padding and limits fit for speech, that ends a phrase after
    /// so many milliseconds of silence.
    #[must_use]
    pub fn new(sample_rate: usize, threshold: u64, phrase_silence_ms: u64) -> (result: Self)
        requires
            sample_rate * 100 <= usize::MAX,
            phrase_silence_ms <= usize::MAX,
        ensures
            result.wf(),
            result.settled(),
            result@ == empty_progress(),
            result.params() == (Params {
                frame_len: larger(sample_rate * 100 / 1000, 1),
                threshold,
                split_silence: larger((phrase_silence_ms + 99) / 100, 1),
                min_speech: 3,
                max_phrase: 200,
                pad: 1,
                quiet_search: 20,
            }),
            result.params() == params_for(sample_rate as int, threshold, phrase_silence_ms as int),
    {
        let silence: usize = phrase_silence_ms as usize;
        let silence_frames: usize = if silence % 100 == 0 {
            silence / 100
        } else {
            silence / 100 + 1
        };
        Self::with_params(
            at_least(sample_rate * 100 / 1000, 1),
            threshold,
            at_least(silence_frames, 1),
            3,
            200,
            1,
            20,
        )
    }

    /// A splitter with the given parameters, raised to the least that makes sense.
    #[must_use]
    pub fn with_params(
        frame_len: usize,
        threshold: u64,
        split_silence_frames: usize,
        min_speech_frames: usize,
        max_phrase_frames: usize,
        pad_frames: usize,
        quiet_search_frames: usize,
    ) -> (result: Self)
        ensures
            result.wf(),
            result.settled(),
            result@ == empty_progress(),
            result.params() == (Params {
                frame_len: larger(frame_len as int, 1),
                threshold,
                split_silence: larger(split_silence_frames as int, 1),
                min_speech: larger(min_speech_frames as int, 1),
                max_phrase: larger(max_phrase_frames as int, 2),
                pad: pad_frames as int,
                quiet_search: larger(quiet_search_frames as int, 1),
            }),
    {
        let result = Self {
            frame_len: at_least(frame_len, 1),
            threshold,
            split_silence_frames: at_least(split_silence_frames, 1),
            min_speech_frames: at_least(min_speech_frames, 1),
            max_phrase_frames: at_least(max_phrase_frames, 2),
            pad_frames,
            quiet_search_frames: at_least(quiet_search_frames, 1),
            buffer: Vec::new(),
            energies: Vec::new(),
            in_phrase: false,
            emit_start_frame: 0,
            phrase_start_frame: 0,
            speech_frames: 0,
            trailing_silence: 0,
        };
        assert(result@.buffer =~= Seq::empty());
        assert(result@.energies =~= Seq::empty());
        assert(0int / result.params().frame_len == 0) by (nonlinear_arith)
            requires
                result.params().frame_len >= 1,
        ;
        result
    }

    /// How many samples are held.
    pub fn buffered(&self) -> (result: usize)
        ensures
            result == self@.buffer.len(),
    {
        self.buffer.len()
    }

    /// The frames that the samples complete, whose energies are to be fed with them.
    pub fn next_frames(&self, samples: &[i16]) -> (result: Vec<Vec<i16>>)
        requires
            self.wf(),
            self@.buffer.len() + samples@.len() <= usize::MAX,
        ensures
            result@.len() == pending(self.params(), extended(self@, samples@)),
            forall|k: int|
                0 <= k < result@.len() ==> (#[trigger] result@[k])@ == frames(
                    self.params(),
                    extended(self@, samples@),
                    self@.energies.len() + k,
                    self@.energies.len() + k + 1,
                ),
    {
        let ghost p = self.params();
        let ghost s = extended(self@, samples@);
        let mut all: Vec<i16> = Vec::new();
        let mut i: usize = 0;
        while i < self.buffer.len()
            invariant
                i <= self.buffer@.len(),
                all@ == self.buffer@.take(i as int),
            decreases self.buffer@.len() - i,
        {
            all.push(self.buffer[i]);
            i += 1;
            assert(all@ =~= self.buffer@.take(i as int));
        }
        assert(all@ =~= self.buffer@);
        all.extend_from_slice(samples);
        assert(all@ =~= s.buffer);
        let held: usize = all.len();
        let total: usize = held / self.frame_len;
        let mut result: Vec<Vec<i16>> = Vec::new();
        let mut n: usize = self.energies.len();
        proof {
            vstd::arithmetic::div_mod::lemma_fundamental_div_mod(all@.len() as int, p.frame_len);
            assert(p.frame_len * (total as int) == (total as int) * p.frame_len)
                by (nonlinear_arith);
            if n > total {
                assert((total + 1) * p.frame_len <= n * p.frame_len) by (nonlinear_arith)
                    requires
                        total + 1 <= n,
                        p.frame_len >= 1,
                ;
                assert((total + 1) * p.frame_len == total * p.frame_len + p.frame_len)
                    by (nonlinear_arith);
            }
        }
        while n < total
            invariant
                self.wf(),
                p == self.params(),
                s == extended(self@, samples@),
                all@ == s.buffer,
                held == all@.len(),
                self@.energies.len() <= n <= total,
                total * p.frame_len <= all@.len(),
                result@.len() == n - self@.energies.len(),
                forall|k: int|
                    0 <= k < result@.len() ==> (#[trigger] result@[k])@ == frames(
                        p,
                        s,
                        self@.energies.len() + k,
                        self@.energies.len() + k + 1,
                    ),
            decreases total - n,
        {
            proof {
                frames_fit(n as int, total as int, p.frame_len, all@.len() as int);
                frames_fit(n + 1, total as int, p.frame_len, all@.len() as int);
                frames_fit(n as int, n + 1, p.frame_len, all@.len() as int);
            }
            let from: usize = n * self.frame_len;
            let to: usize = (n + 1) * self.frame_len;
            result.push(copy_range(&all, from, to));
            n += 1;
        }
        result
    }

    /// Feeds samples, with the energies of the frames that they complete, and returns the
    /// phrases that end.
    pub fn feed(&mut self, samples: &[i16], energies: &[u64]) -> (result: Vec<Vec<i16>>)
        requires
            old(self).wf(),
            old(self)@.buffer.len() + samples@.len() <= usize::MAX,
            energies@.len() == pending(old(self).params(), extended(old(self)@, samples@)),
        ensures
            final(self).wf(),
            final(self).settled(),
            final(self).params() == old(self).params(),
            (final(self)@, phrase_views(result@)) == fed(
                old(self).params(),
                old(self)@,
                samples@,
                energies@,
            ),
    {
        let ghost p = self.params();
        let ghost start = extended(self@, samples@);
        self.buffer.extend_from_slice(samples);
        assert(self.buffer@ =~= start.buffer);
        assert(self@ == start);
        let mut out: Vec<Vec<i16>> = Vec::new();
        assert(phrase_views(out@) =~= run(p, start, energies@.take(0)).1);
        let mut k: usize = 0;
        while k < energies.len()
            invariant
                k <= energies@.len(),
                self.wf(),
                p == self.params(),
                start.energies.len() * p.frame_len <= start.buffer.len(),
                pending(p, self@) == energies@.len() - k,
                (self@, phrase_views(out@)) == run(p, start, energies@.take(k as int)),
            decreases energies@.len() - k,
        {
            let ghost before = self@;
            let ghost earlier = phrase_views(out@);
            assert(energies@.take(k + 1).drop_last() =~= energies@.take(k as int));
            assert(energies@.take(k + 1).last() == energies@[k as int]);
            match self.process_frame(energies[k]) {
                Some(phrase) => {
                    out.push(phrase);
                    assert(phrase_views(out@) =~= earlier.push(phrase@));
                },
                None => {},
            }
            k += 1;
        }
        assert(energies@.take(k as int) =~= energies@);
        out
    }

    fn process_frame(&mut self, energy: u64) -> (result: Option<Vec<i16>>)
        requires
            old(self).wf(),
            pending(old(self).params(), old(self)@) > 0,
        ensures
            final(self).wf(),
            final(self).params() == old(self).params(),
            pending(final(self).params(), final(self)@) == pending(
                old(self).params(),
                old(self)@,
            ) - 1,
            final(self)@ == step(old(self).params(), old(self)@, energy).0,
            match result {
                Some(phrase) => step(old(self).params(), old(self)@, energy).1 == Some(phrase@),
                None => step(old(self).params(), old(self)@, energy).1 is None,
            },
    {
        let ghost p = self.params();
        let ghost s = self@;
        proof {
            step_keeps_progress(p, s, energy);
            pending_frames_fit(p, s);
            frames_fit(
                s.energies.len() as int,
                s.energies.len() as int + 1,
                p.frame_len,
                s.buffer.len() as int,
            );
            assert(s.energies.len() + 1 <= s.buffer.len()) by (nonlinear_arith)
                requires
                    (s.energies.len() + 1) * p.frame_len <= s.buffer.len(),
                    p.frame_len >= 1,
            ;
        }
        let held: usize = self.buffer.len();
        assert(s.buffer.len() == held);
        let i: usize = self.energies.len();
        let silent = energy < self.threshold;
        self.energies.push(energy);
        if !self.in_phrase {
            if silent {
                let drop: usize = if self.energies.len() > self.pad_frames {
                    self.energies.len() - self.pad_frames
                } else {
                    0
                };
                self.drop_frames(drop);
            } else {
                self.in_phrase = true;
                self.phrase_start_frame = i;
                self.emit_start_frame = if i > self.pad_frames {
                    i - self.pad_frames
                } else {
                    0
                };
                self.speech_frames = 1;
                self.trailing_silence = 0;
            }
            return None;
        }
        if silent {
            self.trailing_silence = self.trailing_silence + 1;
            if self.trailing_silence >= self.split_silence_frames {
                return self.end_phrase();
            }
        } else {
            self.speech_frames = self.speech_frames + 1;
            self.trailing_silence = 0;
        }
        if i + 1 - self.phrase_start_frame >= self.max_phrase_frames {
            return Some(self.force_split());
        }
        None
    }

    /// Where a frame starts in the buffer.
    fn frame_offset(&self, n: usize) -> (result: usize)
        requires
            params_ok(self.params()),
            n <= self@.energies.len(),
            self@.energies.len() * self.params().frame_len <= self@.buffer.len(),
        ensures
            result == n * self.params().frame_len,
            result <= self@.buffer.len(),
    {
        let held: usize = self.buffer.len();
        proof {
            frames_fit(
                n as int,
                self@.energies.len() as int,
                self.params().frame_len,
                held as int,
            );
        }
        n * self.frame_len
    }

    fn end_phrase(&mut self) -> (result: Option<Vec<i16>>)
        requires
            params_ok(old(self).params()),
            old(self)@.energies.len() * old(self).params().frame_len <= old(self)@.buffer.len(),
            0 <= old(self)@.emit_start <= old(self)@.phrase_start < old(self)@.energies.len(),
            0 <= old(self)@.trailing <= old(self)@.energies.len() - old(self)@.phrase_start,
        ensures
            final(self).params() == old(self).params(),
            final(self)@ == ended(old(self).params(), old(self)@).0,
            match result {
                Some(phrase) => ended(old(self).params(), old(self)@).1 == Some(phrase@),
                None => ended(old(self).params(), old(self)@).1 is None,
            },
    {
        let ghost p = self.params();
        let ghost s = self@;
        let speech_end: usize = self.energies.len() - self.trailing_silence;
        let end_frame: usize = if self.pad_frames < self.trailing_silence {
            speech_end + self.pad_frames
        } else {
            self.energies.len()
        };
        proof {
            let n = s.energies.len() as int;
            frames_fit(end_frame as int, n, p.frame_len, s.buffer.len() as int);
            frames_fit(s.emit_start, end_frame as int, p.frame_len, s.buffer.len() as int);
        }
        let result = if self.speech_frames >= self.min_speech_frames {
            Some(
                copy_range(
                    &self.buffer,
                    self.frame_offset(self.emit_start_frame),
                    self.frame_offset(end_frame),
                ),
            )
        } else {
            None
        };
        self.in_phrase = false;
        self.speech_frames = 0;
        self.trailing_silence = 0;
        let keep_from: usize = if self.energies.len() > self.pad_frames {
            at_least(self.energies.len() - self.pad_frames, speech_end)
        } else {
            speech_end
        };
        self.drop_frames(keep_from);
        result
    }

    fn force_split(&mut self) -> (result: Vec<i16>)
        requires
            params_ok(old(self).params()),
            old(self)@.energies.len() * old(self).params().frame_len <= old(self)@.buffer.len(),
            0 <= old(self)@.emit_start <= old(self)@.phrase_start,
            old(self)@.phrase_start + 1 < old(self)@.energies.len(),
        ensures
            final(self).params() == old(self).params(),
            final(self)@ == forced(old(self).params(), old(self)@).0,
            forced(old(self).params(), old(self)@).1 == Some(result@),
    {
        let ghost p = self.params();
        let ghost s = self@;
        let size: usize = self.energies.len();
        let window: usize = if size > self.quiet_search_frames {
            size - self.quiet_search_frames
        } else {
            0
        };
        let from: usize = at_least(window, self.phrase_start_frame + 1);
        assert(from == search_start(p, s));
        let mut split_frame: usize = from;
        let mut j: usize = from + 1;
        while j < size
            invariant
                self@ == s,
                self.params() == p,
                size == s.energies.len(),
                from <= split_frame < j <= size,
                forall|k: int| from <= k < split_frame ==> s.energies[split_frame as int]
                    < #[trigger] s.energies[k],
                forall|k: int| split_frame <= k < j ==> s.energies[split_frame as int]
                    <= #[trigger] s.energies[k],
            decreases size - j,
        {
            if self.energies[j] < self.energies[split_frame] {
                split_frame = j;
            }
            j += 1;
        }
        proof {
            assert(is_quietest(s.energies, from as int, split_frame as int));
            quietest_is_unique(s.energies, from as int, split_frame as int);
            frames_fit(split_frame as int, size as int, p.frame_len, s.buffer.len() as int);
            frames_fit(s.emit_start, split_frame as int, p.frame_len, s.buffer.len() as int);
        }
        let result = copy_range(
            &self.buffer,
            self.frame_offset(self.emit_start_frame),
            self.frame_offset(split_frame),
        );
        self.drop_frames(split_frame);
        self.phrase_start_frame = 0;
        self.emit_start_frame = 0;
        self.speech_frames = count_voiced(&self.energies, self.threshold);
        self.trailing_silence = count_trailing_silent(&self.energies, self.threshold);
        result
    }

    fn drop_frames(&mut self, frame_count: usize)
        requires
            params_ok(old(self).params()),
            frame_count <= old(self)@.energies.len(),
            old(self)@.energies.len() * old(self).params().frame_len <= old(self)@.buffer.len(),
        ensures
            final(self).params() == old(self).params(),
            final(self)@ == dropped(old(self).params(), old(self)@, frame_count as int),
    {
        proof {
            frames_fit(
                frame_count as int,
                self@.energies.len() as int,
                self.params().frame_len,
                self@.buffer.len() as int,
            );
        }
        let ghost s = self@;
        let ghost p = self.params();
        let at: usize = self.frame_offset(frame_count);
        self.buffer = self.buffer.split_off(at);
        self.energies = self.energies.split_off(frame_count);
        assert(self@.buffer =~= dropped(p, s, frame_count as int).buffer);
        assert(self@.energies =~= dropped(p, s, frame_count as int).energies);
    }

    /// Ends the stream: returns the phrase under way, if it holds enough speech, and
    /// forgets everything.
    pub fn flush(&mut self) -> (result: Option<Vec<i16>>)
        requires
            old(self).wf(),
        ensures
            final(self).wf(),
            final(self).settled(),
            final(self).params() == old(self).params(),
            final(self)@ == empty_progress(),
            match result {
                Some(phrase) => flushed(old(self).params(), old(self)@) == Some(phrase@),
                None => flushed(old(self).params(), old(self)@) is None,
            },
    {
        let ghost p = self.params();
        let ghost s = self@;
        if !self.in_phrase || self.speech_frames < self.min_speech_frames {
            self.clear();
            return None;
        }
        proof {
            frames_fit(
                s.emit_start,
                s.energies.len() as int,
                p.frame_len,
                s.buffer.len() as int,
            );
        }
        let end_sample: usize = if self.trailing_silence > self.pad_frames {
            let speech_end: usize = self.energies.len() - self.trailing_silence;
            proof {
                let end = speech_end + self.pad_frames;
                frames_fit(end, s.energies.len() as int, p.frame_len, s.buffer.len() as int);
                frames_fit(s.emit_start, end, p.frame_len, s.buffer.len() as int);
            }
            self.frame_offset(speech_end + self.pad_frames)
        } else {
            self.buffer.len()
        };
        let phrase = copy_range(
            &self.buffer,
            self.frame_offset(self.emit_start_frame),
            end_sample,
        );
        assert(s.trailing <= p.pad ==> phrase@ =~= s.buffer.skip(s.emit_start * p.frame_len));
        self.clear();
        Some(phrase)
    }

    fn clear(&mut self)
        requires
            params_ok(old(self).params()),
        ensures
            final(self).params() == old(self).params(),
            final(self)@ == empty_progress(),
            final(self).wf(),
            final(self).settled(),
    {
        self.buffer = Vec::new();
        self.energies = Vec::new();
        self.in_phrase = false;
        self.emit_start_frame = 0;
        self.phrase_start_frame = 0;
        self.speech_frames = 0;
        self.trailing_silence = 0;
        assert(self@.buffer =~= Seq::empty());
        assert(self@.energies =~= Seq::empty());
        assert(0int / self.params().frame_len == 0) by (nonlinear_arith)
            requires
                self.params().frame_len >= 1,
        ;
    }
}

fn copy_range(samples: &Vec<i16>, from: usize, to: usize) -> (result: Vec<i16>)
    requires
        from <= to <= samples@.len(),
    ensures
        result@ == samples@.subrange(from as int, to as int),
{
    let mut result: Vec<i16> = Vec::new();
    let mut i: usize = from;
    assert(result@ =~= samples@.subrange(from as int, from as int));
    while i < to
        invariant
            from <= i <= to <= samples@.len(),
            result@ == samples@.subrange(from as int, i as int),
        decreases to - i,
    {
        result.push(samples[i]);
        i += 1;
        assert(result@ =~= samples@.subrange(from as int, i as int));
    }
    result
}

fn count_voiced(energies: &Vec<u64>, threshold: u64) -> (result: usize)
    ensures
        result == voiced_count(energies@, threshold),
{
    let mut result: usize = 0;
    let mut i: usize = 0;
    while i < energies.len()
        invariant
            i <= energies@.len(),
            result <= i,
            result == voiced_count(energies@.take(i as int), threshold),
        decreases energies@.len() - i,
    {
        assert(energies@.take(i + 1).drop_last() =~= energies@.take(i as int));
        if energies[i] >= threshold {
            result += 1;
        }
        i += 1;
    }
    assert(energies@.take(i as int) =~= energies@);
    result
}

fn count_trailing_silent(energies: &Vec<u64>, threshold: u64) -> (result: usize)
    ensures
        result == trailing_silent(energies@, threshold),
{
    let mut i: usize = energies.len();
    assert(energies@.take(i as int) =~= energies@);
    while i > 0 && energies[i - 1] < threshold
        invariant
            i <= energies@.len(),
            trailing_silent(energies@, threshold) == energies@.len() - i + trailing_silent(
                energies@.take(i as int),
                threshold,
            ),
        decreases i,
    {
        assert(energies@.take(i as int).drop_last() =~= energies@.take(i - 1));
        i -= 1;
    }
    energies.len() - i
}

} // verus!
