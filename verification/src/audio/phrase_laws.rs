//! What holds of every stream that is cut into phrases.

use vstd::prelude::*;

use crate::audio::phrase_split::{
    empty_progress, ended, extended, fed, flushed, forced, frames, frames_fit, dropped, larger, params_ok, pending,
    pending_frames_fit, progress_ok, quietest, quietest_exists, run, run_keeps_progress,
    search_start, smaller, step, step_keeps_progress, trailing_silent, voiced_count, Params,
    Progress,
};

verus! {

/// Samples that have not formed a frame yet change nothing about the frame before them.
proof fn step_ignores_later_samples(p: Params, s: Progress, t: Seq<i16>, energy: u64)
    requires
        params_ok(p),
        progress_ok(p, s),
        pending(p, s) > 0,
    ensures
        step(p, extended(s, t), energy) == (
            extended(step(p, s, energy).0, t),
            step(p, s, energy).1,
        ),
{
    pending_frames_fit(p, s);
    let i = s.energies.len() as int;
    let size = s.buffer.len() as int;
    let silent = energy < p.threshold;
    let heard = Progress { energies: s.energies.push(energy), ..s };
    let longer = Progress { energies: s.energies.push(energy), ..extended(s, t) };
    assert(longer == extended(heard, t));
    if !s.in_phrase && silent {
        dropping_commutes(p, heard, t, larger(i + 1 - p.pad, 0));
    } else if !s.in_phrase {
    } else if silent && s.trailing + 1 >= p.split_silence {
        let a = Progress { trailing: s.trailing + 1, ..heard };
        let b = Progress { trailing: s.trailing + 1, ..longer };
        assert(b == extended(a, t));
        let speech_end = a.energies.len() - a.trailing;
        let end_frame = smaller(speech_end + p.pad, a.energies.len() as int);
        let keep_from = larger(a.energies.len() - p.pad, speech_end);
        let closed = Progress { in_phrase: false, speech: 0, trailing: 0, ..a };
        dropping_commutes(p, closed, t, keep_from);
        same_frames(p, a, t, a.emit_start, end_frame);
        assert(ended(p, b).0 == extended(ended(p, a).0, t));
    } else {
        let a = if silent {
            Progress { trailing: s.trailing + 1, ..heard }
        } else {
            Progress { speech: s.speech + 1, trailing: 0, ..heard }
        };
        let b = extended(a, t);
        if i + 1 - s.phrase_start >= p.max_phrase {
            let from = search_start(p, a);
            quietest_exists(a.energies, from);
            let at = quietest(a.energies, from);
            dropping_commutes(p, a, t, at);
            same_frames(p, a, t, a.emit_start, at);
            assert(forced(p, b).0 == extended(forced(p, a).0, t));
        }
    }
}

proof fn same_frames(p: Params, s: Progress, t: Seq<i16>, from: int, to: int)
    requires
        params_ok(p),
        0 <= from <= to <= s.energies.len(),
        s.energies.len() * p.frame_len <= s.buffer.len(),
    ensures
        frames(p, extended(s, t), from, to) == frames(p, s, from, to),
{
    frames_fit(to, s.energies.len() as int, p.frame_len, s.buffer.len() as int);
    frames_fit(from, to, p.frame_len, s.buffer.len() as int);
    assert(frames(p, extended(s, t), from, to) =~= frames(p, s, from, to));
}

proof fn dropping_commutes(p: Params, s: Progress, t: Seq<i16>, n: int)
    requires
        params_ok(p),
        0 <= n <= s.energies.len(),
        s.energies.len() * p.frame_len <= s.buffer.len(),
    ensures
        dropped(p, extended(s, t), n) == extended(dropped(p, s, n), t),
{
    frames_fit(n, s.energies.len() as int, p.frame_len, s.buffer.len() as int);
    assert((s.buffer + t).skip(n * p.frame_len) =~= s.buffer.skip(n * p.frame_len) + t);
}

proof fn run_ignores_later_samples(p: Params, s: Progress, t: Seq<i16>, energies: Seq<u64>)
    requires
        params_ok(p),
        progress_ok(p, s),
        energies.len() <= pending(p, s),
    ensures
        run(p, extended(s, t), energies) == (
            extended(run(p, s, energies).0, t),
            run(p, s, energies).1,
        ),
    decreases energies.len(),
{
    if energies.len() > 0 {
        run_ignores_later_samples(p, s, t, energies.drop_last());
        run_keeps_progress(p, s, energies.drop_last());
        step_ignores_later_samples(
            p,
            run(p, s, energies.drop_last()).0,
            t,
            energies.last(),
        );
    }
}

proof fn running_in_parts(p: Params, s: Progress, first: Seq<u64>, second: Seq<u64>)
    ensures
        run(p, s, first + second) == (
            run(p, run(p, s, first).0, second).0,
            run(p, s, first).1 + run(p, run(p, s, first).0, second).1,
        ),
    decreases second.len(),
{
    let middle = run(p, s, first).0;
    if second.len() == 0 {
        assert(first + second =~= first);
        assert(run(p, s, first).1 + run(p, middle, second).1 =~= run(p, s, first).1);
    } else {
        running_in_parts(p, s, first, second.drop_last());
        assert((first + second).drop_last() =~= first + second.drop_last());
        assert((first + second).last() == second.last());
        let (before, phrases) = run(p, middle, second.drop_last());
        match step(p, before, second.last()).1 {
            Some(phrase) => {
                assert((run(p, s, first).1 + phrases).push(phrase) =~= run(p, s, first).1
                    + phrases.push(phrase));
            },
            None => {},
        }
    }
}

/// Feeding a stream in two parts emits the phrases that feeding it at once emits, and
/// leaves the same behind.
pub proof fn feeding_in_parts_is_feeding_at_once(
    p: Params,
    s: Progress,
    a: Seq<i16>,
    b: Seq<i16>,
    energies_a: Seq<u64>,
    energies_b: Seq<u64>,
)
    requires
        params_ok(p),
        progress_ok(p, s),
        energies_a.len() == pending(p, extended(s, a)),
    ensures
        fed(p, s, a + b, energies_a + energies_b) == (
            fed(p, fed(p, s, a, energies_a).0, b, energies_b).0,
            fed(p, s, a, energies_a).1 + fed(p, fed(p, s, a, energies_a).0, b, energies_b).1,
        ),
{
    let once = extended(s, a + b);
    assert(once == extended(extended(s, a), b)) by {
        assert(s.buffer + (a + b) =~= (s.buffer + a) + b);
    }
    running_in_parts(p, once, energies_a, energies_b);
    run_ignores_later_samples(p, extended(s, a), b, energies_a);
}

/// The samples that no frame heard so far holds.
pub open spec fn unheard(p: Params, s: Progress) -> Seq<i16> {
    s.buffer.skip(s.energies.len() * p.frame_len)
}

/// The whole frames that are waiting to be heard.
pub open spec fn waiting(p: Params, s: Progress) -> Seq<Seq<i16>> {
    Seq::new(
        pending(p, s) as nat,
        |k: int| frames(p, s, s.energies.len() + k, s.energies.len() + k + 1),
    )
}

/// What feeding samples does where the energy of every frame that they complete is measured.
pub open spec fn heard(
    p: Params,
    s: Progress,
    samples: Seq<i16>,
    measure: spec_fn(Seq<i16>) -> u64,
) -> (Progress, Seq<Seq<i16>>) {
    fed(p, s, samples, waiting(p, extended(s, samples)).map_values(measure))
}

/// What feeding chunks one after the other does.
pub open spec fn heard_in_chunks(
    p: Params,
    s: Progress,
    chunks: Seq<Seq<i16>>,
    measure: spec_fn(Seq<i16>) -> u64,
) -> (Progress, Seq<Seq<i16>>)
    decreases chunks.len(),
{
    if chunks.len() == 0 {
        (s, Seq::empty())
    } else {
        let (before, phrases) = heard_in_chunks(p, s, chunks.drop_last(), measure);
        let (after, more) = heard(p, before, chunks.last(), measure);
        (after, phrases + more)
    }
}

/// All that a stream yields once it has ended: the phrases emitted on the way, and the one
/// under way at the end.
pub open spec fn yielded(p: Params, outcome: (Progress, Seq<Seq<i16>>)) -> Seq<Seq<i16>> {
    match flushed(p, outcome.0) {
        Some(last) => outcome.1.push(last),
        None => outcome.1,
    }
}

/// However a stream is cut into chunks, feeding them one after the other emits the phrases
/// that feeding the stream at once emits, leaves the same behind, and so yields the same
/// once the stream is flushed; and this whatever the measure of a frame's energy is.
pub proof fn feeding_in_chunks_is_feeding_at_once(
    p: Params,
    s: Progress,
    chunks: Seq<Seq<i16>>,
    measure: spec_fn(Seq<i16>) -> u64,
)
    requires
        params_ok(p),
        progress_ok(p, s),
        pending(p, s) == 0,
    ensures
        heard_in_chunks(p, s, chunks, measure) == heard(p, s, chunks.flatten(), measure),
        yielded(p, heard_in_chunks(p, s, chunks, measure)) == yielded(
            p,
            heard(p, s, chunks.flatten(), measure),
        ),
{
    chunks.lemma_flatten_and_flatten_alt_are_equivalent();
    chunks_fold(p, s, chunks, measure);
}

proof fn chunks_fold(
    p: Params,
    s: Progress,
    chunks: Seq<Seq<i16>>,
    measure: spec_fn(Seq<i16>) -> u64,
)
    requires
        params_ok(p),
        progress_ok(p, s),
        pending(p, s) == 0,
    ensures
        heard_in_chunks(p, s, chunks, measure) == heard(p, s, chunks.flatten_alt(), measure),
    decreases chunks.len(),
{
    if chunks.len() == 0 {
        assert(s.buffer + Seq::<i16>::empty() =~= s.buffer);
        assert(waiting(p, s).map_values(measure) =~= Seq::<u64>::empty());
    } else {
        let a = chunks.drop_last().flatten_alt();
        let b = chunks.last();
        chunks_fold(p, s, chunks.drop_last(), measure);
        hearing_in_parts(p, s, a, b, measure);
    }
}

proof fn hearing_in_parts(
    p: Params,
    s: Progress,
    a: Seq<i16>,
    b: Seq<i16>,
    measure: spec_fn(Seq<i16>) -> u64,
)
    requires
        params_ok(p),
        progress_ok(p, s),
        pending(p, s) == 0,
    ensures
        heard(p, s, a + b, measure) == (
            heard(p, heard(p, s, a, measure).0, b, measure).0,
            heard(p, s, a, measure).1 + heard(p, heard(p, s, a, measure).0, b, measure).1,
        ),
{
    let first = extended(s, a);
    let once = extended(s, a + b);
    let energies_a = waiting(p, first).map_values(measure);
    assert(once == extended(first, b)) by {
        assert(s.buffer + (a + b) =~= (s.buffer + a) + b);
    }
    more_samples_more_pending(p, s, a);
    more_samples_more_pending(p, first, b);
    let middle = run(p, first, energies_a).0;
    run_keeps_progress(p, first, energies_a);
    run_keeps_progress(p, once, energies_a);
    run_ignores_later_samples(p, first, b, energies_a);
    let second = extended(middle, b);
    let energies_b = waiting(p, second).map_values(measure);
    run_leaves_unheard(p, once, energies_a);
    assert(energies_a + energies_b =~= waiting(p, once).map_values(measure)) by {
        let n = energies_a.len() as int;
        assert forall|k: int| 0 <= k < pending(p, once) implies #[trigger] waiting(p, once)[k]
            == (if k < n {
            waiting(p, first)[k]
        } else {
            waiting(p, second)[k - n]
        }) by {
            if k < n {
                same_waiting_frame(p, first, b, k);
            } else {
                later_waiting_frame(p, once, second, n, k - n);
            }
        }
    }
    feeding_in_parts_is_feeding_at_once(p, s, a, b, energies_a, energies_b);
}

/// A frame that is waiting stays the same when more samples come.
proof fn same_waiting_frame(p: Params, s: Progress, t: Seq<i16>, k: int)
    requires
        params_ok(p),
        0 <= k < pending(p, s),
    ensures
        frames(p, extended(s, t), s.energies.len() + k, s.energies.len() + k + 1) == frames(
            p,
            s,
            s.energies.len() + k,
            s.energies.len() + k + 1,
        ),
{
    waiting_frames_fit(p, s, k);
    let n = s.energies.len() + k;
    assert(0 <= n * p.frame_len <= (n + 1) * p.frame_len) by (nonlinear_arith)
        requires
            n >= 0,
            p.frame_len >= 1,
    ;
    assert(frames(p, extended(s, t), n, n + 1) =~= frames(p, s, n, n + 1));
}

proof fn waiting_frames_fit(p: Params, s: Progress, k: int)
    requires
        params_ok(p),
        0 <= k < pending(p, s),
    ensures
        (s.energies.len() + k + 1) * p.frame_len <= s.buffer.len(),
{
    let b = s.buffer.len() as int;
    vstd::arithmetic::div_mod::lemma_fundamental_div_mod(b, p.frame_len);
    let q = b / p.frame_len;
    assert((s.energies.len() + k + 1) * p.frame_len <= q * p.frame_len) by (nonlinear_arith)
        requires
            s.energies.len() + k + 1 <= q,
            p.frame_len >= 1,
    ;
    assert(p.frame_len * q == q * p.frame_len) by (nonlinear_arith);
}

/// A frame that waits behind others is the same once those were heard.
proof fn later_waiting_frame(p: Params, s: Progress, later: Progress, n: int, k: int)
    requires
        params_ok(p),
        0 <= n,
        0 <= k < pending(p, later),
        n + k < pending(p, s),
        unheard(p, later) == unheard(p, s).skip(n * p.frame_len),
        s.energies.len() * p.frame_len <= s.buffer.len(),
        later.energies.len() * p.frame_len <= later.buffer.len(),
    ensures
        frames(p, s, s.energies.len() + (n + k), s.energies.len() + (n + k) + 1) == frames(
            p,
            later,
            later.energies.len() + k,
            later.energies.len() + k + 1,
        ),
{
    waiting_frames_fit(p, s, n + k);
    waiting_frames_fit(p, later, k);
    let f = p.frame_len;
    let m = s.energies.len() as int;
    let l = later.energies.len() as int;
    assert((m + (n + k)) * f == m * f + n * f + k * f) by (nonlinear_arith);
    assert((m + (n + k) + 1) * f == m * f + n * f + k * f + f) by (nonlinear_arith);
    assert((l + k) * f == l * f + k * f) by (nonlinear_arith);
    assert((l + k + 1) * f == l * f + k * f + f) by (nonlinear_arith);
    assert(0 <= m * f && 0 <= l * f && 0 <= n * f && 0 <= k * f) by (nonlinear_arith)
        requires
            m >= 0,
            l >= 0,
            n >= 0,
            k >= 0,
            f >= 1,
    ;
    let x = frames(p, s, m + (n + k), m + (n + k) + 1);
    let y = frames(p, later, l + k, l + k + 1);
    assert forall|i: int| 0 <= i < f implies #[trigger] x[i] == y[i] by {
        assert(x[i] == unheard(p, s).skip(n * f)[k * f + i]);
        assert(y[i] == unheard(p, later)[k * f + i]);
    }
    assert(x =~= y);
}

proof fn run_leaves_unheard(p: Params, s: Progress, energies: Seq<u64>)
    requires
        params_ok(p),
        progress_ok(p, s),
        energies.len() <= pending(p, s),
    ensures
        unheard(p, run(p, s, energies).0) == unheard(p, s).skip(energies.len() * p.frame_len),
    decreases energies.len(),
{
    let f = p.frame_len;
    if energies.len() == 0 {
        assert(0 * f == 0);
        assert(unheard(p, s).skip(0) =~= unheard(p, s));
    } else {
        let rest = energies.drop_last();
        let n = rest.len() as int;
        run_leaves_unheard(p, s, rest);
        run_keeps_progress(p, s, rest);
        let before = run(p, s, rest).0;
        step_leaves_unheard(p, before, energies.last());
        assert((n + 1) * f == n * f + f) by (nonlinear_arith);
        assert(0 <= n * f) by (nonlinear_arith)
            requires
                n >= 0,
                f >= 1,
        ;
        waiting_frames_fit(p, s, n);
        let m = s.energies.len() as int;
        assert((m + n + 1) * f == m * f + n * f + f) by (nonlinear_arith);
        assert(unheard(p, s).skip(n * f).skip(f) =~= unheard(p, s).skip((n + 1) * f));
    }
}

proof fn step_leaves_unheard(p: Params, s: Progress, energy: u64)
    requires
        params_ok(p),
        progress_ok(p, s),
        pending(p, s) > 0,
    ensures
        unheard(p, step(p, s, energy).0) == unheard(p, s).skip(p.frame_len),
{
    pending_frames_fit(p, s);
    let i = s.energies.len() as int;
    let silent = energy < p.threshold;
    let heard_it = Progress { energies: s.energies.push(energy), ..s };
    assert(unheard(p, heard_it) =~= unheard(p, s).skip(p.frame_len)) by {
        assert((i + 1) * p.frame_len == i * p.frame_len + p.frame_len) by (nonlinear_arith);
        assert(0 <= i * p.frame_len) by (nonlinear_arith)
            requires
                i >= 0,
                p.frame_len >= 1,
        ;
    }
    if !s.in_phrase && silent {
        dropping_leaves_unheard(p, heard_it, larger(i + 1 - p.pad, 0));
    } else if !s.in_phrase {
    } else if silent && s.trailing + 1 >= p.split_silence {
        let t = Progress { trailing: s.trailing + 1, ..heard_it };
        let speech_end = t.energies.len() - t.trailing;
        let keep_from = larger(t.energies.len() - p.pad, speech_end);
        dropping_leaves_unheard(
            p,
            Progress { in_phrase: false, speech: 0, trailing: 0, ..t },
            keep_from,
        );
    } else {
        let counted = if silent {
            Progress { trailing: s.trailing + 1, ..heard_it }
        } else {
            Progress { speech: s.speech + 1, trailing: 0, ..heard_it }
        };
        if i + 1 - s.phrase_start >= p.max_phrase {
            let from = search_start(p, counted);
            quietest_exists(counted.energies, from);
            dropping_leaves_unheard(p, counted, quietest(counted.energies, from));
        }
    }
}

proof fn dropping_leaves_unheard(p: Params, s: Progress, n: int)
    requires
        params_ok(p),
        0 <= n <= s.energies.len(),
        s.energies.len() * p.frame_len <= s.buffer.len(),
    ensures
        unheard(p, dropped(p, s, n)) == unheard(p, s),
{
    let m = s.energies.len() as int;
    frames_fit(n, m, p.frame_len, s.buffer.len() as int);
    assert(unheard(p, dropped(p, s, n)) =~= unheard(p, s));
}

proof fn more_samples_more_pending(p: Params, s: Progress, t: Seq<i16>)
    requires
        params_ok(p),
        progress_ok(p, s),
    ensures
        progress_ok(p, extended(s, t)),
        pending(p, s) <= pending(p, extended(s, t)),
{
    vstd::arithmetic::div_mod::lemma_div_is_ordered(
        s.buffer.len() as int,
        extended(s, t).buffer.len() as int,
        p.frame_len,
    );
}

/// What is held stays bounded however long the stream runs: between two frames no more
/// than the padding and the longest phrase, and outside a phrase no more than the padding;
/// less than one further frame is waiting to be complete.
pub proof fn held_samples_stay_bounded(p: Params, s: Progress)
    requires
        params_ok(p),
        progress_ok(p, s),
        pending(p, s) == 0,
    ensures
        s.buffer.len() < (p.pad + p.max_phrase) * p.frame_len,
        !s.in_phrase ==> s.buffer.len() < (p.pad + 1) * p.frame_len,
{
    let b = s.buffer.len() as int;
    let n = s.energies.len() as int;
    vstd::arithmetic::div_mod::lemma_fundamental_div_mod(b, p.frame_len);
    assert(b < (n + 1) * p.frame_len) by {
        assert(p.frame_len * n + p.frame_len == (n + 1) * p.frame_len) by (nonlinear_arith);
    }
    assert(n + 1 <= p.pad + p.max_phrase);
    assert((n + 1) * p.frame_len <= (p.pad + p.max_phrase) * p.frame_len) by (nonlinear_arith)
        requires
            n + 1 <= p.pad + p.max_phrase,
            p.frame_len >= 1,
    ;
    if !s.in_phrase {
        assert((n + 1) * p.frame_len <= (p.pad + 1) * p.frame_len) by (nonlinear_arith)
            requires
                n + 1 <= p.pad + 1,
                p.frame_len >= 1,
        ;
    }
}

/// Silence yields no phrase, however long it lasts.
pub proof fn silence_yields_nothing(p: Params, s: Progress, energies: Seq<u64>)
    requires
        params_ok(p),
        !s.in_phrase,
        forall|i: int| 0 <= i < energies.len() ==> #[trigger] energies[i] < p.threshold,
    ensures
        run(p, s, energies).1.len() == 0,
        !run(p, s, energies).0.in_phrase,
        flushed(p, run(p, s, energies).0) is None,
    decreases energies.len(),
{
    if energies.len() > 0 {
        assert forall|i: int| 0 <= i < energies.drop_last().len() implies #[trigger] energies.drop_last()[i]
            < p.threshold by {
            assert(energies[i] < p.threshold);
        }
        silence_yields_nothing(p, s, energies.drop_last());
        assert(energies[energies.len() - 1] < p.threshold);
    }
}

/// Phrases one after another.
pub open spec fn joined(phrases: Seq<Seq<i16>>) -> Seq<i16>
    decreases phrases.len(),
{
    if phrases.len() == 0 {
        Seq::empty()
    } else {
        joined(phrases.drop_last()) + phrases.last()
    }
}

/// Every frame is voiced.
pub open spec fn all_voiced(energies: Seq<u64>, threshold: u64) -> bool {
    forall|i: int| 0 <= i < energies.len() ==> #[trigger] energies[i] >= threshold
}

proof fn voiced_counts(energies: Seq<u64>, threshold: u64)
    requires
        all_voiced(energies, threshold),
    ensures
        voiced_count(energies, threshold) == energies.len(),
        trailing_silent(energies, threshold) == 0,
    decreases energies.len(),
{
    if energies.len() > 0 {
        assert forall|i: int| 0 <= i < energies.drop_last().len() implies #[trigger] energies.drop_last()[i]
            >= threshold by {
            assert(energies[i] >= threshold);
        }
        voiced_counts(energies.drop_last(), threshold);
        assert(energies[energies.len() - 1] >= threshold);
    }
}

/// Speech without a pause is neither lost nor doubled: the phrases emitted and what is
/// still held make up the stream, and the end of the stream emits what is held if that is
/// speech enough.
pub proof fn continuous_speech_is_kept(p: Params, s: Progress, energies: Seq<u64>)
    requires
        params_ok(p),
        !s.in_phrase,
        s.energies.len() == 0,
        energies.len() <= pending(p, s),
        all_voiced(energies, p.threshold),
    ensures
        joined(run(p, s, energies).1) + run(p, s, energies).0.buffer == s.buffer,
        flushed(p, run(p, s, energies).0) matches Some(last) ==> joined(run(p, s, energies).1)
            + last == s.buffer,
        energies.len() >= 1 && run(p, s, energies).0.energies.len() >= p.min_speech ==> flushed(
            p,
            run(p, s, energies).0,
        ) is Some,
{
    continuous_speech_state(p, s, energies);
    let last = run(p, s, energies).0;
    if energies.len() > 0 {
        assert(0 * p.frame_len == 0);
        assert(last.buffer.skip(0) =~= last.buffer);
    }
}

proof fn continuous_speech_state(p: Params, s: Progress, energies: Seq<u64>)
    requires
        params_ok(p),
        !s.in_phrase,
        s.energies.len() == 0,
        energies.len() <= pending(p, s),
        all_voiced(energies, p.threshold),
    ensures
        joined(run(p, s, energies).1) + run(p, s, energies).0.buffer == s.buffer,
        energies.len() == 0 ==> run(p, s, energies).0 == s,
        energies.len() > 0 ==> {
            let t = run(p, s, energies).0;
            &&& t.in_phrase
            &&& t.emit_start == 0
            &&& t.phrase_start == 0
            &&& t.trailing == 0
            &&& t.speech == t.energies.len()
            &&& all_voiced(t.energies, p.threshold)
        },
    decreases energies.len(),
{
    assert(progress_ok(p, s)) by {
        assert(0 * p.frame_len == 0);
    }
    if energies.len() == 0 {
        assert(joined(Seq::<Seq<i16>>::empty()) + s.buffer =~= s.buffer);
    } else {
        assert forall|i: int| 0 <= i < energies.drop_last().len() implies #[trigger] energies.drop_last()[i]
            >= p.threshold by {
            assert(energies[i] >= p.threshold);
        }
        let energy = energies.last();
        assert(energies[energies.len() - 1] >= p.threshold);
        continuous_speech_state(p, s, energies.drop_last());
        run_keeps_progress(p, s, energies.drop_last());
        let (before, phrases) = run(p, s, energies.drop_last());
        step_keeps_progress(p, before, energy);
        pending_frames_fit(p, before);
        let i = before.energies.len() as int;
        let heard = Progress { energies: before.energies.push(energy), ..before };
        assert(all_voiced(heard.energies, p.threshold)) by {
            assert forall|k: int| 0 <= k < heard.energies.len() implies #[trigger] heard.energies[k]
                >= p.threshold by {
                if k < i {
                    assert(before.energies[k] >= p.threshold);
                }
            }
        }
        if before.in_phrase {
            let counted = Progress { speech: before.speech + 1, trailing: 0, ..heard };
            if i + 1 - before.phrase_start >= p.max_phrase {
                let from = search_start(p, counted);
                quietest_exists(counted.energies, from);
                let at = quietest(counted.energies, from);
                let rest = counted.energies.skip(at);
                assert(all_voiced(rest, p.threshold)) by {
                    assert forall|k: int| 0 <= k < rest.len() implies #[trigger] rest[k]
                        >= p.threshold by {
                        assert(counted.energies[at + k] >= p.threshold);
                    }
                }
                voiced_counts(rest, p.threshold);
                let phrase = frames(p, counted, 0, at);
                frames_fit(at, i + 1, p.frame_len, before.buffer.len() as int);
                assert(0 * p.frame_len == 0);
                assert(phrase =~= before.buffer.take(at * p.frame_len));
                assert(phrases.push(phrase).drop_last() =~= phrases);
                assert(joined(phrases.push(phrase)) == joined(phrases) + phrase);
                assert((joined(phrases) + phrase) + before.buffer.skip(at * p.frame_len)
                    =~= joined(phrases) + before.buffer);
            }
        }
    }
}

// ---------------------------------------------------------------------------
// What is counted is what was heard
// ---------------------------------------------------------------------------

/// A frame of this energy is silent.
pub open spec fn quiet(p: Params, energy: u64) -> bool {
    energy < p.threshold
}

/// The lesser of two numbers.
pub open spec fn least(a: int, b: int) -> int {
    if a <= b {
        a
    } else {
        b
    }
}

/// A stretch of frames is silent throughout.
pub open spec fn all_quiet(p: Params, energies: Seq<u64>, from: int, to: int) -> bool {
    forall|k: int| from <= k < to ==> quiet(p, #[trigger] energies[k])
}

/// How many of the frames are voiced.
pub open spec fn voiced_among(p: Params, energies: Seq<u64>) -> nat {
    energies.filter(|energy: u64| energy >= p.threshold).len()
}

/// What is held agrees with the stream that was heard: it is the end of the stream, from a
/// frame on; outside a phrase every frame held is silent; and inside one the counts are those
/// of the frames held, which are all to be emitted.
pub open spec fn agrees(p: Params, s: Progress, samples: Seq<i16>, energies: Seq<u64>) -> bool {
    let dropped_frames = energies.len() - s.energies.len();
    let n = s.energies.len() as int;
    &&& 0 <= dropped_frames
    &&& dropped_frames * p.frame_len <= samples.len()
    &&& s.energies == energies.skip(dropped_frames)
    &&& s.buffer == samples.skip(dropped_frames * p.frame_len)
    &&& !s.in_phrase ==> all_quiet(p, s.energies, 0, n)
    &&& s.in_phrase ==> {
        &&& s.emit_start == 0
        &&& all_quiet(p, s.energies, 0, s.phrase_start)
        &&& 0 <= s.trailing <= n
        &&& all_quiet(p, s.energies, n - s.trailing, n)
        &&& s.trailing < n ==> !quiet(p, s.energies[n - s.trailing - 1])
        &&& s.speech == voiced_among(p, s.energies)
    }
}

proof fn voiced_count_is_counted(p: Params, energies: Seq<u64>)
    ensures
        voiced_count(energies, p.threshold) == voiced_among(p, energies),
    decreases energies.len(),
{
    reveal(Seq::filter);
    if energies.len() > 0 {
        voiced_count_is_counted(p, energies.drop_last());
    }
}

proof fn trailing_silent_is_maximal(p: Params, energies: Seq<u64>)
    ensures
        ({
            let n = energies.len() as int;
            let t = trailing_silent(energies, p.threshold);
            &&& 0 <= t <= n
            &&& all_quiet(p, energies, n - t, n)
            &&& t < n ==> !quiet(p, energies[n - t - 1])
        }),
    decreases energies.len(),
{
    if energies.len() > 0 && energies.last() < p.threshold {
        let rest = energies.drop_last();
        trailing_silent_is_maximal(p, rest);
        let n = energies.len() as int;
        let t = trailing_silent(energies, p.threshold);
        assert forall|k: int| n - t <= k < n implies quiet(p, #[trigger] energies[k]) by {
            if k < n - 1 {
                assert(rest[k] == energies[k]);
            }
        }
        if t < n {
            assert(rest[n - t - 1] == energies[n - t - 1]);
        }
    }
}

proof fn quiet_frames_have_no_voice(p: Params, energies: Seq<u64>)
    requires
        all_quiet(p, energies, 0, energies.len() as int),
    ensures
        voiced_among(p, energies) == 0,
    decreases energies.len(),
{
    reveal(Seq::filter);
    if energies.len() > 0 {
        let rest = energies.drop_last();
        assert forall|k: int| 0 <= k < rest.len() implies quiet(p, #[trigger] rest[k]) by {
            assert(quiet(p, energies[k]));
        }
        quiet_frames_have_no_voice(p, rest);
        assert(quiet(p, energies[energies.len() - 1]));
    }
}

proof fn one_more_counted(p: Params, energies: Seq<u64>, energy: u64)
    ensures
        voiced_among(p, energies.push(energy)) == voiced_among(p, energies) + if energy
            >= p.threshold {
            1nat
        } else {
            0nat
        },
{
    reveal(Seq::filter);
    assert(energies.push(energy).drop_last() =~= energies);
}

proof fn dropping_agrees(p: Params, s: Progress, samples: Seq<i16>, energies: Seq<u64>, n: int)
    requires
        params_ok(p),
        0 <= n <= s.energies.len() <= energies.len(),
        (energies.len() - s.energies.len()) * p.frame_len <= samples.len(),
        s.energies == energies.skip(energies.len() - s.energies.len()),
        s.buffer == samples.skip((energies.len() - s.energies.len()) * p.frame_len),
        s.energies.len() * p.frame_len <= s.buffer.len(),
    ensures
        ({
            let t = dropped(p, s, n);
            let d = energies.len() - t.energies.len();
            &&& t.energies.len() == s.energies.len() - n
            &&& 0 <= d
            &&& d * p.frame_len <= samples.len()
            &&& t.energies == energies.skip(d)
            &&& t.buffer == samples.skip(d * p.frame_len)
            &&& forall|k: int| 0 <= k < t.energies.len() ==> #[trigger] t.energies[k]
                == s.energies[k + n]
        }),
{
    let e = energies.len() - s.energies.len();
    let f = p.frame_len;
    frames_fit(n, s.energies.len() as int, f, s.buffer.len() as int);
    assert((e + n) * f == e * f + n * f) by (nonlinear_arith);
    assert(0 <= e * f) by (nonlinear_arith)
        requires
            e >= 0,
            f >= 1,
    ;
    assert(s.energies.skip(n) =~= energies.skip(e + n));
    assert(s.buffer.skip(n * f) =~= samples.skip((e + n) * f));
}

/// Every frame keeps what is held in agreement with the stream.
proof fn step_agrees(p: Params, s: Progress, samples: Seq<i16>, energies: Seq<u64>, energy: u64)
    requires
        params_ok(p),
        progress_ok(p, s),
        pending(p, s) > 0,
        agrees(p, s, samples, energies),
    ensures
        agrees(p, step(p, s, energy).0, samples, energies.push(energy)),
{
    pending_frames_fit(p, s);
    let i = s.energies.len() as int;
    let n = i + 1;
    let all = energies.push(energy);
    let silent = energy < p.threshold;
    let heard_it = Progress { energies: s.energies.push(energy), ..s };
    let e = energies.len() - s.energies.len();
    assert(heard_it.energies =~= all.skip(e));
    one_more_counted(p, s.energies, energy);
    assert forall|k: int| 0 <= k < i implies heard_it.energies[k] == s.energies[k] by {}
    if !s.in_phrase && silent {
        assert(all_quiet(p, heard_it.energies, 0, n)) by {
            assert forall|k: int| 0 <= k < n implies quiet(p, #[trigger] heard_it.energies[k]) by {
                if k < i {
                    assert(quiet(p, s.energies[k]));
                }
            }
        }
        let m = larger(i + 1 - p.pad, 0);
        dropping_agrees(p, heard_it, samples, all, m);
        let t = dropped(p, heard_it, m);
        assert forall|k: int| 0 <= k < t.energies.len() implies quiet(
            p,
            #[trigger] t.energies[k],
        ) by {
            assert(t.energies[k] == heard_it.energies[k + m]);
        }
    } else if !s.in_phrase {
        quiet_frames_have_no_voice(p, s.energies);
        let t = step(p, s, energy).0;
        assert forall|k: int| 0 <= k < i implies quiet(p, #[trigger] t.energies[k]) by {
            assert(quiet(p, s.energies[k]));
        }
        assert(t.energies[n - 1] == energy);
    } else {
        let counted = if silent {
            Progress { trailing: s.trailing + 1, ..heard_it }
        } else {
            Progress { speech: s.speech + 1, trailing: 0, ..heard_it }
        };
        assert forall|k: int| n - counted.trailing <= k < n implies quiet(
            p,
            #[trigger] counted.energies[k],
        ) by {
            if k < i {
                assert(quiet(p, s.energies[k]));
            }
        }
        if counted.trailing < n {
            if silent {
                assert(counted.energies[n - counted.trailing - 1] == s.energies[i - s.trailing - 1]);
            }
        }
        assert forall|k: int| 0 <= k < counted.phrase_start implies quiet(
            p,
            #[trigger] counted.energies[k],
        ) by {
            assert(quiet(p, s.energies[k]));
        }
        if silent && s.trailing + 1 >= p.split_silence {
            let speech_end = counted.energies.len() - counted.trailing;
            let keep_from = larger(counted.energies.len() - p.pad, speech_end);
            let closed = Progress { in_phrase: false, speech: 0, trailing: 0, ..counted };
            dropping_agrees(p, closed, samples, all, keep_from);
            let t = dropped(p, closed, keep_from);
            assert forall|k: int| 0 <= k < t.energies.len() implies quiet(
                p,
                #[trigger] t.energies[k],
            ) by {
                assert(t.energies[k] == counted.energies[k + keep_from]);
            }
        } else if i + 1 - s.phrase_start >= p.max_phrase {
            let from = search_start(p, counted);
            quietest_exists(counted.energies, from);
            let at = quietest(counted.energies, from);
            dropping_agrees(p, counted, samples, all, at);
            voiced_count_is_counted(p, counted.energies.skip(at));
            trailing_silent_is_maximal(p, counted.energies.skip(at));
        }
    }
}

/// What a splitter holds after any stream agrees with that stream: it is the stream's end;
/// the silence counted is all the silence that the frames held end in, and no more; and the
/// speech counted is the number of voiced frames held.
pub proof fn what_is_counted_was_heard(p: Params, samples: Seq<i16>, energies: Seq<u64>)
    requires
        params_ok(p),
        energies.len() * p.frame_len <= samples.len(),
    ensures
        progress_ok(p, reached(p, samples, energies)),
        pending(p, reached(p, samples, energies)) == samples.len() as int / p.frame_len
            - energies.len(),
        agrees(p, reached(p, samples, energies), samples, energies),
    decreases energies.len(),
{
    let start = extended(empty_progress(), samples);
    assert(start.buffer =~= samples);
    enough_pending(p, samples, energies.len() as int);
    run_keeps_progress(p, start, energies);
    if energies.len() == 0 {
        assert(start.energies =~= energies.skip(0));
        assert(0 * p.frame_len == 0);
        assert(samples.skip(0) =~= samples);
    } else {
        let rest = energies.drop_last();
        assert(rest.len() * p.frame_len <= energies.len() * p.frame_len) by (nonlinear_arith)
            requires
                rest.len() + 1 == energies.len(),
                p.frame_len >= 1,
        ;
        what_is_counted_was_heard(p, samples, rest);
        step_agrees(p, reached(p, samples, rest), samples, rest, energies.last());
        assert(rest.push(energies.last()) =~= energies);
    }
}

/// What a new splitter holds once the frames of these energies were heard.
pub open spec fn reached(p: Params, samples: Seq<i16>, energies: Seq<u64>) -> Progress {
    run(p, extended(empty_progress(), samples), energies).0
}

/// The phrases that a new splitter has emitted once the frames of these energies were heard.
pub open spec fn emitted(p: Params, samples: Seq<i16>, energies: Seq<u64>) -> Seq<Seq<i16>> {
    run(p, extended(empty_progress(), samples), energies).1
}

proof fn enough_pending(p: Params, samples: Seq<i16>, n: int)
    requires
        params_ok(p),
        0 <= n,
        n * p.frame_len <= samples.len(),
    ensures
        n <= samples.len() as int / p.frame_len,
        progress_ok(p, extended(empty_progress(), samples)),
{
    let b = samples.len() as int;
    vstd::arithmetic::div_mod::lemma_fundamental_div_mod(b, p.frame_len);
    let q = b / p.frame_len;
    assert(p.frame_len * q == q * p.frame_len) by (nonlinear_arith);
    if n > q {
        assert((q + 1) * p.frame_len <= n * p.frame_len) by (nonlinear_arith)
            requires
                q + 1 <= n,
                p.frame_len >= 1,
        ;
        assert((q + 1) * p.frame_len == q * p.frame_len + p.frame_len) by (nonlinear_arith);
    }
    assert(0 * p.frame_len == 0);
}

/// The samples of the frames `from` to `to` of a stream.
pub open spec fn stretch(p: Params, samples: Seq<i16>, from: int, to: int) -> Seq<i16> {
    samples.subrange(from * p.frame_len, to * p.frame_len)
}

/// What the last frame of a stream makes a splitter do to the phrase that is under way, told
/// of the stream alone. `first` is the frame that the phrase starts with, padding included.
///
/// Where the stream then ends in as much silence as ends a phrase, the phrase ends: its
/// frames up to the last voiced one and the padding behind it are emitted if there is enough
/// speech among them, and nothing otherwise. Where the phrase has reached its greatest length
/// it is split before the quietest of its newest frames. Otherwise it goes on.
pub proof fn a_phrase_ends_at_silence_or_its_length(
    p: Params,
    samples: Seq<i16>,
    energies: Seq<u64>,
)
    requires
        params_ok(p),
        energies.len() > 0,
        energies.len() * p.frame_len <= samples.len(),
        reached(p, samples, energies.drop_last()).in_phrase,
    ensures
        ({
            let before = reached(p, samples, energies.drop_last());
            let after = reached(p, samples, energies);
            let n = energies.len() as int;
            let first = n - 1 - before.energies.len();
            let phrases = emitted(p, samples, energies);
            let earlier = emitted(p, samples, energies.drop_last());
            let held = energies.skip(first);
            &&& 0 <= first < n - 1
            &&& after.in_phrase && phrases == earlier ==> {
                &&& after.energies == held
                &&& p.split_silence <= held.len() ==> !all_quiet(
                    p,
                    energies,
                    n - p.split_silence,
                    n,
                )
            }
            &&& !after.in_phrase ==> exists|last: int|
                {
                    &&& first - 1 <= last && last + p.split_silence < n
                    &&& all_quiet(p, energies, last + 1, n)
                    &&& first <= last ==> !quiet(p, energies[last])
                    &&& phrases == if voiced_among(p, held) >= p.min_speech {
                        earlier.push(
                            #[trigger] stretch(p, samples, first, least(last + 1 + p.pad, n)),
                        )
                    } else {
                        earlier
                    }
                }
            &&& after.in_phrase && phrases != earlier ==> exists|at: int|
                {
                    &&& held.len() >= p.max_phrase
                    &&& first + before.phrase_start < at < n
                    &&& n - p.quiet_search <= at
                    &&& forall|k: int|
                        n - p.quiet_search <= k < at && first + before.phrase_start < k
                            ==> energies[at] < #[trigger] energies[k]
                    &&& phrases == earlier.push(#[trigger] stretch(p, samples, first, at))
                    &&& after.energies == energies.skip(at)
                    &&& forall|k: int|
                        at <= k < n ==> energies[at] <= #[trigger] energies[k]
                }
            &&& after.in_phrase ==> after.energies.len() < p.max_phrase + p.pad
        }),
{
    let rest = energies.drop_last();
    let energy = energies.last();
    assert(rest.len() * p.frame_len <= energies.len() * p.frame_len) by (nonlinear_arith)
        requires
            rest.len() + 1 == energies.len(),
            p.frame_len >= 1,
    ;
    what_is_counted_was_heard(p, samples, rest);
    what_is_counted_was_heard(p, samples, energies);
    enough_pending(p, samples, energies.len() as int);
    let before = reached(p, samples, rest);
    let after = reached(p, samples, energies);
    let n = energies.len() as int;
    let first = n - 1 - before.energies.len();
    let f = p.frame_len;
    let earlier = emitted(p, samples, rest);
    let phrases = emitted(p, samples, energies);
    let held = energies.skip(first);
    let i = before.energies.len() as int;
    let silent = energy < p.threshold;
    pending_frames_fit(p, before);
    assert(held =~= before.energies.push(energy));
    one_more_counted(p, before.energies, energy);
    let heard_it = Progress { energies: held, ..before };
    let counted = if silent {
        Progress { trailing: before.trailing + 1, ..heard_it }
    } else {
        Progress { speech: before.speech + 1, trailing: 0, ..heard_it }
    };
    assert(earlier.push(stretch(p, samples, first, n)) != earlier) by {
        assert(earlier.push(stretch(p, samples, first, n)).len() == earlier.len() + 1);
    }
    if silent && before.trailing + 1 >= p.split_silence {
        let last = n - 1 - counted.trailing;
        assert(all_quiet(p, energies, last + 1, n)) by {
            assert forall|k: int| last + 1 <= k < n implies quiet(p, #[trigger] energies[k]) by {
                if k < n - 1 {
                    assert(before.energies[k - first] == energies[k]);
                }
            }
        }
        if first <= last {
            assert(before.energies[last - first] == energies[last]);
        }
        let end = least(last + 1 + p.pad, n);
        frames_fit(end - first, i + 1, f, before.buffer.len() as int);
        stretch_is_frames(p, samples, before.buffer, first, 0, end - first);
        if voiced_among(p, held) >= p.min_speech {
            assert(phrases == earlier.push(stretch(p, samples, first, end)));
        } else {
            assert(phrases == earlier);
        }
        assert(stretch(p, samples, first, end) == stretch(p, samples, first, end));
    } else if i + 1 - before.phrase_start >= p.max_phrase {
        let from = search_start(p, counted);
        quietest_exists(counted.energies, from);
        let at = quietest(counted.energies, from);
        frames_fit(at, i + 1, f, before.buffer.len() as int);
        stretch_is_frames(p, samples, before.buffer, first, 0, at);
        assert(phrases == earlier.push(stretch(p, samples, first, first + at)));
        assert(after.energies =~= energies.skip(first + at));
        assert forall|k: int|
            n - p.quiet_search <= k < first + at && first + before.phrase_start < k implies energies[
        first + at] < #[trigger] energies[k] by {
            assert(counted.energies[k - first] == energies[k]);
        }
        assert forall|k: int| first + at <= k < n implies energies[first + at]
            <= #[trigger] energies[k] by {
            assert(counted.energies[k - first] == energies[k]);
        }
    } else {
        assert(phrases == earlier);
        assert(after.energies == held);
        if p.split_silence <= held.len() {
            if all_quiet(p, energies, n - p.split_silence, n) {
                assert(quiet(p, energies[n - 1]));
                assert(before.trailing + 1 < p.split_silence);
                let k = n - 1 - before.trailing - 1;
                assert(quiet(p, energies[k]));
                assert(before.energies[k - first] == energies[k]);
            }
        }
    }
}

proof fn stretch_is_frames(
    p: Params,
    samples: Seq<i16>,
    buffer: Seq<i16>,
    first: int,
    from: int,
    to: int,
)
    requires
        params_ok(p),
        0 <= first,
        0 <= from <= to,
        first * p.frame_len <= samples.len(),
        buffer == samples.skip(first * p.frame_len),
        to * p.frame_len <= buffer.len(),
    ensures
        buffer.subrange(from * p.frame_len, to * p.frame_len) == stretch(
            p,
            samples,
            first + from,
            first + to,
        ),
{
    let f = p.frame_len;
    frames_fit(from, to, f, buffer.len() as int);
    assert((first + from) * f == first * f + from * f) by (nonlinear_arith);
    assert((first + to) * f == first * f + to * f) by (nonlinear_arith);
    assert(0 <= first * f) by (nonlinear_arith)
        requires
            first >= 0,
            f >= 1,
    ;
    assert(buffer.subrange(from * f, to * f) =~= stretch(p, samples, first + from, first + to));
}

/// A phrase starts with the first voiced frame after silence, and takes in the padding before
/// it: as many frames as are held then, which is as many as the padding where the silence
/// lasted that long. Silence outside a phrase is dropped but for the padding, and neither
/// emits anything.
pub proof fn a_phrase_starts_with_speech_and_its_padding(
    p: Params,
    samples: Seq<i16>,
    energies: Seq<u64>,
)
    requires
        params_ok(p),
        energies.len() > 0,
        energies.len() * p.frame_len <= samples.len(),
        !reached(p, samples, energies.drop_last()).in_phrase,
    ensures
        ({
            let before = reached(p, samples, energies.drop_last());
            let after = reached(p, samples, energies);
            &&& after.in_phrase == !quiet(p, energies.last())
            &&& emitted(p, samples, energies) == emitted(p, samples, energies.drop_last())
            &&& after.in_phrase ==> after.energies.len() == before.energies.len() + 1
            &&& !after.in_phrase ==> after.energies.len() == least(
                before.energies.len() as int + 1,
                p.pad,
            )
        }),
{
    let rest = energies.drop_last();
    assert(rest.len() * p.frame_len <= energies.len() * p.frame_len) by (nonlinear_arith)
        requires
            rest.len() + 1 == energies.len(),
            p.frame_len >= 1,
    ;
    what_is_counted_was_heard(p, samples, rest);
}

/// At the end of a stream the phrase under way is emitted if there is enough speech in it:
/// everything held, but of the silence that it ends in no more than the padding.
pub proof fn flushing_emits_the_phrase_under_way(
    p: Params,
    samples: Seq<i16>,
    energies: Seq<u64>,
)
    requires
        params_ok(p),
        energies.len() * p.frame_len <= samples.len(),
    ensures
        ({
            let s = reached(p, samples, energies);
            let n = energies.len() as int;
            let first = n - s.energies.len();
            let flushed_phrase = flushed(p, s);
            &&& flushed_phrase is Some <==> s.in_phrase && voiced_among(p, energies.skip(first))
                >= p.min_speech
            &&& forall|last: int|
                first <= last < n && !quiet(p, energies[last]) && #[trigger] all_quiet(
                    p,
                    energies,
                    last + 1,
                    n,
                ) && flushed_phrase is Some ==> flushed_phrase == Some(
                    if last + 1 + p.pad < n {
                        stretch(p, samples, first, last + 1 + p.pad)
                    } else {
                        samples.skip(first * p.frame_len)
                    },
                )
        }),
{
    what_is_counted_was_heard(p, samples, energies);
    let s = reached(p, samples, energies);
    let n = energies.len() as int;
    let first = n - s.energies.len();
    let f = p.frame_len;
    assert(0 * f == 0);
    assert forall|last: int|
        first <= last < n && !quiet(p, energies[last]) && #[trigger] all_quiet(
            p,
            energies,
            last + 1,
            n,
        ) && flushed(p, s) is Some implies flushed(p, s) == Some(
        if last + 1 + p.pad < n {
            stretch(p, samples, first, last + 1 + p.pad)
        } else {
            samples.skip(first * p.frame_len)
        },
    ) by {
        assert(s.energies[last - first] == energies[last]);
        let m = s.energies.len() as int;
        if s.trailing < m {
            let other = n - s.trailing - 1;
            assert(s.energies[m - s.trailing - 1] == energies[other]);
            if other < last {
                assert(quiet(p, s.energies[last - first]));
            } else if last < other {
                assert(quiet(p, energies[other]));
            }
        } else {
            assert(quiet(p, s.energies[last - first]));
        }
        assert(s.trailing == n - 1 - last);
        if s.trailing > p.pad {
            let end = m - s.trailing + p.pad;
            frames_fit(end, m, f, s.buffer.len() as int);
            stretch_is_frames(p, samples, s.buffer, first, 0, end);
        } else {
            assert(s.buffer.skip(0) =~= s.buffer);
        }
    }
}

/// No pause is as long as ends a phrase: every stretch of so many frames holds a voiced one.
pub open spec fn only_short_pauses(p: Params, energies: Seq<u64>) -> bool {
    forall|i: int|
        0 <= i && i + p.split_silence <= energies.len() ==> !#[trigger] all_quiet(
            p,
            energies,
            i,
            i + p.split_silence,
        )
}

/// Speech with short pauses only, not longer than a phrase may be, is one phrase: nothing is
/// emitted while it lasts, and everything held.
pub proof fn short_pauses_do_not_cut(p: Params, samples: Seq<i16>, energies: Seq<u64>)
    requires
        params_ok(p),
        0 < energies.len() < p.max_phrase,
        energies.len() * p.frame_len <= samples.len(),
        !quiet(p, energies[0]),
        only_short_pauses(p, energies),
    ensures
        emitted(p, samples, energies).len() == 0,
        reached(p, samples, energies).in_phrase,
        reached(p, samples, energies).energies == energies,
        reached(p, samples, energies).buffer == samples,
        reached(p, samples, energies).phrase_start == 0,
    decreases energies.len(),
{
    let rest = energies.drop_last();
    let start = extended(empty_progress(), samples);
    assert(start.buffer =~= samples);
    assert(rest.len() * p.frame_len <= energies.len() * p.frame_len) by (nonlinear_arith)
        requires
            rest.len() + 1 == energies.len(),
            p.frame_len >= 1,
    ;
    what_is_counted_was_heard(p, samples, rest);
    assert(rest.push(energies.last()) =~= energies);
    if rest.len() == 0 {
        assert(rest =~= Seq::<u64>::empty());
        assert(run(p, start, rest) == (start, Seq::<Seq<i16>>::empty()));
        assert(energies.last() == energies[0]);
    } else {
        assert(only_short_pauses(p, rest)) by {
            assert forall|i: int| 0 <= i && i + p.split_silence <= rest.len() implies !#[trigger]
            all_quiet(p, rest, i, i + p.split_silence) by {
                assert(!all_quiet(p, energies, i, i + p.split_silence));
                let k = choose|k: int|
                    i <= k < i + p.split_silence && !quiet(p, #[trigger] energies[k]);
                assert(rest[k] == energies[k]);
            }
        }
        assert(rest[0] == energies[0]);
        short_pauses_do_not_cut(p, samples, rest);
        let before = reached(p, samples, rest);
        let energy = energies.last();
        if energy < p.threshold && before.trailing + 1 >= p.split_silence {
            let n = energies.len() as int;
            assert(before.trailing < rest.len()) by {
                if before.trailing == rest.len() {
                    assert(quiet(p, before.energies[0]));
                }
            }
            let i = n - p.split_silence;
            assert(all_quiet(p, energies, i, i + p.split_silence)) by {
                assert forall|k: int| i <= k < i + p.split_silence implies quiet(
                    p,
                    #[trigger] energies[k],
                ) by {
                    if k < n - 1 {
                        assert(before.energies[k] == energies[k]);
                    }
                }
            }
        }
    }
}

/// Speech with short pauses only is emitted whole once it is followed by as much silence as
/// ends a phrase: one phrase, from its first frame to the padding behind its last voiced one.
pub proof fn a_long_pause_cuts_behind_the_speech(
    p: Params,
    samples: Seq<i16>,
    speech: Seq<u64>,
    pause: Seq<u64>,
)
    requires
        params_ok(p),
        0 < speech.len(),
        speech.len() + pause.len() < p.max_phrase,
        pause.len() == p.split_silence,
        (speech + pause).len() * p.frame_len <= samples.len(),
        !quiet(p, speech[0]),
        !quiet(p, speech.last()),
        only_short_pauses(p, speech),
        all_quiet(p, pause, 0, pause.len() as int),
        voiced_among(p, speech) >= p.min_speech,
    ensures
        emitted(p, samples, speech + pause) == seq![
            stretch(p, samples, 0, speech.len() + least(p.pad, p.split_silence)),
        ],
        !reached(p, samples, speech + pause).in_phrase,
{
    let all = speech + pause;
    let most = all.drop_last();
    let n = all.len() as int;
    assert(most.len() * p.frame_len <= all.len() * p.frame_len) by (nonlinear_arith)
        requires
            most.len() + 1 == all.len(),
            p.frame_len >= 1,
    ;
    assert(only_short_pauses(p, most)) by {
        assert forall|i: int| 0 <= i && i + p.split_silence <= most.len() implies !#[trigger]
        all_quiet(p, most, i, i + p.split_silence) by {
            if i + p.split_silence <= speech.len() {
                assert(!all_quiet(p, speech, i, i + p.split_silence));
                let k = choose|k: int|
                    i <= k < i + p.split_silence && !quiet(p, #[trigger] speech[k]);
                assert(most[k] == speech[k]);
            } else {
                assert(most[speech.len() - 1] == speech.last());
                assert(!quiet(p, most[speech.len() - 1]));
            }
        }
    }
    assert(most[0] == speech[0]);
    short_pauses_do_not_cut(p, samples, most);
    what_is_counted_was_heard(p, samples, most);
    a_phrase_ends_at_silence_or_its_length(p, samples, all);
    let before = reached(p, samples, most);
    let after = reached(p, samples, all);
    assert(all.skip(0) =~= all);
    let last = speech.len() - 1;
    assert(all[last] == speech.last());
    assert(all_quiet(p, all, last + 1, n)) by {
        assert forall|k: int| last + 1 <= k < n implies quiet(p, #[trigger] all[k]) by {
            assert(all[k] == pause[k - speech.len()]);
        }
    }
    voiced_in_front(p, speech, pause);
    assert(quiet(p, all[n - 1]));
    assert(before.trailing == n - 1 - speech.len()) by {
        let m = before.energies.len() as int;
        let other = m - before.trailing - 1;
        assert(before.energies == most);
        if before.trailing < m {
            if other < last {
                assert(quiet(p, before.energies[last]));
                assert(most[last] == all[last]);
            } else if last < other {
                assert(most[other] == all[other]);
                assert(quiet(p, all[other]));
            }
        } else {
            assert(quiet(p, before.energies[last]));
            assert(most[last] == all[last]);
        }
    }
    assert(!after.in_phrase);
    let found = choose|found: int|
        {
            &&& -1 <= found && found + p.split_silence < n
            &&& all_quiet(p, all, found + 1, n)
            &&& 0 <= found ==> !quiet(p, all[found])
            &&& emitted(p, samples, all) == if voiced_among(p, all) >= p.min_speech {
                emitted(p, samples, most).push(
                    #[trigger] stretch(p, samples, 0, least(found + 1 + p.pad, n)),
                )
            } else {
                emitted(p, samples, most)
            }
        };
    if found < last {
        assert(quiet(p, all[last]));
    } else if last < found {
        assert(quiet(p, all[found]));
    }
    assert(emitted(p, samples, all) =~= seq![
        stretch(p, samples, 0, speech.len() + least(p.pad, p.split_silence)),
    ]);
}

proof fn voiced_in_front(p: Params, front: Seq<u64>, back: Seq<u64>)
    ensures
        voiced_among(p, front) <= voiced_among(p, front + back),
    decreases back.len(),
{
    reveal(Seq::filter);
    if back.len() == 0 {
        assert(front + back =~= front);
    } else {
        voiced_in_front(p, front, back.drop_last());
        assert((front + back).drop_last() =~= front + back.drop_last());
    }
}

} // verus!
