//! One dictation from the end of its recording to its text.
//!
//! What has to be done outside — asking the model, writing the text, storing the entry — is
//! handed out as work, and its outcome is handed back in.

use vstd::prelude::*;
use vstd::string::*;

use crate::contract::dto::{HistoryEntry, InsertionOutcome};
use crate::contract::ids::Uuid;
use crate::contract::settings::Settings;
use crate::platform::{FocusedTarget, InsertionMethod};
use crate::service::backend::{Recording, SpeakiputService};
use crate::service::events::{change_of, numbered, numbering_continues, Event};
use crate::service::pipeline::{
    at_terminal, choose_output, cleaned_transcript, delivers, history_entry, is_dated_entry, method_for,
    output_refused, output_text, plan_for, processed_text, replies_that_say_something_count,
    reports_insertion, rewritten_text, says_something,
    tells_transcript, text_made, transcribed, usable, writes, Delivery, Dictation, OutputChoice,
    Plan,
};
use crate::service::recording::{
    a_failure_is_told_once, after_failure, announces_failure, same_setup, terminal_count,
};
use crate::llm::{cleaned, has_line_break};
use crate::state::{transition_error_text, transition_outcome, Action, Transition};
use crate::text::{blank_means_white_space, is_blank, opt_view};

verus! {

broadcast use vstd::string::group_string_axioms;

/// How long the model is given for a reply.
pub const MODEL_REPLY_LIMIT_MS: u64 = 30_000;

/// A dictation under way.
#[derive(PartialEq, Eq, Debug)]
pub struct Run {
    pub session_id: Uuid,
    pub language: String,
    pub focused_target: Option<FocusedTarget>,
    pub settings: Settings,
    pub plan: Plan,
    pub raw_text: String,
    pub text: String,
    pub post_processed: bool,
    pub rewritten: Option<String>,
}

/// Work to be done outside.
#[derive(PartialEq, Eq, Debug)]
pub enum PipelineWork {
    PostProcess { text: String, instruction: String },
    Rewrite { text: String, instruction: String },
    WriteText {
        refocus: Option<FocusedTarget>,
        text: String,
        method: InsertionMethod,
        key_delay_ms: u64,
    },
    StoreHistory { entry: HistoryEntry },
}

/// What is remembered while work is done.
#[derive(PartialEq, Eq, Debug)]
pub enum PipelinePending {
    Processed { run: Run },
    Rewritten { run: Run },
    Written { run: Run, text: String, delivery: Delivery },
    Stored {
        dictation: Dictation,
        insertion: InsertionOutcome,
        settings: Settings,
        duration_ms: u64,
    },
}

/// How the dictation goes on: what is announced, and what is to be done next.
#[derive(PartialEq, Eq, Debug)]
pub struct PipelineStep {
    pub events: Vec<Event>,
    pub next: Option<NextWork>,
}

/// Work that comes next, and what is remembered meanwhile.
#[derive(PartialEq, Eq, Debug)]
pub struct NextWork {
    pub work: PipelineWork,
    pub pending: PipelinePending,
}

/// What is known of a dictation at its end.
pub open spec fn sums_up(d: Dictation, run: Run, text: Seq<char>) -> bool {
    &&& d.session_id == run.session_id
    &&& d.language == run.language
    &&& d.raw_text == run.raw_text
    &&& d.processed_text == run.text
    &&& d.rewritten_text == run.rewritten
    &&& d.output_text@ == text
    &&& d.post_processed == run.post_processed
}

/// The end of the dictation is told of exactly when nothing follows, and then once.
pub open spec fn told_once(step: PipelineStep) -> bool {
    terminal_count(step.events@) == if step.next is None {
        1int
    } else {
        0int
    }
}

proof fn one_change_tells_nothing(events: Seq<Event>)
    requires
        events.len() <= 1,
        events.len() == 1 ==> events[0].body is StateChanged,
    ensures
        terminal_count(events) == 0,
{
    reveal_with_fuel(terminal_count, 2);
    if events.len() == 1 {
        assert(events.drop_last().len() == 0);
    }
}

/// The session fails: that is announced, and nothing follows.
pub open spec fn fails(
    before: SpeakiputService,
    after: SpeakiputService,
    step: PipelineStep,
    session_id: Uuid,
    message: Seq<char>,
) -> bool {
    &&& step.next is None
    &&& announces_failure(
        step.events@,
        0,
        before.machine.spec_state(),
        before.machine.session(),
        session_id,
        message,
    )
    &&& (after.machine.spec_state(), after.machine.session()) == after_failure(
        before.machine.spec_state(),
        before.machine.session(),
        session_id,
    )
}

/// A transition is made and announced first.
pub open spec fn moves(
    after: SpeakiputService,
    step: PipelineStep,
    active: Option<Uuid>,
    t: Transition,
) -> bool {
    &&& step.events@.len() >= 1
    &&& step.events@[0].body == change_of(t)
    &&& after.machine.spec_state() == t.current
    &&& after.machine.session() == active
}

/// The machine is where it was.
pub open spec fn stays(before: SpeakiputService, after: SpeakiputService) -> bool {
    &&& after.machine.spec_state() == before.machine.spec_state()
    &&& after.machine.session() == before.machine.session()
}

/// The text has left the backend, or will not: an entry is stored where history is kept
/// and there is text, and otherwise the text is announced.
pub open spec fn settles(
    step: PipelineStep,
    announced: int,
    run: Run,
    text: Seq<char>,
    insertion: InsertionOutcome,
    duration_ms: u64,
) -> bool {
    if run.settings.general.history_enabled && text.len() > 0 {
        &&& step.events@.len() == announced
        &&& step.next is Some
        &&& step.next->0.work is StoreHistory
        &&& step.next->0.pending is Stored
        &&& sums_up(step.next->0.pending->dictation, run, text)
        &&& step.next->0.pending->insertion == insertion
        &&& step.next->0.pending->Stored_settings == run.settings
        &&& step.next->0.pending->duration_ms == duration_ms
        &&& is_dated_entry(step.next->0.work->entry, step.next->0.pending->dictation)
    } else {
        &&& step.events@.len() == announced + 1
        &&& step.next is None
        &&& exists|d: Dictation| #[trigger]
            sums_up(d, run, text) && tells_transcript(
                step.events@[announced].body,
                d,
                insertion,
                run.settings,
                duration_ms,
            )
    }
}

/// The text of the last stage is chosen, and is written out or not.
pub open spec fn hands_over(step: PipelineStep, announced: int, run: Run, duration_ms: u64) -> bool {
    let text = output_text(run.text@, opt_view(run.rewritten), run.post_processed);
    let refused = run_refused(run);
    if writes(run.plan, text, refused) {
        &&& step.events@.len() == announced
        &&& step.next is Some
        &&& step.next->0.work is WriteText
        &&& step.next->0.work->refocus == run.focused_target
        &&& step.next->0.work->WriteText_text@ == text
        &&& step.next->0.work->method == method_for(run.settings.output.mode)
        &&& step.next->0.work->key_delay_ms == run.settings.output.key_delay_ms
        &&& step.next->0.pending is Written
        &&& step.next->0.pending->Written_run == run
        &&& step.next->0.pending->Written_text@ == text
        &&& delivers(step.next->0.pending->delivery, run.plan, text, refused, run.settings)
    } else {
        exists|insertion: InsertionOutcome| #[trigger]
            delivers(Delivery::Skip(insertion), run.plan, text, refused, run.settings) && settles(
                step,
                announced,
                run,
                text,
                insertion,
                duration_ms,
            )
    }
}

/// The chosen text must not be written out.
pub open spec fn run_refused(run: Run) -> bool {
    output_refused(
        run.text@,
        opt_view(run.rewritten),
        run.post_processed,
        run.focused_target is Some && run.focused_target->0.is_terminal,
    )
}

/// The rewriting stage follows where it is planned, and otherwise the hand-over.
pub open spec fn rewrites_or_hands_over(
    before: SpeakiputService,
    after: SpeakiputService,
    step: PipelineStep,
    run: Run,
    duration_ms: u64,
) -> bool {
    if run.plan.rewrite {
        &&& step.events@.len() == 0
        &&& after == before
        &&& asks_for_rewrite(step, run)
    } else {
        completes_text(before, after, step, run, duration_ms)
    }
}

/// The model is asked to rewrite the text.
pub open spec fn asks_for_rewrite(step: PipelineStep, run: Run) -> bool {
    &&& step.next is Some
    &&& step.next->0.work is Rewrite
    &&& step.next->0.work->Rewrite_text@ == run.text@
    &&& step.next->0.work->Rewrite_instruction@
        == run.settings.post_processing.prompt_rewrite_instruction@
    &&& step.next->0.pending is Rewritten
    &&& step.next->0.pending->Rewritten_run == run
}

/// The model is asked to correct the text.
pub open spec fn asks_for_correction(step: PipelineStep, run: Run) -> bool {
    &&& step.next is Some
    &&& step.next->0.work is PostProcess
    &&& step.next->0.work->PostProcess_text@ == run.text@
    &&& step.next->0.work->PostProcess_instruction@ == run.settings.post_processing.instruction@
    &&& step.next->0.pending is Processed
    &&& step.next->0.pending->Processed_run == run
}

/// The rewriting stages are left, where they were entered, and the text is handed over.
pub open spec fn completes_text(
    before: SpeakiputService,
    after: SpeakiputService,
    step: PipelineStep,
    run: Run,
    duration_ms: u64,
) -> bool {
    let text = output_text(run.text@, opt_view(run.rewritten), run.post_processed);
    if run.plan.post_process || run.plan.rewrite {
        match transition_outcome(
            before.machine.spec_state(),
            before.machine.session(),
            text_made(run.session_id, run.plan, text, run_refused(run)),
        ) {
            Err(error) => fails(
                before,
                after,
                step,
                run.session_id,
                transition_error_text(error),
            ),
            Ok((active, t)) => {
                &&& moves(after, step, active, t)
                &&& hands_over(step, 1, run, duration_ms)
            },
        }
    } else {
        &&& stays(before, after)
        &&& hands_over(step, 0, run, duration_ms)
    }
}

/// The injecting state is left, where it was entered, and the text is settled.
pub open spec fn ends_writing(
    before: SpeakiputService,
    after: SpeakiputService,
    step: PipelineStep,
    run: Run,
    text: Seq<char>,
    written: Result<InsertionMethod, String>,
    duration_ms: u64,
) -> bool {
    if run.plan.inject {
        match transition_outcome(
            before.machine.spec_state(),
            before.machine.session(),
            Action::InjectionComplete { session_id: run.session_id },
        ) {
            Err(error) => fails(
                before,
                after,
                step,
                run.session_id,
                transition_error_text(error),
            ),
            Ok((active, t)) => {
                &&& moves(after, step, active, t)
                &&& exists|insertion: InsertionOutcome| #[trigger]
                    reports_insertion(insertion, written) && settles(
                        step,
                        1,
                        run,
                        text,
                        insertion,
                        duration_ms,
                    )
            },
        }
    } else {
        &&& stays(before, after)
        &&& exists|insertion: InsertionOutcome| #[trigger]
            reports_insertion(insertion, written) && settles(
                step,
                0,
                run,
                text,
                insertion,
                duration_ms,
            )
    }
}

/// A dictation as it starts.
pub open spec fn is_run(
    run: Run,
    recording: Recording,
    settings: Settings,
    plan: Plan,
    raw: String,
    text: Seq<char>,
) -> bool {
    &&& run.session_id == recording.session_id
    &&& run.language == recording.language
    &&& run.focused_target == recording.focused_target
    &&& run.settings == settings
    &&& run.plan == plan
    &&& run.raw_text == raw
    &&& run.text@ == text
    &&& !run.post_processed
    &&& run.rewritten is None
}

/// How a dictation starts once its recording is transcribed.
pub open spec fn starts_run(
    before: SpeakiputService,
    after: SpeakiputService,
    step: PipelineStep,
    recording: Recording,
    settings: Settings,
    plan: Plan,
    raw: String,
    text: Seq<char>,
    duration_ms: u64,
) -> bool {
    match transition_outcome(
        before.machine.spec_state(),
        before.machine.session(),
        transcribed(recording.session_id, plan),
    ) {
        Err(error) => fails(
            before,
            after,
            step,
            recording.session_id,
            transition_error_text(error),
        ),
        Ok((active, t)) => {
            &&& moves(after, step, active, t)
            &&& exists|run: Run| #[trigger]
                is_run(run, recording, settings, plan, raw, text) && if plan.post_process {
                    step.events@.len() == 1 && asks_for_correction(step, run)
                } else if plan.rewrite {
                    step.events@.len() == 1 && asks_for_rewrite(step, run)
                } else {
                    hands_over(step, 1, run, duration_ms)
                }
        },
    }
}

impl SpeakiputService {
    fn fail_run(&mut self, session_id: Uuid, message: &str) -> (step: PipelineStep)
        ensures
            fails(*old(self), *final(self), step, session_id, message@),
            told_once(step),
            numbered(old(self).sequence, step.events@, final(self).sequence),
            same_setup(*old(self), *final(self)),
            final(self).recording == old(self).recording,
            old(self).wf() && old(self).records_other_than(session_id) ==> final(self).wf(),
    {
        let ghost state = self.machine.spec_state();
        let ghost active = self.machine.session();
        let events = self.fail_session(session_id, message);
        proof {
            a_failure_is_told_once(events@, state, active, session_id, message@);
        }
        PipelineStep { events, next: None }
    }

    /// Starts a dictation: from what its recording was transcribed to, or why it was not.
    pub fn dictation_begin(
        &mut self,
        recording: Recording,
        settings: Settings,
        has_post_processor: bool,
        has_rewriter: bool,
        captured: Result<String, String>,
        elapsed_ms: u64,
    ) -> (step: PipelineStep)
        ensures
            numbered(old(self).sequence, step.events@, final(self).sequence),
            told_once(step),
            same_setup(*old(self), *final(self)),
            final(self).recording == old(self).recording,
            old(self).wf() && old(self).records_other_than(recording.session_id) ==> final(self).wf(),
            match captured {
                Err(reason) => fails(
                    *old(self),
                    *final(self),
                    step,
                    recording.session_id,
                    reason@,
                ),
                Ok(raw) => starts_run(
                    *old(self),
                    *final(self),
                    step,
                    recording,
                    settings,
                    plan_for(
                        cleaned_transcript(raw@, settings),
                        settings,
                        has_post_processor,
                        has_rewriter,
                    ),
                    raw,
                    cleaned_transcript(raw@, settings),
                    elapsed_ms,
                ),
            },
    {
        let session_id = recording.session_id;
        let raw_text = match captured {
            Ok(raw) => raw,
            Err(reason) => {
                return self.fail_run(session_id, reason.as_str());
            },
        };
        let (text, plan, events) = match self.transcription_complete(
            session_id,
            raw_text.as_str(),
            &settings,
            has_post_processor,
            has_rewriter,
        ) {
            Ok(found) => found,
            Err(message) => {
                return self.fail_run(session_id, message.as_str());
            },
        };
        let ghost all_of_it = recording;
        let run = Run {
            session_id,
            language: recording.language,
            focused_target: recording.focused_target,
            settings,
            plan,
            raw_text,
            text,
            post_processed: false,
            rewritten: None,
        };
        assert(is_run(run, all_of_it, settings, plan, raw_text, text@));
        proof {
            one_change_tells_nothing(events@);
        }
        if plan.post_process {
            return ask_for_correction(run, events);
        }
        if plan.rewrite {
            return ask_for_rewrite(run, events);
        }
        let choice = run_output(&run);
        let delivery = crate::service::pipeline::choose_delivery(plan, &choice, &run.settings);
        let ghost made = events@.len() as int;
        proof {
            one_change_tells_nothing(events@);
        }
        let ghost middle = self.sequence;
        let step = self.hand_over(run, choice, delivery, events, elapsed_ms);
        proof {
            numbering_continues(old(self).sequence, step.events@, made, middle, self.sequence);
        }
        step
    }

    /// Goes on once the model was asked to correct the text.
    pub fn dictation_processed(&mut self, run: Run, reply: Option<String>, elapsed_ms: u64) -> (step:
        PipelineStep)
        ensures
            numbered(old(self).sequence, step.events@, final(self).sequence),
            told_once(step),
            same_setup(*old(self), *final(self)),
            final(self).recording == old(self).recording,
            old(self).wf() && old(self).records_other_than(run.session_id) ==> final(self).wf(),
            exists|corrected: Run|
                (#[trigger] is_corrected(corrected, run, opt_view(reply)))
                    && rewrites_or_hands_over(
                    *old(self),
                    *final(self),
                    step,
                    corrected,
                    elapsed_ms,
                ),
    {
        let ghost given = run;
        let ghost replied = reply;
        let mut run = run;
        let (text, post_processed) = processed_text(run.text, reply);
        run.text = text;
        run.post_processed = run.post_processed || post_processed;
        assert(is_corrected(run, given, opt_view(replied)));
        let ghost corrected = run;
        if run.plan.rewrite {
            let events: Vec<Event> = Vec::new();
            proof {
                one_change_tells_nothing(events@);
            }
            let step = ask_for_rewrite(run, events);
            assert(rewrites_or_hands_over(*old(self), *self, step, corrected, elapsed_ms));
            return step;
        }
        let step = self.complete_text(run, elapsed_ms);
        assert(rewrites_or_hands_over(*old(self), *self, step, corrected, elapsed_ms));
        step
    }

    /// Goes on once the model was asked to rewrite the text.
    pub fn dictation_rewritten(&mut self, run: Run, reply: Option<String>, elapsed_ms: u64) -> (step:
        PipelineStep)
        ensures
            numbered(old(self).sequence, step.events@, final(self).sequence),
            told_once(step),
            same_setup(*old(self), *final(self)),
            final(self).recording == old(self).recording,
            old(self).wf() && old(self).records_other_than(run.session_id) ==> final(self).wf(),
            completes_text(
                *old(self),
                *final(self),
                step,
                (Run {
                    rewritten: if usable(opt_view(reply)) {
                        reply
                    } else {
                        None
                    },
                    ..run
                }),
                elapsed_ms,
            ),
    {
        let mut run = run;
        run.rewritten = rewritten_text(reply);
        self.complete_text(run, elapsed_ms)
    }

    fn complete_text(&mut self, run: Run, elapsed_ms: u64) -> (step: PipelineStep)
        ensures
            numbered(old(self).sequence, step.events@, final(self).sequence),
            told_once(step),
            same_setup(*old(self), *final(self)),
            final(self).recording == old(self).recording,
            old(self).wf() && old(self).records_other_than(run.session_id) ==> final(self).wf(),
            completes_text(*old(self), *final(self), step, run, elapsed_ms),
    {
        let session_id = run.session_id;
        let choice = run_output(&run);
        let (delivery, events) = match self.text_ready(
            session_id,
            run.plan,
            &choice,
            &run.settings,
        ) {
            Ok(found) => found,
            Err(message) => {
                return self.fail_run(session_id, message.as_str());
            },
        };
        let ghost made = events@.len() as int;
        proof {
            one_change_tells_nothing(events@);
        }
        let ghost middle = self.sequence;
        let step = self.hand_over(run, choice, delivery, events, elapsed_ms);
        proof {
            numbering_continues(old(self).sequence, step.events@, made, middle, self.sequence);
        }
        step
    }

    fn hand_over(
        &mut self,
        run: Run,
        choice: OutputChoice,
        delivery: Delivery,
        events: Vec<Event>,
        elapsed_ms: u64,
    ) -> (step: PipelineStep)
        requires
            choice.text@ == output_text(
                run.text@,
                opt_view(run.rewritten),
                run.post_processed,
            ),
            choice.refused == run_refused(run),
            delivers(delivery, run.plan, choice.text@, choice.refused, run.settings),
        ensures
            *final(self) == (SpeakiputService { sequence: final(self).sequence, ..*old(self) }),
            hands_over(step, events@.len() as int, run, elapsed_ms),
            step.events@.len() >= events@.len(),
            step.events@.take(events@.len() as int) == events@,
            terminal_count(step.events@) == terminal_count(events@) + if step.next is None {
                1int
            } else {
                0int
            },
            numbered(
                old(self).sequence,
                step.events@.skip(events@.len() as int),
                final(self).sequence,
            ),
    {
        let ghost before = events@;
        match delivery {
            Delivery::Write { method, key_delay_ms } => {
                let refocus = match &run.focused_target {
                    Some(target) => Some(target.clone()),
                    None => None,
                };
                let text = choice.text.clone();
                assert(events@.take(before.len() as int) =~= before);
                assert(events@.skip(before.len() as int).len() == 0);
                PipelineStep {
                    events,
                    next: Some(
                        NextWork {
                            work: PipelineWork::WriteText { refocus, text, method, key_delay_ms },
                            pending: PipelinePending::Written {
                                run,
                                text: choice.text,
                                delivery: Delivery::Write { method, key_delay_ms },
                            },
                        },
                    ),
                }
            },
            Delivery::Skip(insertion) => {
                let ghost skipped = insertion;
                let ghost whole = run;
                let step = self.settle(run, choice.text, insertion, events, elapsed_ms);
                assert(delivers(
                    Delivery::Skip(skipped),
                    whole.plan,
                    choice.text@,
                    choice.refused,
                    whole.settings,
                ));
                step
            },
        }
    }

    fn settle(
        &mut self,
        run: Run,
        text: String,
        insertion: InsertionOutcome,
        events: Vec<Event>,
        elapsed_ms: u64,
    ) -> (step: PipelineStep)
        ensures
            *final(self) == (SpeakiputService { sequence: final(self).sequence, ..*old(self) }),
            settles(step, events@.len() as int, run, text@, insertion, elapsed_ms),
            step.events@.len() >= events@.len(),
            step.events@.take(events@.len() as int) == events@,
            terminal_count(step.events@) == terminal_count(events@) + if step.next is None {
                1int
            } else {
                0int
            },
            numbered(
                old(self).sequence,
                step.events@.skip(events@.len() as int),
                final(self).sequence,
            ),
    {
        let ghost before = events@;
        let ghost whole = run;
        let mut events = events;
        let settings = run.settings;
        let dictation = Dictation {
            session_id: run.session_id,
            language: run.language,
            raw_text: run.raw_text,
            processed_text: run.text,
            rewritten_text: run.rewritten,
            output_text: text,
            post_processed: run.post_processed,
        };
        let ghost d = dictation;
        assert(sums_up(d, whole, text@));
        match history_entry(&dictation, &settings) {
            Some(entry) => {
                assert(events@.take(before.len() as int) =~= before);
                assert(events@.skip(before.len() as int).len() == 0);
                PipelineStep {
                    events,
                    next: Some(
                        NextWork {
                            work: PipelineWork::StoreHistory { entry },
                            pending: PipelinePending::Stored {
                                dictation,
                                insertion,
                                settings,
                                duration_ms: elapsed_ms,
                            },
                        },
                    ),
                }
            },
            None => {
                let mut last = self.dictation_complete(
                    dictation,
                    insertion,
                    &settings,
                    false,
                    elapsed_ms,
                );
                let ghost tail = last@;
                events.append(&mut last);
                assert(events@ =~= before + tail);
                assert(events@.drop_last() =~= before);
                assert(events@.take(before.len() as int) =~= before);
                assert(events@.skip(before.len() as int) =~= tail);
                assert(events@[before.len() as int] == tail[0]);
                PipelineStep { events, next: None }
            },
        }
    }

    /// Goes on once the text was written out, or could not be.
    pub fn dictation_written(
        &mut self,
        run: Run,
        text: String,
        delivery: Delivery,
        written: Result<InsertionMethod, String>,
        elapsed_ms: u64,
    ) -> (step: PipelineStep)
        requires
            delivery is Write,
        ensures
            numbered(old(self).sequence, step.events@, final(self).sequence),
            told_once(step),
            same_setup(*old(self), *final(self)),
            final(self).recording == old(self).recording,
            old(self).wf() && old(self).records_other_than(run.session_id) ==> final(self).wf(),
            ends_writing(*old(self), *final(self), step, run, text@, written, elapsed_ms),
    {
        let session_id = run.session_id;
        let ghost result = written;
        let (insertion, events) = match self.text_written(
            session_id,
            run.plan,
            delivery,
            Some(written),
        ) {
            Ok(found) => found,
            Err(message) => {
                return self.fail_run(session_id, message.as_str());
            },
        };
        assert(reports_insertion(insertion, result));
        let ghost made = events@.len() as int;
        proof {
            one_change_tells_nothing(events@);
        }
        let ghost middle = self.sequence;
        let step = self.settle(run, text, insertion, events, elapsed_ms);
        proof {
            numbering_continues(old(self).sequence, step.events@, made, middle, self.sequence);
        }
        step
    }

    /// Ends a dictation once its entry was stored, or could not be.
    pub fn dictation_stored(
        &mut self,
        dictation: Dictation,
        insertion: InsertionOutcome,
        settings: &Settings,
        stored: bool,
        duration_ms: u64,
    ) -> (step: PipelineStep)
        ensures
            numbered(old(self).sequence, step.events@, final(self).sequence),
            told_once(step),
            *final(self) == (SpeakiputService { sequence: final(self).sequence, ..*old(self) }),
            step.next is None,
            step.events@.len() == if stored {
                2int
            } else {
                1int
            },
            stored ==> step.events@[0].body == (crate::service::events::EventBody::HistoryAdded {
                session_id: dictation.session_id,
            }),
            tells_transcript(
                step.events@[step.events@.len() - 1].body,
                dictation,
                insertion,
                *settings,
                duration_ms,
            ),
    {
        let events = self.dictation_complete(dictation, insertion, settings, stored, duration_ms);
        proof {
            reveal_with_fuel(terminal_count, 3);
            if stored {
                assert(events@.drop_last().drop_last().len() == 0);
                assert(events@.drop_last().last() == events@[0]);
            } else {
                assert(events@.drop_last().len() == 0);
            }
        }
        PipelineStep { events, next: None }
    }
}

/// The dictation after the correcting stage.
pub open spec fn is_corrected(corrected: Run, run: Run, reply: Option<Seq<char>>) -> bool {
    &&& corrected == (Run {
        text: corrected.text,
        post_processed: run.post_processed || usable(reply),
        ..run
    })
    &&& corrected.text@ == if usable(reply) {
        reply->0
    } else {
        run.text@
    }
}

fn run_output(run: &Run) -> (choice: OutputChoice)
    ensures
        choice.text@ == output_text(run.text@, opt_view(run.rewritten), run.post_processed),
        choice.refused == run_refused(*run),
{
    choose_output(
        run.text.as_str(),
        &run.rewritten,
        run.post_processed,
        at_terminal(&run.focused_target),
    )
}

fn ask_for_correction(run: Run, events: Vec<Event>) -> (step: PipelineStep)
    ensures
        step.events == events,
        asks_for_correction(step, run),
{
    let text = run.text.clone();
    let instruction = run.settings.post_processing.instruction.clone();
    PipelineStep {
        events,
        next: Some(
            NextWork {
                work: PipelineWork::PostProcess { text, instruction },
                pending: PipelinePending::Processed { run },
            },
        ),
    }
}

fn ask_for_rewrite(run: Run, events: Vec<Event>) -> (step: PipelineStep)
    ensures
        step.events == events,
        asks_for_rewrite(step, run),
{
    let text = run.text.clone();
    let instruction = run.settings.post_processing.prompt_rewrite_instruction.clone();
    PipelineStep {
        events,
        next: Some(
            NextWork {
                work: PipelineWork::Rewrite { text, instruction },
                pending: PipelinePending::Rewritten { run },
            },
        ),
    }
}

// ---------------------------------------------------------------------------
// What holds of a dictation as a whole
// ---------------------------------------------------------------------------

/// The session that something is pending of.
pub open spec fn session_of(pending: PipelinePending) -> Uuid {
    match pending {
        PipelinePending::Processed { run } => run.session_id,
        PipelinePending::Rewritten { run } => run.session_id,
        PipelinePending::Written { run, .. } => run.session_id,
        PipelinePending::Stored { dictation, .. } => dictation.session_id,
    }
}

/// The machine is where the work that is pending belongs: post-processing while the model
/// is asked, injecting while text is typed, and done with the session while text is copied
/// or an entry stored.
pub open spec fn in_step(service: SpeakiputService, pending: PipelinePending) -> bool {
    let held = service.machine.session() == Some(session_of(pending));
    match pending {
        PipelinePending::Processed { run } => held && run.plan.post_process
            && service.machine.spec_state() is PostProcessing,
        PipelinePending::Rewritten { run } => held && run.plan.rewrite
            && service.machine.spec_state() is PostProcessing,
        PipelinePending::Written { run, delivery, .. } => delivery is Write && if run.plan.inject {
            held && service.machine.spec_state() is Injecting
        } else {
            !held
        },
        PipelinePending::Stored { .. } => !held,
    }
}

/// The dictation goes on where the machine is, and once nothing follows, the machine is
/// done with its session.
pub open spec fn goes_on_in_step(
    after: SpeakiputService,
    step: PipelineStep,
    session_id: Uuid,
) -> bool {
    match step.next {
        Some(next) => session_of(next.pending) == session_id && in_step(after, next.pending),
        None => after.machine.session() != Some(session_id),
    }
}

/// A recording that is being transcribed becomes a dictation that is in step with the
/// machine, whatever is said and planned.
pub proof fn a_dictation_starts_in_step(
    before: SpeakiputService,
    after: SpeakiputService,
    step: PipelineStep,
    recording: Recording,
    settings: Settings,
    has_post_processor: bool,
    has_rewriter: bool,
    raw: String,
    text: Seq<char>,
    duration_ms: u64,
)
    requires
        before.machine.spec_state() is Transcribing,
        before.machine.session() == Some(recording.session_id),
        starts_run(
            before,
            after,
            step,
            recording,
            settings,
            plan_for(text, settings, has_post_processor, has_rewriter),
            raw,
            text,
            duration_ms,
        ),
    ensures
        goes_on_in_step(after, step, recording.session_id),
{
    assert(text.len() == 0 ==> is_blank(text));
}

/// A dictation stays in step when the model has replied, or has not.
pub proof fn a_dictation_stays_in_step(
    before: SpeakiputService,
    after: SpeakiputService,
    step: PipelineStep,
    run: Run,
    duration_ms: u64,
)
    requires
        before.machine.spec_state() is PostProcessing,
        before.machine.session() == Some(run.session_id),
        run.plan.post_process || run.plan.rewrite,
        rewrites_or_hands_over(before, after, step, run, duration_ms) || completes_text(
            before,
            after,
            step,
            run,
            duration_ms,
        ),
    ensures
        goes_on_in_step(after, step, run.session_id),
{
}

/// A dictation is done with its session once its text was written out, or could not be.
pub proof fn a_dictation_ends_in_step(
    before: SpeakiputService,
    after: SpeakiputService,
    step: PipelineStep,
    run: Run,
    text: String,
    delivery: Delivery,
    written: Result<InsertionMethod, String>,
    duration_ms: u64,
)
    requires
        in_step(before, PipelinePending::Written { run, text, delivery }),
        ends_writing(before, after, step, run, text@, written, duration_ms),
    ensures
        goes_on_in_step(after, step, run.session_id),
        after.machine.session() != Some(run.session_id),
{
}

/// A session whose pipeline fails is let go: the machine is done with it.
pub proof fn a_failed_dictation_lets_go(
    before: SpeakiputService,
    after: SpeakiputService,
    step: PipelineStep,
    session_id: Uuid,
    message: Seq<char>,
)
    requires
        before.wf(),
        fails(before, after, step, session_id, message),
    ensures
        goes_on_in_step(after, step, session_id),
{
}

// ---------------------------------------------------------------------------
// From the transcript to what is done with it
// ---------------------------------------------------------------------------

/// A transcript that says something goes to the model first where a stage of it is enabled
/// and there, whatever the output mode is, with the text as transcribed and cleaned and the
/// instruction of the settings; and otherwise it is written out as it is, in the mode of the
/// settings and for the window that had the focus.
pub proof fn a_transcript_takes_its_way(
    before: SpeakiputService,
    after: SpeakiputService,
    step: PipelineStep,
    recording: Recording,
    settings: Settings,
    has_post_processor: bool,
    has_rewriter: bool,
    raw: String,
    text: Seq<char>,
    duration_ms: u64,
)
    requires
        before.machine.spec_state() is Transcribing,
        before.machine.session() == Some(recording.session_id),
        says_something(text),
        starts_run(
            before,
            after,
            step,
            recording,
            settings,
            plan_for(text, settings, has_post_processor, has_rewriter),
            raw,
            text,
            duration_ms,
        ),
    ensures
        ({
            let corrects = settings.post_processing.enabled && has_post_processor;
            let rewrites = settings.post_processing.prompt_rewrite_enabled && has_rewriter;
            &&& corrects ==> (step.next matches Some(next) && next.work
                matches PipelineWork::PostProcess { text: asked, instruction } && asked@ == text
                && instruction@ == settings.post_processing.instruction@
                && after.machine.spec_state() is PostProcessing)
            &&& !corrects && rewrites ==> (step.next matches Some(next) && next.work
                matches PipelineWork::Rewrite { text: asked, instruction } && asked@ == text
                && instruction@ == settings.post_processing.prompt_rewrite_instruction@
                && after.machine.spec_state() is PostProcessing)
            &&& !corrects && !rewrites && settings.output.mode is Keyboard ==> (step.next
                matches Some(next) && next.work matches PipelineWork::WriteText {
                refocus,
                text: written,
                method,
                key_delay_ms,
            } && written@ == text && method is Keyboard && key_delay_ms
                == settings.output.key_delay_ms && refocus == recording.focused_target
                && after.machine.spec_state() is Injecting)
            &&& !corrects && !rewrites && settings.output.mode is Clipboard ==> (step.next
                matches Some(next) && next.work matches PipelineWork::WriteText {
                text: written,
                method,
                ..
            } && written@ == text && method is ClipboardOnly && after.machine.spec_state() is Idle)
            &&& !corrects && !rewrites && settings.output.mode is Nothing ==> (step.next is None
                || step.next->0.work is StoreHistory) && after.machine.spec_state() is Idle
        }),
{
    blank_means_white_space(text);
    assert(text.len() > 0);
}

/// A reply to the correction that says something takes the text's place, and any other leaves
/// it as it was; the rewriting stage then gets what there is.
pub proof fn a_correction_takes_the_texts_place(
    before: SpeakiputService,
    after: SpeakiputService,
    step: PipelineStep,
    run: Run,
    corrected: Run,
    reply: Option<Seq<char>>,
    duration_ms: u64,
)
    requires
        !run.post_processed,
        is_corrected(corrected, run, reply),
        rewrites_or_hands_over(before, after, step, corrected, duration_ms),
    ensures
        (reply matches Some(said) && says_something(said)) ==> corrected.text@ == reply->0
            && corrected.post_processed,
        !(reply matches Some(said) && says_something(said)) ==> corrected.text@ == run.text@
            && !corrected.post_processed,
        corrected.session_id == run.session_id,
        corrected.raw_text == run.raw_text,
        corrected.language == run.language,
        corrected.focused_target == run.focused_target,
        corrected.settings == run.settings,
        run.plan.rewrite ==> (step.next matches Some(next) && next.work
            matches PipelineWork::Rewrite { text: asked, instruction } && asked@
            == corrected.text@ && instruction@
            == run.settings.post_processing.prompt_rewrite_instruction@),
{
    replies_that_say_something_count(reply);
}

/// What the model made is written out cleaned, by the way of the settings, for the window
/// that had the focus, unless it has several lines and that window is a terminal.
pub proof fn what_the_model_made_is_written_out(
    before: SpeakiputService,
    after: SpeakiputService,
    step: PipelineStep,
    run: Run,
    duration_ms: u64,
)
    requires
        before.machine.spec_state() is PostProcessing,
        before.machine.session() == Some(run.session_id),
        run.plan.post_process || run.plan.rewrite,
        run.plan.output == !(run.settings.output.mode is Nothing),
        run.plan.inject == (run.settings.output.mode is Keyboard),
        run.post_processed || run.rewritten is Some,
        completes_text(before, after, step, run, duration_ms),
        ({
            let made = match run.rewritten {
                Some(text) => text@,
                None => run.text@,
            };
            cleaned(made).len() > 0
        }),
    ensures
        ({
            let made = cleaned(
                match run.rewritten {
                    Some(text) => text@,
                    None => run.text@,
                },
            );
            let terminal = run.focused_target matches Some(target) && target.is_terminal;
            let written = step.next matches Some(next) && next.work is WriteText;
            &&& written <==> !(run.settings.output.mode is Nothing) && !(terminal
                && has_line_break(made))
            &&& written ==> step.next->0.work->WriteText_text@ == made
                && step.next->0.work->refocus == run.focused_target
                && step.next->0.work->key_delay_ms == run.settings.output.key_delay_ms && (
            run.settings.output.mode is Keyboard ==> step.next->0.work->method is Keyboard
                && after.machine.spec_state() is Injecting) && (
            run.settings.output.mode is Clipboard ==> step.next->0.work->method is ClipboardOnly
                && after.machine.spec_state() is Idle)
            &&& !written ==> after.machine.spec_state() is Idle
        }),
{
}

/// A text that has left the backend, or will not, is kept in the history exactly where that
/// is on and there is any text; the entry and what is told at the end hold the texts of every
/// stage.
pub proof fn a_settled_text_is_kept_or_told(
    step: PipelineStep,
    announced: int,
    run: Run,
    text: Seq<char>,
    insertion: InsertionOutcome,
    duration_ms: u64,
)
    requires
        0 <= announced,
        settles(step, announced, run, text, insertion, duration_ms),
    ensures
        step.next is Some <==> run.settings.general.history_enabled && text.len() > 0,
        step.next matches Some(next) ==> {
            &&& next.work is StoreHistory
            &&& next.work->entry.session_id == run.session_id
            &&& next.work->entry.raw_text@ == run.raw_text@
            &&& next.work->entry.processed_text@ == run.text@
            &&& opt_view(next.work->entry.rewritten_text) == opt_view(run.rewritten)
            &&& next.work->entry.output_text@ == text
        },
        step.next is None ==> (step.events@.last().body
            matches crate::service::events::EventBody::TranscriptFinal(told) && told.session_id
            == run.session_id && told.raw_text@ == run.raw_text@ && told.processed_text@
            == run.text@ && told.output_text@ == text && told.post_processed
            == run.post_processed && told.insertion == insertion && told.language@
            == run.language@ && told.duration_ms == duration_ms),
{
}

} // verus!
