//! From a finished recording to text in the focused application.

use vstd::prelude::*;
use vstd::string::*;

use crate::asr::filler::{remove_filler_words, without_fillers};
use crate::contract::dto::{
    DictationState, HistoryEntry, InsertionOutcome, InsertionStatus, TranscriptFinalEvent,
};
use crate::contract::ids::{rfc3339, rfc3339_text, utc_now, Timestamp, Uuid};
use crate::contract::settings::{OutputMode, Settings};
use crate::insertion::{prepare_llm_insertion, LlmInsertion};
use crate::llm::{cleaned, has_line_break};
use crate::platform::{FocusedTarget, InsertionMethod};
use crate::service::backend::SpeakiputService;
use crate::service::events::{change_of, numbered, Event, EventBody};
use crate::service::recording::same_setup;
use crate::state::{next_state, transition_error_text, transition_outcome, Action};
use crate::text::{
    blank, blank_means_white_space, chars_of, copy_opt, is_blank, is_white_space, opt_view, views,
};

verus! {

broadcast use vstd::string::group_string_axioms;

/// What is to be done with a transcript.
#[derive(Clone, Copy, PartialEq, Eq, Structural, Debug)]
pub struct Plan {
    /// The text is corrected by the model.
    pub post_process: bool,
    /// The text is rewritten as a prompt by the model.
    pub rewrite: bool,
    /// The text is written out.
    pub output: bool,
    /// It is typed into the focused application.
    pub inject: bool,
}

/// What is to be done with a cleaned transcript: nothing where it is blank; otherwise each
/// stage that is enabled and there, and output in any mode but none. Only typing passes
/// through the injecting state.
pub open spec fn plan_for(
    text: Seq<char>,
    settings: Settings,
    has_post_processor: bool,
    has_rewriter: bool,
) -> Plan {
    let speech = !is_blank(text);
    Plan {
        post_process: settings.post_processing.enabled && has_post_processor && speech,
        rewrite: settings.post_processing.prompt_rewrite_enabled && has_rewriter && speech,
        output: !(settings.output.mode is Nothing) && speech,
        inject: settings.output.mode is Keyboard && speech,
    }
}

/// Decides what is to be done with a cleaned transcript.
pub fn plan_dictation(
    text: &str,
    settings: &Settings,
    has_post_processor: bool,
    has_rewriter: bool,
) -> (result: Plan)
    ensures
        result == plan_for(text@, *settings, has_post_processor, has_rewriter),
{
    let speech = !blank(text);
    Plan {
        post_process: settings.post_processing.enabled && has_post_processor && speech,
        rewrite: settings.post_processing.prompt_rewrite_enabled && has_rewriter && speech,
        output: settings.output.mode != OutputMode::Nothing && speech,
        inject: settings.output.mode == OutputMode::Keyboard && speech,
    }
}

/// The transcript without fillers, where that is asked for.
pub open spec fn cleaned_transcript(raw: Seq<char>, settings: Settings) -> Seq<char> {
    if settings.transcription.remove_filler_words {
        without_fillers(raw, views(settings.transcription.filler_words@))
    } else {
        raw
    }
}

/// Removes fillers from a transcript, where that is asked for.
pub fn clean_transcript(raw: &str, settings: &Settings) -> (result: String)
    ensures
        result@ == cleaned_transcript(raw@, *settings),
{
    if settings.transcription.remove_filler_words {
        remove_filler_words(raw, &settings.transcription.filler_words)
    } else {
        String::from_str(raw)
    }
}

/// A reply of the model that holds text.
pub open spec fn usable(reply: Option<Seq<char>>) -> bool {
    reply is Some && !is_blank(reply->0)
}

/// The text after the correcting stage, and whether the model's reply was used: a reply
/// that is missing or blank leaves the text as it was.
pub fn processed_text(text: String, reply: Option<String>) -> (result: (String, bool))
    ensures
        result.1 == usable(opt_view(reply)),
        result.0@ == if usable(opt_view(reply)) {
            reply->0@
        } else {
            text@
        },
{
    match reply {
        Some(reply) => {
            if blank(reply.as_str()) {
                (text, false)
            } else {
                (reply, true)
            }
        },
        None => (text, false),
    }
}

/// The text after the rewriting stage, if the model's reply holds any.
pub fn rewritten_text(reply: Option<String>) -> (result: Option<String>)
    ensures
        result == if usable(opt_view(reply)) {
            reply
        } else {
            None
        },
{
    match reply {
        Some(reply) => {
            if blank(reply.as_str()) {
                None
            } else {
                Some(reply)
            }
        },
        None => None,
    }
}

/// The text to write out, and whether it must not be.
#[derive(PartialEq, Eq, Debug)]
pub struct OutputChoice {
    pub text: String,
    pub refused: bool,
}

/// The text of the last stage that made one.
pub open spec fn last_text(processed: Seq<char>, rewritten: Option<Seq<char>>) -> Seq<char> {
    match rewritten {
        Some(text) => text,
        None => processed,
    }
}

/// What is written out: a model's reply cleaned, unless nothing is left of it, and any
/// other text as it is.
pub open spec fn output_text(
    processed: Seq<char>,
    rewritten: Option<Seq<char>>,
    post_processed: bool,
) -> Seq<char> {
    let text = last_text(processed, rewritten);
    if (post_processed || rewritten is Some) && cleaned(text).len() > 0 {
        cleaned(text)
    } else {
        text
    }
}

/// A model's reply of several lines is not written to a terminal.
pub open spec fn output_refused(
    processed: Seq<char>,
    rewritten: Option<Seq<char>>,
    post_processed: bool,
    at_terminal: bool,
) -> bool {
    let text = cleaned(last_text(processed, rewritten));
    &&& post_processed || rewritten is Some
    &&& text.len() > 0
    &&& at_terminal
    &&& has_line_break(text)
}

/// Chooses what is written out.
pub fn choose_output(
    processed: &str,
    rewritten: &Option<String>,
    post_processed: bool,
    at_terminal: bool,
) -> (result: OutputChoice)
    ensures
        result.text@ == output_text(processed@, opt_view(*rewritten), post_processed),
        result.refused == output_refused(
            processed@,
            opt_view(*rewritten),
            post_processed,
            at_terminal,
        ),
{
    let text = match rewritten {
        Some(text) => text.clone(),
        None => String::from_str(processed),
    };
    if post_processed || rewritten.is_some() {
        match prepare_llm_insertion(text.as_str(), at_terminal) {
            LlmInsertion::Insert(text) => OutputChoice { text, refused: false },
            LlmInsertion::Empty => OutputChoice { text, refused: false },
            LlmInsertion::RefusedMultilineTerminal(text) => OutputChoice { text, refused: true },
        }
    } else {
        OutputChoice { text, refused: false }
    }
}

/// How the text leaves the backend.
#[derive(PartialEq, Eq, Debug)]
pub enum Delivery {
    /// It does not, and why.
    Skip(InsertionOutcome),
    /// It is written out.
    Write { method: InsertionMethod, key_delay_ms: u64 },
}

/// The text is written out: that is planned, and it is neither refused nor empty.
pub open spec fn writes(plan: Plan, text: Seq<char>, refused: bool) -> bool {
    plan.output && !refused && text.len() > 0
}

/// How text is written out in a mode.
pub open spec fn method_for(mode: OutputMode) -> InsertionMethod {
    match mode {
        OutputMode::Keyboard => InsertionMethod::Keyboard,
        _ => InsertionMethod::ClipboardOnly,
    }
}

/// How the text leaves the backend.
pub open spec fn delivers(
    delivery: Delivery,
    plan: Plan,
    text: Seq<char>,
    refused: bool,
    settings: Settings,
) -> bool {
    if writes(plan, text, refused) {
        delivery == (Delivery::Write {
            method: method_for(settings.output.mode),
            key_delay_ms: settings.output.key_delay_ms,
        })
    } else {
        delivery matches Delivery::Skip(outcome) && outcome.status is Skipped && outcome.method@
            == if refused {
            "terminal_multiline_safety"@
        } else {
            "none"@
        }
    }
}

/// Decides how the text leaves the backend.
pub fn choose_delivery(plan: Plan, choice: &OutputChoice, settings: &Settings) -> (result: Delivery)
    ensures
        delivers(result, plan, choice.text@, choice.refused, *settings),
{
    if choice.refused {
        return Delivery::Skip(
            InsertionOutcome {
                status: InsertionStatus::Skipped,
                method: String::from_str("terminal_multiline_safety"),
            },
        );
    }
    let size: usize = chars_of(choice.text.as_str()).len();
    if !plan.output || size == 0 {
        return Delivery::Skip(
            InsertionOutcome {
                status: InsertionStatus::Skipped,
                method: String::from_str("none"),
            },
        );
    }
    let method = match settings.output.mode {
        OutputMode::Keyboard => InsertionMethod::Keyboard,
        OutputMode::Clipboard => InsertionMethod::ClipboardOnly,
        OutputMode::Nothing => InsertionMethod::ClipboardOnly,
    };
    Delivery::Write { method, key_delay_ms: settings.output.key_delay_ms }
}

/// The name of a way to insert text.
pub open spec fn method_name(method: InsertionMethod) -> Seq<char> {
    match method {
        InsertionMethod::Keyboard => "keyboard"@,
        InsertionMethod::ClipboardPaste => "clipboard_paste"@,
        InsertionMethod::ClipboardOnly => "clipboard"@,
    }
}

/// The name of a way to insert text.
pub fn insertion_method_name(method: InsertionMethod) -> (result: &'static str)
    ensures
        result@ == method_name(method),
{
    match method {
        InsertionMethod::Keyboard => "keyboard",
        InsertionMethod::ClipboardPaste => "clipboard_paste",
        InsertionMethod::ClipboardOnly => "clipboard",
    }
}

/// What is reported of writing the text out.
pub open spec fn reports_insertion(
    outcome: InsertionOutcome,
    result: Result<InsertionMethod, String>,
) -> bool {
    match result {
        Ok(method) => {
            &&& outcome.status == if method is ClipboardOnly {
                InsertionStatus::Clipboard
            } else {
                InsertionStatus::Inserted
            }
            &&& outcome.method@ == method_name(method)
        },
        Err(reason) => outcome.status is Failed && outcome.method == reason,
    }
}

/// Reports what came of writing the text out.
pub fn insertion_outcome(result: Result<InsertionMethod, String>) -> (outcome: InsertionOutcome)
    ensures
        reports_insertion(outcome, result),
{
    match result {
        Ok(method) => InsertionOutcome {
            status: match method {
                InsertionMethod::ClipboardOnly => InsertionStatus::Clipboard,
                InsertionMethod::Keyboard => InsertionStatus::Inserted,
                InsertionMethod::ClipboardPaste => InsertionStatus::Inserted,
            },
            method: String::from_str(insertion_method_name(method)),
        },
        Err(reason) => InsertionOutcome { status: InsertionStatus::Failed, method: reason },
    }
}

/// Whether the focus is on a terminal.
pub fn at_terminal(target: &Option<FocusedTarget>) -> (result: bool)
    ensures
        result == (target is Some && target->0.is_terminal),
{
    match target {
        Some(target) => target.is_terminal,
        None => false,
    }
}

/// What is known of a dictation at its end.
#[derive(PartialEq, Eq, Debug)]
pub struct Dictation {
    pub session_id: Uuid,
    pub language: String,
    pub raw_text: String,
    pub processed_text: String,
    pub rewritten_text: Option<String>,
    pub output_text: String,
    pub post_processed: bool,
}

/// The history entry of a dictation made at a given time.
pub open spec fn is_entry(entry: HistoryEntry, d: Dictation, created_at: Seq<char>) -> bool {
    &&& entry.session_id == d.session_id
    &&& entry.raw_text == d.raw_text
    &&& entry.processed_text == d.processed_text
    &&& entry.rewritten_text == d.rewritten_text
    &&& entry.output_text == d.output_text
    &&& entry.created_at@ == created_at
}

/// The history entry of a dictation, if history is kept and there is any text.
pub fn history_entry_at(d: &Dictation, settings: &Settings, created_at: String) -> (result: Option<
    HistoryEntry,
>)
    ensures
        match result {
            Some(entry) => settings.general.history_enabled && d.output_text@.len() > 0 && is_entry(
                entry,
                *d,
                created_at@,
            ),
            None => !settings.general.history_enabled || d.output_text@.len() == 0,
        },
{
    let size: usize = chars_of(d.output_text.as_str()).len();
    if !settings.general.history_enabled || size == 0 {
        return None;
    }
    Some(
        HistoryEntry {
            session_id: d.session_id,
            raw_text: d.raw_text.clone(),
            processed_text: d.processed_text.clone(),
            rewritten_text: copy_opt(&d.rewritten_text),
            output_text: d.output_text.clone(),
            created_at,
        },
    )
}

/// The history entry of a dictation, made at a time that its text writes.
pub open spec fn is_dated_entry(entry: HistoryEntry, d: Dictation) -> bool {
    exists|now: Timestamp|
        rfc3339_text(now.seconds, now.nanoseconds) is Some && is_entry(
            entry,
            d,
            (#[trigger] rfc3339_text(now.seconds, now.nanoseconds))->0,
        )
}

/// The history entry of a dictation, made now.
pub fn history_entry(d: &Dictation, settings: &Settings) -> (result: Option<HistoryEntry>)
    ensures
        match result {
            Some(entry) => settings.general.history_enabled && d.output_text@.len() > 0
                && is_dated_entry(entry, *d),
            None => !settings.general.history_enabled || d.output_text@.len() == 0,
        },
{
    let now = utc_now();
    match rfc3339(now) {
        Some(created_at) => {
            assert(rfc3339_text(now.seconds, now.nanoseconds) == Some(created_at@));
            history_entry_at(d, settings, created_at)
        },
        None => None,
    }
}

/// The event that tells of a finished dictation.
pub open spec fn tells_transcript(
    body: EventBody,
    d: Dictation,
    insertion: InsertionOutcome,
    settings: Settings,
    duration_ms: u64,
) -> bool {
    body == EventBody::TranscriptFinal(
        TranscriptFinalEvent {
            session_id: d.session_id,
            raw_text: d.raw_text,
            processed_text: d.processed_text,
            rewritten_text: d.rewritten_text,
            output_text: d.output_text,
            post_processed: d.post_processed,
            prompt_rewritten: d.rewritten_text is Some,
            insertion,
            transcription_backend: settings.transcription.backend_id,
            language: d.language,
            duration_ms,
        },
    )
}

impl SpeakiputService {
    /// Takes up a transcript: cleans it, plans what is done with it, and moves on to the
    /// stage that comes next.
    pub fn transcription_complete(
        &mut self,
        session_id: Uuid,
        raw_text: &str,
        settings: &Settings,
        has_post_processor: bool,
        has_rewriter: bool,
    ) -> (result: Result<(String, Plan, Vec<Event>), String>)
        ensures
            ({
                let text = cleaned_transcript(raw_text@, *settings);
                let plan = plan_for(text, *settings, has_post_processor, has_rewriter);
                match transition_outcome(
                    old(self).machine.spec_state(),
                    old(self).machine.session(),
                    transcribed(session_id, plan),
                ) {
                    Ok((active, t)) => {
                        &&& result is Ok
                        &&& result->Ok_0.0@ == text
                        &&& result->Ok_0.1 == plan
                        &&& numbered(
                            old(self).sequence,
                            result->Ok_0.2@,
                            final(self).sequence,
                        )
                        &&& result->Ok_0.2@.len() == 1
                        &&& result->Ok_0.2@[0].body == change_of(t)
                        &&& final(self).machine.spec_state() == t.current
                        &&& final(self).machine.session() == active
                        &&& final(self).recording == old(self).recording
                        &&& same_setup(*old(self), *final(self))
                    },
                    Err(error) => {
                        &&& result matches Err(message) && message@ == transition_error_text(error)
                        &&& *final(self) == *old(self)
                    },
                }
            }),
            old(self).wf() ==> final(self).wf(),
    {
        let text = clean_transcript(raw_text, settings);
        let plan = plan_dictation(text.as_str(), settings, has_post_processor, has_rewriter);
        let action = Action::TranscriptionComplete {
            session_id,
            post_process: plan.post_process || plan.rewrite,
            inject: plan.inject,
        };
        match self.transition(action) {
            Ok(event) => {
                let mut events: Vec<Event> = Vec::new();
                events.push(event);
                Ok((text, plan, events))
            },
            Err(error) => Err(error.message()),
        }
    }

    /// Takes up the text of the last stage: decides how it leaves the backend, and leaves
    /// the rewriting stages, where they were entered.
    pub fn text_ready(
        &mut self,
        session_id: Uuid,
        plan: Plan,
        choice: &OutputChoice,
        settings: &Settings,
    ) -> (result: Result<(Delivery, Vec<Event>), String>)
        ensures
            if plan.post_process || plan.rewrite {
                match transition_outcome(
                    old(self).machine.spec_state(),
                    old(self).machine.session(),
                    text_made(session_id, plan, choice.text@, choice.refused),
                ) {
                    Ok((active, t)) => {
                        &&& result is Ok
                        &&& delivers(
                            result->Ok_0.0,
                            plan,
                            choice.text@,
                            choice.refused,
                            *settings,
                        )
                        &&& numbered(
                            old(self).sequence,
                            result->Ok_0.1@,
                            final(self).sequence,
                        )
                        &&& result->Ok_0.1@.len() == 1
                        &&& result->Ok_0.1@[0].body == change_of(t)
                        &&& final(self).machine.spec_state() == t.current
                        &&& final(self).machine.session() == active
                        &&& final(self).recording == old(self).recording
                        &&& same_setup(*old(self), *final(self))
                    },
                    Err(error) => {
                        &&& result matches Err(message) && message@ == transition_error_text(error)
                        &&& *final(self) == *old(self)
                    },
                }
            } else {
                &&& result is Ok
                &&& delivers(result->Ok_0.0, plan, choice.text@, choice.refused, *settings)
                &&& result->Ok_0.1@.len() == 0
                &&& *final(self) == *old(self)
            },
            old(self).wf() ==> final(self).wf(),
    {
        let delivery = choose_delivery(plan, choice, settings);
        let mut events: Vec<Event> = Vec::new();
        if plan.post_process || plan.rewrite {
            let writing = matches!(delivery, Delivery::Write { .. });
            let action = Action::PostProcessingComplete {
                session_id,
                inject: plan.inject && writing,
            };
            match self.transition(action) {
                Ok(event) => {
                    events.push(event);
                },
                Err(error) => {
                    return Err(error.message());
                },
            }
        }
        Ok((delivery, events))
    }

    /// Takes up that the text was written out, or was not: leaves the injecting state, where
    /// it was entered.
    pub fn text_written(
        &mut self,
        session_id: Uuid,
        plan: Plan,
        delivery: Delivery,
        written: Option<Result<InsertionMethod, String>>,
    ) -> (result: Result<(InsertionOutcome, Vec<Event>), String>)
        requires
            delivery is Write ==> written is Some,
        ensures
            if plan.inject && delivery is Write {
                match transition_outcome(
                    old(self).machine.spec_state(),
                    old(self).machine.session(),
                    Action::InjectionComplete { session_id },
                ) {
                    Ok((active, t)) => {
                        &&& result is Ok
                        &&& reports_insertion(result->Ok_0.0, written->0)
                        &&& numbered(
                            old(self).sequence,
                            result->Ok_0.1@,
                            final(self).sequence,
                        )
                        &&& result->Ok_0.1@.len() == 1
                        &&& result->Ok_0.1@[0].body == change_of(t)
                        &&& final(self).machine.spec_state() == t.current
                        &&& final(self).machine.session() == active
                        &&& final(self).recording == old(self).recording
                        &&& same_setup(*old(self), *final(self))
                    },
                    Err(error) => {
                        &&& result matches Err(message) && message@ == transition_error_text(error)
                        &&& *final(self) == *old(self)
                    },
                }
            } else {
                &&& result is Ok
                &&& match delivery {
                    Delivery::Skip(outcome) => result->Ok_0.0 == outcome,
                    Delivery::Write { .. } => reports_insertion(result->Ok_0.0, written->0),
                }
                &&& result->Ok_0.1@.len() == 0
                &&& *final(self) == *old(self)
            },
            old(self).wf() ==> final(self).wf(),
    {
        let mut events: Vec<Event> = Vec::new();
        match delivery {
            Delivery::Skip(outcome) => Ok((outcome, events)),
            Delivery::Write { .. } => {
                let outcome = match written {
                    Some(result) => insertion_outcome(result),
                    None => {
                        InsertionOutcome {
                            status: InsertionStatus::Skipped,
                            method: String::from_str("none"),
                        }
                    },
                };
                if plan.inject {
                    match self.transition(Action::InjectionComplete { session_id }) {
                        Ok(event) => {
                            events.push(event);
                        },
                        Err(error) => {
                            return Err(error.message());
                        },
                    }
                }
                Ok((outcome, events))
            },
        }
    }

    /// Ends a dictation: announces its history entry, where one was stored, and then its
    /// text.
    pub fn dictation_complete(
        &mut self,
        d: Dictation,
        insertion: InsertionOutcome,
        settings: &Settings,
        history_stored: bool,
        duration_ms: u64,
    ) -> (events: Vec<Event>)
        ensures
            numbered(old(self).sequence, events@, final(self).sequence),
            *final(self) == (SpeakiputService { sequence: final(self).sequence, ..*old(self) }),
            events@.len() == if history_stored {
                2int
            } else {
                1int
            },
            history_stored ==> events@[0].body == (EventBody::HistoryAdded {
                session_id: d.session_id,
            }),
            tells_transcript(
                events@[events@.len() - 1].body,
                d,
                insertion,
                *settings,
                duration_ms,
            ),
    {
        let mut events: Vec<Event> = Vec::new();
        if history_stored {
            events.push(self.emit(EventBody::HistoryAdded { session_id: d.session_id }));
        }
        let prompt_rewritten = d.rewritten_text.is_some();
        events.push(
            self.emit(
                EventBody::TranscriptFinal(
                    TranscriptFinalEvent {
                        session_id: d.session_id,
                        raw_text: d.raw_text,
                        processed_text: d.processed_text,
                        rewritten_text: d.rewritten_text,
                        output_text: d.output_text,
                        post_processed: d.post_processed,
                        prompt_rewritten,
                        insertion,
                        transcription_backend: settings.transcription.backend_id.clone(),
                        language: d.language,
                        duration_ms,
                    },
                ),
            ),
        );
        events
    }
}

/// The step after transcription.
pub open spec fn transcribed(session_id: Uuid, plan: Plan) -> Action {
    Action::TranscriptionComplete {
        session_id,
        post_process: plan.post_process || plan.rewrite,
        inject: plan.inject,
    }
}

/// The step after the rewriting stages.
pub open spec fn text_made(session_id: Uuid, plan: Plan, text: Seq<char>, refused: bool) -> Action {
    Action::PostProcessingComplete {
        session_id,
        inject: plan.inject && writes(plan, text, refused),
    }
}

// ---------------------------------------------------------------------------
// What holds of every dictation
// ---------------------------------------------------------------------------

/// A text that no stage changed is written out as it is, whatever has the focus.
pub proof fn untouched_text_is_written_as_it_is(processed: Seq<char>, at_terminal: bool)
    ensures
        output_text(processed, None, false) == processed,
        !output_refused(processed, None, false, at_terminal),
{
}

/// Nothing of several lines that a model wrote is ever written to a terminal.
pub proof fn a_terminal_never_gets_lines_from_a_model(
    processed: Seq<char>,
    rewritten: Option<Seq<char>>,
    post_processed: bool,
    plan: Plan,
)
    requires
        post_processed || rewritten is Some,
        writes(
            plan,
            output_text(processed, rewritten, post_processed),
            output_refused(processed, rewritten, post_processed, true),
        ),
        cleaned(last_text(processed, rewritten)).len() > 0,
    ensures
        !has_line_break(output_text(processed, rewritten, post_processed)),
{
}

/// A dictation that is not cut short by an error runs from transcribing to idle, whatever
/// is planned, what the model replies and where the text goes.
pub proof fn a_dictation_ends_idle(
    session_id: Uuid,
    cleaned_text: Seq<char>,
    settings: Settings,
    has_post_processor: bool,
    has_rewriter: bool,
    processed: Seq<char>,
    rewritten: Option<Seq<char>>,
    post_processed: bool,
    at_terminal: bool,
)
    requires
        !plan_for(cleaned_text, settings, has_post_processor, has_rewriter).post_process
            ==> !post_processed && processed == cleaned_text,
        !plan_for(cleaned_text, settings, has_post_processor, has_rewriter).rewrite
            ==> rewritten is None,
    ensures
        ({
            let plan = plan_for(cleaned_text, settings, has_post_processor, has_rewriter);
            let text = output_text(processed, rewritten, post_processed);
            let refused = output_refused(processed, rewritten, post_processed, at_terminal);
            let first = next_state(DictationState::Transcribing, transcribed(session_id, plan));
            let second = if plan.post_process || plan.rewrite {
                next_state(first->0, text_made(session_id, plan, text, refused))
            } else {
                first
            };
            let third = if plan.inject && writes(plan, text, refused) {
                next_state(second->0, Action::InjectionComplete { session_id })
            } else {
                second
            };
            &&& first is Some && second is Some
            &&& third == Some(DictationState::Idle)
        }),
{
    let plan = plan_for(cleaned_text, settings, has_post_processor, has_rewriter);
    if plan.inject && !plan.post_process && !plan.rewrite {
        assert(cleaned_text.len() > 0) by {
            if cleaned_text.len() == 0 {
                assert(is_blank(cleaned_text));
            }
        }
    }
}

/// A text says something: it holds a character that is not white space.
pub open spec fn says_something(text: Seq<char>) -> bool {
    exists|i: int| 0 <= i < text.len() && !is_white_space(#[trigger] text[i])
}

/// Each stage is planned by its own setting alone. Whatever is done with the text in the
/// end, it is corrected where that is enabled and a model is there, and rewritten likewise;
/// and whatever the model does, the text is written out in every mode but none, and typed in
/// keyboard mode only. Of a text that says nothing, nothing is made.
pub proof fn stages_are_planned_by_their_own_settings(
    text: Seq<char>,
    settings: Settings,
    has_post_processor: bool,
    has_rewriter: bool,
)
    ensures
        ({
            let plan = plan_for(text, settings, has_post_processor, has_rewriter);
            &&& says_something(text) && has_post_processor ==> plan.post_process
                == settings.post_processing.enabled
            &&& says_something(text) && has_rewriter ==> plan.rewrite
                == settings.post_processing.prompt_rewrite_enabled
            &&& !has_post_processor ==> !plan.post_process
            &&& !has_rewriter ==> !plan.rewrite
            &&& says_something(text) ==> (plan.output <==> settings.output.mode is Keyboard
                || settings.output.mode is Clipboard)
            &&& says_something(text) ==> (plan.inject <==> settings.output.mode is Keyboard)
            &&& !says_something(text) ==> !plan.post_process && !plan.rewrite && !plan.output
                && !plan.inject
        }),
{
    blank_means_white_space(text);
}

/// The output settings have no say in what the model is asked, and the model and its settings
/// have no say in whether and how the text is written out.
pub proof fn the_model_and_the_output_are_planned_apart(
    text: Seq<char>,
    settings: Settings,
    other: Settings,
    has_post_processor: bool,
    has_rewriter: bool,
    other_post_processor: bool,
    other_rewriter: bool,
)
    ensures
        other.post_processing == settings.post_processing ==> {
            &&& plan_for(text, other, has_post_processor, has_rewriter).post_process == plan_for(
                text,
                settings,
                has_post_processor,
                other_rewriter,
            ).post_process
            &&& plan_for(text, other, has_post_processor, has_rewriter).rewrite == plan_for(
                text,
                settings,
                other_post_processor,
                has_rewriter,
            ).rewrite
        },
        other.output == settings.output ==> {
            &&& plan_for(text, other, has_post_processor, has_rewriter).output == plan_for(
                text,
                settings,
                other_post_processor,
                other_rewriter,
            ).output
            &&& plan_for(text, other, has_post_processor, has_rewriter).inject == plan_for(
                text,
                settings,
                other_post_processor,
                other_rewriter,
            ).inject
        },
{
}

/// The transcript is left alone unless its fillers are to be removed, and then they are those
/// of the settings.
pub proof fn only_the_setting_removes_fillers(raw: Seq<char>, settings: Settings)
    ensures
        !settings.transcription.remove_filler_words ==> cleaned_transcript(raw, settings) == raw,
        settings.transcription.remove_filler_words ==> cleaned_transcript(raw, settings)
            == without_fillers(raw, views(settings.transcription.filler_words@)),
{
}

/// A reply counts exactly when it says something.
pub proof fn replies_that_say_something_count(reply: Option<Seq<char>>)
    ensures
        usable(reply) <==> (reply matches Some(text) && says_something(text)),
{
    if let Some(text) = reply {
        blank_means_white_space(text);
    }
}

/// The last stage that made a text decides: a rewritten text is written out whatever was made
/// before it, cleaned like every reply of a model; a reply of which nothing is left when
/// cleaned is written as it came.
pub proof fn the_last_stage_decides(
    processed: Seq<char>,
    other: Seq<char>,
    rewritten: Seq<char>,
    post_processed: bool,
    other_processed: bool,
    at_terminal: bool,
)
    ensures
        output_text(processed, Some(rewritten), post_processed) == output_text(
            other,
            Some(rewritten),
            other_processed,
        ),
        output_refused(processed, Some(rewritten), post_processed, at_terminal) == output_refused(
            other,
            Some(rewritten),
            other_processed,
            at_terminal,
        ),
        cleaned(rewritten).len() > 0 ==> output_text(processed, Some(rewritten), post_processed)
            == cleaned(rewritten),
        cleaned(processed).len() > 0 ==> output_text(processed, None, true) == cleaned(processed),
        cleaned(rewritten).len() == 0 ==> output_text(processed, Some(rewritten), post_processed)
            == rewritten,
        cleaned(processed).len() == 0 ==> output_text(processed, None, true) == processed,
{
}

/// Only what a model wrote for a terminal is ever refused, and that exactly when it has
/// several lines.
pub proof fn only_lines_for_a_terminal_are_refused(
    processed: Seq<char>,
    rewritten: Option<Seq<char>>,
    post_processed: bool,
)
    ensures
        !output_refused(processed, rewritten, post_processed, false),
        output_refused(processed, None, true, true) <==> cleaned(processed).len() > 0
            && has_line_break(cleaned(processed)),
        rewritten is Some ==> (output_refused(processed, rewritten, post_processed, true)
            <==> cleaned(rewritten->0).len() > 0 && has_line_break(cleaned(rewritten->0))),
{
}

/// The text leaves by the way that the settings name, with their delay, unless it is refused
/// or empty or no output is asked for; and why it does not leave is told.
pub proof fn the_settings_name_the_way_out(
    delivery: Delivery,
    cleaned_text: Seq<char>,
    settings: Settings,
    has_post_processor: bool,
    has_rewriter: bool,
    text: Seq<char>,
    refused: bool,
)
    requires
        delivers(
            delivery,
            plan_for(cleaned_text, settings, has_post_processor, has_rewriter),
            text,
            refused,
            settings,
        ),
        says_something(cleaned_text),
    ensures
        !refused && text.len() > 0 && settings.output.mode is Keyboard ==> delivery == (
        Delivery::Write {
            method: InsertionMethod::Keyboard,
            key_delay_ms: settings.output.key_delay_ms,
        }),
        !refused && text.len() > 0 && settings.output.mode is Clipboard ==> delivery == (
        Delivery::Write {
            method: InsertionMethod::ClipboardOnly,
            key_delay_ms: settings.output.key_delay_ms,
        }),
        refused || text.len() == 0 || settings.output.mode is Nothing ==> delivery is Skip,
        refused ==> delivery->Skip_0.status is Skipped && delivery->Skip_0.method@
            == "terminal_multiline_safety"@,
        !refused && delivery is Skip ==> delivery->Skip_0.status is Skipped
            && delivery->Skip_0.method@ == "none"@,
{
    blank_means_white_space(cleaned_text);
}

/// What is reported of the insertion is what was done: copied text as copied, typed or pasted
/// text as inserted, and a failure with its reason.
pub proof fn insertions_are_reported_truly(
    outcome: InsertionOutcome,
    result: Result<InsertionMethod, String>,
)
    requires
        reports_insertion(outcome, result),
    ensures
        outcome.status is Failed <==> result is Err,
        outcome.status is Clipboard <==> (result matches Ok(method) && method is ClipboardOnly),
        outcome.status is Inserted <==> (result matches Ok(method) && (method is Keyboard
            || method is ClipboardPaste)),
        !(outcome.status is Skipped),
        result matches Err(reason) ==> outcome.method@ == reason@,
        result == Ok::<InsertionMethod, String>(InsertionMethod::Keyboard) ==> outcome.method@
            == "keyboard"@,
        result == Ok::<InsertionMethod, String>(InsertionMethod::ClipboardOnly)
            ==> outcome.method@ == "clipboard"@,
        result == Ok::<InsertionMethod, String>(InsertionMethod::ClipboardPaste)
            ==> outcome.method@ == "clipboard_paste"@,
{
}

/// The history entry and the final event of a dictation tell the same of it, text by text.
pub proof fn the_entry_and_the_event_tell_the_same(
    entry: HistoryEntry,
    body: EventBody,
    d: Dictation,
    insertion: InsertionOutcome,
    settings: Settings,
    duration_ms: u64,
)
    requires
        is_dated_entry(entry, d),
        tells_transcript(body, d, insertion, settings, duration_ms),
    ensures
        body is TranscriptFinal,
        ({
            let told = body->TranscriptFinal_0;
            &&& entry.session_id == d.session_id && told.session_id == d.session_id
            &&& entry.raw_text@ == d.raw_text@ && told.raw_text@ == d.raw_text@
            &&& entry.processed_text@ == d.processed_text@ && told.processed_text@
                == d.processed_text@
            &&& opt_view(entry.rewritten_text) == opt_view(d.rewritten_text) && opt_view(
                told.rewritten_text,
            ) == opt_view(d.rewritten_text)
            &&& entry.output_text@ == d.output_text@ && told.output_text@ == d.output_text@
            &&& told.post_processed == d.post_processed
            &&& told.prompt_rewritten == (d.rewritten_text is Some)
            &&& told.insertion == insertion
            &&& told.transcription_backend@ == settings.transcription.backend_id@
            &&& told.language@ == d.language@
            &&& told.duration_ms == duration_ms
        }),
{
}

} // verus!
