use speakiput::audio::silence::AutoStopDetector;
use speakiput::contract::dto::{
    AudioDevice, ClientHelloRequest, ClientIdentity, CredentialIdRequest, CredentialPutRequest,
    DictationState, HistoryListRequest, InsertionStatus, OperationCancelRequest,
    RecordingStartRequest, RecordingStopRequest, SettingsReplaceRequest, TranscriptFinalEvent,
};
use speakiput::contract::envelope::{Detail, Envelope, ProtocolError, StableErrorCode};
use speakiput::contract::ids::Uuid;
use speakiput::contract::settings::{OutputMode, Settings};
use speakiput::platform::{FocusedTarget, InsertionMethod};
use speakiput::service::backend::{
    history_limit, invalid_payload, Route, RuntimeProbe, SpeakiputService,
};
use speakiput::service::dictate::{PipelinePending, PipelineStep, PipelineWork};
use speakiput::service::events::{Event, EventBody, ResponseBody};
use speakiput::service::handle::{
    answer_envelope, shortcut_outcome, shortcut_request, Answered, CredentialDone, FollowUp,
    Outcome, Request, Step, Work,
};
use speakiput::service::recording::{clamp_level, ShortcutCommand};
use speakiput::storage::{RevisionedSettings, StorageError};

const VERSION: &str = "0.1.0";

fn service() -> SpeakiputService {
    SpeakiputService::new(
        vec!["local_whisper".into(), "keyboard_insertion".into()],
        vec![AudioDevice { id: "default".into(), name: "Default".into(), is_default: true }],
    )
    .with_runtime()
}

fn stored(settings: &Settings) -> Outcome {
    Outcome::Settings(Ok(RevisionedSettings { revision: 1, settings: settings.clone() }))
}

fn done(step: Step) -> Answered {
    match step {
        Step::Done(answered) => answered,
        Step::Perform { work, .. } => panic!("unexpected work {work:?}"),
    }
}

fn body(answered: &Answered) -> &ResponseBody {
    answered.reply.as_ref().unwrap().as_ref().unwrap()
}

fn refusal(answered: Answered) -> ProtocolError {
    answered.reply.unwrap().unwrap_err()
}

fn names(events: &[Event]) -> Vec<&'static str> {
    events.iter().map(|event| event.body.name()).collect()
}

fn editor() -> FocusedTarget {
    FocusedTarget {
        window_id: Some("fake-window".into()),
        application_id: Some("editor".into()),
        title: Some("Document".into()),
        is_terminal: false,
    }
}

fn terminal() -> FocusedTarget {
    FocusedTarget { is_terminal: true, ..editor() }
}

fn start_with(
    service: &mut SpeakiputService,
    settings: &Settings,
    prepared: Result<Option<FocusedTarget>, String>,
) -> (Uuid, Answered) {
    let request = Request::RecordingStart(RecordingStartRequest { language: Some("pt".into()) });
    let Step::Perform { work: Work::LoadSettings, pending } = service.begin(request, VERSION)
    else {
        panic!("settings are loaded first");
    };
    let Step::Perform { work: Work::StartCapture(order), pending } =
        service.resume(pending, stored(settings))
    else {
        panic!("capture is started next");
    };
    assert_eq!(order.device_id, "default");
    assert_eq!(order.language, "pt");
    let session_id = order.session_id;
    (session_id, done(service.resume(pending, Outcome::Captured(prepared))))
}

fn start(service: &mut SpeakiputService, settings: &Settings, target: FocusedTarget) -> Uuid {
    let (session_id, answered) = start_with(service, settings, Ok(Some(target)));
    assert!(matches!(body(&answered), ResponseBody::RecordingStarted(_)));
    session_id
}

fn stop(service: &mut SpeakiputService, session_id: Uuid, outcome: Outcome) -> Answered {
    let request = Request::RecordingStop(RecordingStopRequest { session_id });
    let Step::Perform { work: Work::LoadSettings, pending } = service.begin(request, VERSION)
    else {
        panic!("settings are loaded first");
    };
    done(service.resume(pending, outcome))
}

struct Replies {
    processed: Option<&'static str>,
    rewritten: Option<&'static str>,
}

struct Transcript {
    last: TranscriptFinalEvent,
    written: Vec<String>,
    entries: usize,
    events: Vec<Event>,
    asked: Vec<String>,
}

fn dictate(settings: &Settings, target: FocusedTarget, raw: &str, replies: &Replies) -> Transcript {
    let mut service = service();
    let session_id = start(&mut service, settings, target);
    let stopped = stop(&mut service, session_id, stored(settings));
    let mut events = stopped.events;
    let FollowUp::Transcribe { recording, settings } = stopped.follow_up else {
        panic!("the recording is transcribed");
    };
    let mut step: PipelineStep = service.dictation_begin(
        recording,
        settings,
        replies.processed.is_some(),
        replies.rewritten.is_some(),
        Ok(raw.into()),
        400,
    );
    let mut written = Vec::new();
    let mut entries = 0;
    let mut asked = Vec::new();
    loop {
        events.extend(step.events);
        let Some(next) = step.next else { break };
        step = match (next.work, next.pending) {
            (PipelineWork::PostProcess { text, .. }, PipelinePending::Processed { run }) => {
                asked.push(text);
                service.dictation_processed(run, replies.processed.map(str::to_owned), 400)
            }
            (PipelineWork::Rewrite { text, .. }, PipelinePending::Rewritten { run }) => {
                asked.push(text);
                service.dictation_rewritten(run, replies.rewritten.map(str::to_owned), 400)
            }
            (
                PipelineWork::WriteText { text, method, .. },
                PipelinePending::Written { run, text: chosen, delivery },
            ) => {
                written.push(text);
                service.dictation_written(run, chosen, delivery, Ok(method), 400)
            }
            (
                PipelineWork::StoreHistory { entry },
                PipelinePending::Stored { dictation, insertion, settings, duration_ms },
            ) => {
                entries += 1;
                assert!(entry.created_at.starts_with("20"));
                assert_eq!(entry.output_text, dictation.output_text);
                service.dictation_stored(dictation, insertion, &settings, true, duration_ms)
            }
            other => panic!("{other:?}"),
        };
    }
    assert_eq!(service.machine.state(), DictationState::Idle);
    let last = match events.last().unwrap().body.clone() {
        EventBody::TranscriptFinal(last) => last,
        other => panic!("{other:?}"),
    };
    for (index, event) in events.iter().enumerate() {
        assert_eq!(event.sequence, index as u64 + 2);
    }
    Transcript { last, written, entries, events, asked }
}

#[test]
fn accepted_recording_reaches_final_event_history_and_output() {
    let mut settings = Settings::default();
    settings.transcription.remove_filler_words = true;
    let transcript = dictate(
        &settings,
        editor(),
        "um raw raw words",
        &Replies { processed: Some("Processed words."), rewritten: None },
    );
    assert_eq!(transcript.asked, ["raw words"]);
    assert_eq!(transcript.last.raw_text, "um raw raw words");
    assert_eq!(transcript.last.processed_text, "Processed words.");
    assert!(transcript.last.post_processed);
    assert_eq!(transcript.last.insertion.status, InsertionStatus::Inserted);
    assert_eq!(transcript.last.insertion.method, "keyboard");
    assert_eq!(transcript.last.duration_ms, 400);
    assert_eq!(transcript.written, ["Processed words."]);
    assert_eq!(transcript.entries, 1);
    assert_eq!(
        names(&transcript.events),
        [
            "state.changed",
            "state.changed",
            "state.changed",
            "state.changed",
            "history.added",
            "transcript.final",
        ]
    );
}

#[test]
fn prompt_rewrite_is_a_separate_optional_stage_and_is_recorded() {
    let mut settings = Settings::default();
    settings.post_processing.enabled = false;
    settings.post_processing.prompt_rewrite_enabled = true;
    let transcript = dictate(
        &settings,
        editor(),
        "um raw raw words",
        &Replies {
            processed: None,
            rewritten: Some("Write a structured prompt from the raw words."),
        },
    );
    assert_eq!(transcript.asked, ["um raw raw words"]);
    assert_eq!(transcript.last.processed_text, "um raw raw words");
    assert_eq!(
        transcript.last.rewritten_text.as_deref(),
        Some("Write a structured prompt from the raw words.")
    );
    assert!(!transcript.last.post_processed);
    assert!(transcript.last.prompt_rewritten);
    assert_eq!(
        transcript.written,
        ["Write a structured prompt from the raw words."]
    );
}

#[test]
fn both_stages_follow_each_other() {
    let mut settings = Settings::default();
    settings.post_processing.prompt_rewrite_enabled = true;
    let transcript = dictate(
        &settings,
        editor(),
        "raw",
        &Replies { processed: Some("Corrected."), rewritten: Some("```\nPrompt.\n```") },
    );
    assert_eq!(transcript.asked, ["raw", "Corrected."]);
    assert_eq!(transcript.last.processed_text, "Corrected.");
    assert_eq!(transcript.last.output_text, "Prompt.");
    let blank = dictate(
        &settings,
        editor(),
        "raw",
        &Replies { processed: Some(" "), rewritten: Some("") },
    );
    assert_eq!(blank.last.output_text, "raw");
    assert!(!blank.last.post_processed && !blank.last.prompt_rewritten);
}

#[test]
fn lines_from_the_model_never_reach_a_terminal() {
    let transcript = dictate(
        &Settings::default(),
        terminal(),
        "apague tudo",
        &Replies { processed: Some("cd /\nrm -r x"), rewritten: None },
    );
    assert!(transcript.written.is_empty());
    assert_eq!(transcript.last.insertion.status, InsertionStatus::Skipped);
    assert_eq!(transcript.last.insertion.method, "terminal_multiline_safety");
    assert_eq!(transcript.last.output_text, "cd /\nrm -r x");
    let spoken = dictate(
        &Settings::default(),
        terminal(),
        "duas\nlinhas",
        &Replies { processed: None, rewritten: None },
    );
    assert_eq!(spoken.written, ["duas\nlinhas"]);
}

#[test]
fn only_typing_passes_through_the_injecting_state() {
    let states = |mode: OutputMode| {
        let mut settings = Settings::default();
        settings.output.mode = mode;
        settings.general.history_enabled = false;
        let transcript = dictate(
            &settings,
            editor(),
            "texto",
            &Replies { processed: None, rewritten: None },
        );
        let states = transcript
            .events
            .iter()
            .filter_map(|event| match &event.body {
                EventBody::StateChanged(change) => Some(change.current),
                _ => None,
            })
            .collect::<Vec<_>>();
        (states, transcript.written.len(), transcript.last.insertion)
    };
    let (typed, count, insertion) = states(OutputMode::Keyboard);
    assert_eq!(
        typed,
        [
            DictationState::Transcribing,
            DictationState::Injecting,
            DictationState::Idle
        ]
    );
    assert_eq!((count, insertion.status), (1, InsertionStatus::Inserted));
    let (copied, count, insertion) = states(OutputMode::Clipboard);
    assert_eq!(copied, [DictationState::Transcribing, DictationState::Idle]);
    assert_eq!((count, insertion.status), (1, InsertionStatus::Clipboard));
    let (shown, count, insertion) = states(OutputMode::Nothing);
    assert_eq!(shown, [DictationState::Transcribing, DictationState::Idle]);
    assert_eq!((count, insertion.method.as_str()), (0, "none"));
}

#[test]
fn silence_is_not_written() {
    let transcript = dictate(
        &Settings::default(),
        editor(),
        " \n",
        &Replies { processed: Some("Nothing."), rewritten: None },
    );
    assert!(transcript.asked.is_empty());
    assert!(transcript.written.is_empty());
}

#[test]
fn cancellation_emits_one_terminal_event_and_never_inserts() {
    let mut service = service();
    let session_id = start(&mut service, &Settings::default(), editor());
    let cancel = Request::OperationCancel(OperationCancelRequest {
        session_id: Some(session_id),
    });
    let answered = done(service.begin(cancel, VERSION));
    assert_eq!(names(&answered.events), ["state.changed", "session.failed"]);
    assert_eq!(answered.follow_up, FollowUp::StopCapture { session_id });
    assert_eq!(service.machine.state(), DictationState::Idle);
    let again = Request::OperationCancel(OperationCancelRequest { session_id: None });
    let error = refusal(done(service.begin(again, VERSION)));
    assert_eq!(error.code, StableErrorCode::InvalidState);
    assert_eq!(error.message, "there is no active operation");
    assert!(service.auto_stop(session_id).is_none());
}

#[test]
fn silence_auto_stop_finishes_the_accepted_session() {
    let mut service = service();
    let session_id = start(&mut service, &Settings::default(), editor());
    assert!(service.auto_stop(Uuid { bits: 0 }).is_none());
    let (recording, events) = service.auto_stop(session_id).unwrap();
    assert_eq!(recording.session_id, session_id);
    assert_eq!(names(&events), ["state.changed"]);
    assert_eq!(service.machine.state(), DictationState::Transcribing);
    assert!(service.auto_stop(session_id).is_none());
}

#[test]
fn transcription_failure_is_terminal_and_recovers_to_idle() {
    let mut service = service();
    let settings = Settings::default();
    let session_id = start(&mut service, &settings, editor());
    let stopped = stop(&mut service, session_id, stored(&settings));
    let FollowUp::Transcribe { recording, settings } = stopped.follow_up else {
        panic!("the recording is transcribed");
    };
    let step = service.dictation_begin(
        recording,
        settings,
        false,
        false,
        Err("ASR backend is unavailable: model missing".into()),
        1,
    );
    assert!(step.next.is_none());
    assert_eq!(
        names(&step.events),
        ["state.changed", "session.failed", "state.changed"]
    );
    match &step.events[1].body {
        EventBody::SessionFailed(failed) => {
            assert_eq!(failed.code, "pipeline_failed");
            assert_eq!(failed.message, "ASR backend is unavailable: model missing");
            assert!(failed.retryable);
        }
        other => panic!("{other:?}"),
    }
    assert_eq!(service.machine.state(), DictationState::Idle);
}

#[test]
fn microphone_failure_does_not_accept_or_strand_a_session() {
    let mut service = service();
    let (_, answered) = start_with(
        &mut service,
        &Settings::default(),
        Err("audio capture failed: microphone permission denied".into()),
    );
    assert_eq!(answered.follow_up, FollowUp::Nothing);
    let error = refusal(answered);
    assert_eq!(error.code, StableErrorCode::Unavailable);
    assert!(error.retryable);
    assert_eq!(service.machine.state(), DictationState::Idle);
    assert_eq!(service.sequence, 0);
}

#[test]
fn a_second_start_is_refused_and_its_capture_discarded() {
    let mut service = service();
    start(&mut service, &Settings::default(), editor());
    let (session_id, answered) = start_with(&mut service, &Settings::default(), Ok(None));
    assert_eq!(answered.follow_up, FollowUp::StopCapture { session_id });
    assert_eq!(refusal(answered).code, StableErrorCode::InvalidState);
    assert_eq!(service.machine.state(), DictationState::Recording);
}

#[test]
fn a_dictation_under_way_is_not_disturbed() {
    let mut service = service();
    let session_id = start(&mut service, &Settings::default(), editor());
    stop(&mut service, session_id, stored(&Settings::default()));
    let sequence = service.sequence;
    let cancel = Request::OperationCancel(OperationCancelRequest { session_id: None });
    let refused = done(service.begin(cancel, VERSION));
    assert!(refused.events.is_empty());
    assert_eq!(refused.follow_up, FollowUp::Nothing);
    assert_eq!(refusal(refused).code, StableErrorCode::InvalidState);
    let again = stop(&mut service, session_id, stored(&Settings::default()));
    assert_eq!(refusal(again).code, StableErrorCode::InvalidState);
    let (_, started) = start_with(&mut service, &Settings::default(), Ok(None));
    assert_eq!(refusal(started).code, StableErrorCode::InvalidState);
    assert_eq!(service.machine.state(), DictationState::Transcribing);
    assert_eq!(service.machine.active_session_id(), Some(session_id));
    assert_eq!(service.sequence, sequence);
}

#[test]
fn unreadable_settings_fail_the_session_that_is_stopped() {
    let mut service = service();
    let session_id = start(&mut service, &Settings::default(), editor());
    let answered = stop(
        &mut service,
        session_id,
        Outcome::Settings(Err(StorageError::Poisoned)),
    );
    assert_eq!(answered.reply, Err("repository lock is poisoned".into()));
    assert_eq!(answered.follow_up, FollowUp::StopCapture { session_id });
    assert_eq!(
        names(&answered.events),
        ["state.changed", "state.changed", "session.failed", "state.changed"]
    );
    assert_eq!(service.machine.state(), DictationState::Idle);
    let stale = stop(&mut service, session_id, stored(&Settings::default()));
    assert_eq!(refusal(stale).code, StableErrorCode::InvalidState);
}

#[test]
fn requests_are_let_in_by_name() {
    let bare = SpeakiputService::new(vec![], vec![]);
    assert_eq!(bare.accept_request("state.get"), Ok(Route::StateGet));
    let error = bare.accept_request("state.set").unwrap_err();
    assert_eq!(error.code, StableErrorCode::Unsupported);
    assert_eq!(error.message, "unsupported request state.set");
    assert_eq!(
        bare.accept_request("recording.start").unwrap_err().message,
        "native recording runtime is unavailable"
    );
    assert_eq!(
        service().accept_request("recording.start"),
        Ok(Route::RecordingStart)
    );
    assert_eq!(
        invalid_payload("history.list", "missing field").message,
        "invalid history.list payload: missing field"
    );
}

#[test]
fn clients_are_greeted_in_the_protocol_they_share() {
    let mut service = service();
    let hello = |version: &str| {
        Request::ClientHello(ClientHelloRequest {
            supported_versions: vec![version.into()],
            client: ClientIdentity { name: "test".into(), version: "0.1.0".into() },
            subscriptions: vec!["*".into()],
        })
    };
    let answered = done(service.begin(hello("1.0"), VERSION));
    match body(&answered) {
        ResponseBody::Hello(response) => {
            assert_eq!(response.selected_version, "1.0");
            assert_eq!(response.server.version, VERSION);
            assert_eq!(response.limits.max_frame_bytes, 1_048_576);
            assert_eq!(response.capabilities.len(), 2);
        }
        other => panic!("{other:?}"),
    }
    let error = refusal(done(service.begin(hello("2.0"), VERSION)));
    assert_eq!(error.code, StableErrorCode::ProtocolMismatch);
}

#[test]
fn replacements_are_announced_and_conflicts_reported() {
    let mut service = service();
    let replace = || {
        Request::SettingsReplace(SettingsReplaceRequest {
            expected_revision: 0,
            settings: Settings::default(),
        })
    };
    let Step::Perform { pending, .. } = service.begin(replace(), VERSION) else {
        panic!("settings are replaced outside");
    };
    let answered = done(service.resume(pending, stored(&Settings::default())));
    assert_eq!(
        answered.events[0].body,
        EventBody::SettingsChanged { revision: 1 }
    );
    let Step::Perform { pending, .. } = service.begin(replace(), VERSION) else {
        panic!("settings are replaced outside");
    };
    let conflict = StorageError::Conflict { expected: 0, current: 1 };
    let error = refusal(done(
        service.resume(pending, Outcome::Settings(Err(conflict))),
    ));
    assert_eq!(error.code, StableErrorCode::Conflict);
    assert_eq!(error.message, "settings revision is stale");
    assert_eq!(
        error.details,
        vec![
            ("expected".into(), Detail::Number(0)),
            ("current".into(), Detail::Number(1)),
        ]
    );
}

#[test]
fn credential_operations_never_return_the_secret() {
    let put = || {
        Request::CredentialsPut(CredentialPutRequest {
            credential_id: "provider".into(),
            secret: "never-return-this".into(),
        })
    };
    let mut without = service();
    let error = refusal(done(without.begin(put(), VERSION)));
    assert_eq!(error.code, StableErrorCode::Unsupported);
    let mut service = service().with_credentials();
    let Step::Perform { work: Work::StoreCredential { secret, .. }, pending } =
        service.begin(put(), VERSION)
    else {
        panic!("the secret is stored outside");
    };
    assert_eq!(secret, "never-return-this");
    assert!(!format!("{pending:?}").contains("never-return-this"));
    let answered = done(service.resume(pending, Outcome::Credential(Ok(Ok(CredentialDone::Stored)))));
    assert!(!format!("{answered:?}").contains("never-return-this"));
    match body(&answered) {
        ResponseBody::Credential(status) => assert!(status.stored),
        other => panic!("{other:?}"),
    }
}

#[test]
fn the_store_tells_what_is_stored() {
    let mut service = service().with_credentials();
    let lookup = || CredentialIdRequest { credential_id: "provider".into() };
    for (request, done_for_it, stored) in [
        (Request::CredentialsStatus(lookup()), CredentialDone::Found { present: true }, true),
        (Request::CredentialsStatus(lookup()), CredentialDone::Found { present: false }, false),
        (Request::CredentialsDelete(lookup()), CredentialDone::Removed, false),
    ] {
        let Step::Perform { pending, .. } = service.begin(request, VERSION) else {
            panic!("the store is asked outside");
        };
        let outcome = Outcome::Credential(Ok(Ok(done_for_it)));
        let answered = done(service.resume(pending, outcome));
        match body(&answered) {
            ResponseBody::Credential(status) => assert_eq!(status.stored, stored),
            other => panic!("{other:?}"),
        }
    }
}

#[test]
fn credential_storage_failures_are_correlated_protocol_errors() {
    let mut service = service().with_credentials();
    let lookup = || CredentialIdRequest { credential_id: "provider".into() };
    let Step::Perform { pending, .. } =
        service.begin(Request::CredentialsStatus(lookup()), VERSION)
    else {
        panic!("the store is asked outside");
    };
    let locked = StorageError::Credential("secret service is locked".into());
    let error = refusal(done(
        service.resume(pending, Outcome::Credential(Ok(Err(locked)))),
    ));
    assert_eq!(error.code, StableErrorCode::Unavailable);
    assert!(error.retryable);
    assert_eq!(
        error.message,
        "secure credential storage failed: secret service is locked"
    );
    let Step::Perform { pending, .. } =
        service.begin(Request::CredentialsDelete(lookup()), VERSION)
    else {
        panic!("the store is asked outside");
    };
    let error = refusal(done(
        service.resume(pending, Outcome::Credential(Err("worker lost".into()))),
    ));
    assert_eq!((error.code, error.message.as_str()), (StableErrorCode::Internal, "worker lost"));
}

#[test]
fn devices_fall_back_to_the_given_ones() {
    let mut service = service();
    let Step::Perform { pending, .. } = service.begin(Request::AudioDevicesList, VERSION) else {
        panic!("settings are loaded first");
    };
    let Step::Perform { work: Work::ListDevices, pending } =
        service.resume(pending, stored(&Settings::default()))
    else {
        panic!("devices are listed next");
    };
    let answered = done(service.resume(pending, Outcome::Devices(None)));
    match body(&answered) {
        ResponseBody::AudioDevices(response) => {
            assert_eq!(response.devices[0].name, "Default");
            assert_eq!(response.selected_id, "default");
        }
        other => panic!("{other:?}"),
    }
}

#[test]
fn diagnostics_name_what_is_missing() {
    let service = service();
    let checks = service
        .diagnostics_get(Some(RuntimeProbe { devices: Ok(2), model_loaded: false }))
        .checks;
    let found = checks
        .iter()
        .map(|check| (check.id.as_str(), check.status.as_str(), check.message.as_str()))
        .collect::<Vec<_>>();
    assert_eq!(found[0], ("backend", "ok", "Backend is ready"));
    assert_eq!(found[1], ("microphone", "ok", "2 input device(s) available"));
    assert_eq!(found[2].1, "error");
    assert_eq!(found[3], ("keyboard_insertion", "ok", "Available"));
    assert_eq!(found[8].1, "unavailable");
    assert_eq!(found.len(), 9);
    let denied = RuntimeProbe { devices: Err("denied".into()), model_loaded: true };
    assert_eq!(service.diagnostics_get(Some(denied)).checks[1].message, "denied");
    assert_eq!(service.diagnostics_get(None).checks[1].id, "native_runtime");
    let backends = service.backends_list(false);
    assert!(!backends.transcription[0].available);
    assert!(backends.transcription[0].unavailable_reason.is_some());
}

#[test]
fn history_requests_are_limited() {
    assert_eq!(history_limit(0), 1);
    assert_eq!(history_limit(20), 20);
    assert_eq!(history_limit(501), 500);
    let mut service = service();
    let request = Request::HistoryList(HistoryListRequest { limit: 9_000, cursor: None });
    assert!(matches!(
        service.begin(request, VERSION),
        Step::Perform { work: Work::ListHistory { limit: 500, cursor: None }, .. }
    ));
    let Step::Perform { pending, .. } = service.begin(Request::HistoryClear, VERSION) else {
        panic!("history is cleared outside");
    };
    let answered = done(service.resume(pending, Outcome::Cleared(Ok(()))));
    assert_eq!(names(&answered.events), ["history.cleared"]);
}

#[test]
fn the_shortcut_follows_the_state() {
    let mut service = service();
    assert_eq!(service.activate_record_shortcut(), Ok(ShortcutCommand::Start));
    let session_id = start(&mut service, &Settings::default(), editor());
    assert_eq!(
        service.activate_record_shortcut(),
        Ok(ShortcutCommand::Stop { session_id })
    );
    service.auto_stop(session_id).unwrap();
    assert_eq!(service.activate_record_shortcut(), Ok(ShortcutCommand::Ignore));
}

#[test]
fn partial_texts_accumulate() {
    let mut service = service();
    let session_id = Uuid { bits: 5 };
    let (text, event) = service.partial_text(session_id, String::new(), " olá ");
    assert_eq!(text, "olá");
    assert_eq!(event.unwrap().sequence, 1);
    let (text, event) = service.partial_text(session_id, text, "\n");
    assert!(event.is_none());
    let (text, event) = service.partial_text(session_id, text, "mundo");
    assert_eq!(text, "olá mundo");
    assert_eq!(event.unwrap().sequence, 2);
}

#[test]
fn levels_are_clamped_as_numbers_are() {
    for level in [0.0_f32, -0.0, 0.4, 1.0, 1.5, -3.0, f32::INFINITY, f32::NEG_INFINITY, 1e-40] {
        assert_eq!(clamp_level(level.to_bits()), level.clamp(0.0, 1.0).to_bits(), "{level}");
    }
    assert!(f32::from_bits(clamp_level(f32::NAN.to_bits())).is_nan());
    let event = service().level(Uuid { bits: 1 }, 2.0_f32.to_bits());
    assert!(matches!(
        event.body,
        EventBody::RecordingLevel(level) if level.level_bits == 1.0_f32.to_bits()
    ));
}

#[test]
fn failed_writing_is_reported() {
    let mut service = service();
    let settings = Settings::default();
    let session_id = start(&mut service, &settings, editor());
    let stopped = stop(&mut service, session_id, stored(&settings));
    let FollowUp::Transcribe { recording, settings } = stopped.follow_up else {
        panic!("the recording is transcribed");
    };
    let step = service.dictation_begin(recording, settings, false, false, Ok("oi".into()), 1);
    let next = step.next.unwrap();
    let PipelinePending::Written { run, text, delivery } = next.pending else {
        panic!("the text is written");
    };
    assert!(matches!(
        next.work,
        PipelineWork::WriteText { method: InsertionMethod::Keyboard, key_delay_ms: 2, .. }
    ));
    let step = service.dictation_written(run, text, delivery, Err("no keyboard".into()), 2);
    let PipelinePending::Stored { insertion, .. } = step.next.unwrap().pending else {
        panic!("the entry is stored");
    };
    assert_eq!(insertion.status, InsertionStatus::Failed);
    assert_eq!(insertion.method, "no keyboard");
}

#[test]
fn recordings_end_after_the_silence_asked_for() {
    let mut detector: AutoStopDetector =
        speakiput::service::recording::new_capture_order(&Settings::default(), None)
            .auto_stop_detector();
    assert!(!detector.feed(&vec![0; 16_000], 0.5_f64.to_bits()));
    assert!(!detector.feed(&vec![0; 15_999], 0));
    assert!(detector.feed(&[0], 0));
}

#[test]
fn answers_become_envelopes() {
    let request = Envelope::request("state.get", "{}".into());
    let instance_id = Uuid { bits: 5 };
    let answer = answer_envelope(&request, instance_id, Ok(Ok("{\"a\":1}".into()))).unwrap();
    assert_eq!(answer.payload, "{\"a\":1}");
    assert_eq!(answer.correlation_id, Some(request.message_id));
    assert_eq!(answer.error, None);
    assert_eq!(answer.validate(), Ok(()));
    let error = invalid_payload("state.get", "cut");
    let refused = answer_envelope(&request, instance_id, Ok(Err(error.clone()))).unwrap();
    assert_eq!(refused.payload, "{}");
    assert_eq!(refused.error, Some(error));
    assert_eq!(refused.validate(), Ok(()));
    assert_eq!(
        answer_envelope(&request, instance_id, Err("poisoned".into())),
        Err("poisoned".into())
    );
}

#[test]
fn the_shortcut_sends_the_requests_of_clients() {
    let session_id = Uuid { bits: 7 };
    assert_eq!(
        shortcut_request(ShortcutCommand::Start),
        Some((
            "recording.start",
            Request::RecordingStart(RecordingStartRequest { language: None })
        ))
    );
    assert_eq!(
        shortcut_request(ShortcutCommand::Stop { session_id }),
        Some(("recording.stop", Request::RecordingStop(RecordingStopRequest { session_id })))
    );
    assert_eq!(shortcut_request(ShortcutCommand::Ignore), None);
    assert_eq!(shortcut_outcome(Ok(Ok(ResponseBody::HistoryCleared))), Ok(()));
    assert_eq!(
        shortcut_outcome(Ok(Err(invalid_payload("a.b", "c")))),
        Err("invalid a.b payload: c".into())
    );
    assert_eq!(shortcut_outcome(Err("poisoned".into())), Err("poisoned".into()));
}
