use std::collections::VecDeque;

use speakiput::client::{
    check_request, route_incoming, validate_output, ClientError, Incoming, ServiceOutput,
};
use speakiput::contract::dto::{
    BackendHealth, DictationState, RecordingStartResponse, RecordingStopResponse,
    StateChangedEvent, StateSnapshot,
};
use speakiput::contract::envelope::{Envelope, ProtocolError, StableErrorCode};
use speakiput::contract::ids::Uuid;
use speakiput::contract::settings::{OutputMode, OverlaySize, Settings};
use speakiput::daemon::{
    changes_shortcut, daemon_capabilities, provider_config, shortcut_step, still_serves,
    toggle_command, wanted_model, BuildFeatures, ShortcutEvent, ShortcutStep, ToggleCommand,
};
use speakiput::migrate::{
    apply_config, name_credential, secret_to_store, WhisrsAudio, WhisrsConfig, WhisrsGeneral,
    WhisrsInput, WhisrsLlm, WhisrsLocalWhisper, WhisrsOverlay,
};
use speakiput::platform::PlatformCapabilities;
use speakiput::server::{socket_verdict, Connection, ModeChange, SocketVerdict};
use speakiput::testing::conformance::{
    dictation_flow, run, scripted_conflict, scripted_transcript, Conformance, Observed,
    SeenChange, SeenLevel, SeenTranscript,
};
use speakiput::testing::scripted::{ScriptedFakeBackend, ScriptedStep};

fn fresh() -> Uuid {
    Uuid { bits: uuid::Uuid::new_v4().as_u128() }
}

fn refused() -> ProtocolError {
    ProtocolError {
        code: StableErrorCode::Unsupported,
        message: "no".into(),
        retryable: false,
        details: vec![],
    }
}

#[test]
fn server_requires_hello_before_other_requests() {
    let mut connection = Connection::new();
    let state = Envelope::request("state.get", "{}".into());
    assert_eq!(
        connection.accept(&state),
        Err("client.hello must be the first request on a connection".into())
    );
    let hello = Envelope::request("client.hello", "{}".into());
    assert_eq!(connection.accept(&hello), Ok(()));
    connection.answered(&Envelope::error_response(&hello, fresh(), refused()));
    assert!(connection.accept(&state).is_err());
    connection.answered(&Envelope::response(&hello, fresh(), "{}".into()));
    assert_eq!(connection.accept(&state), Ok(()));
    let event = Envelope::event("history.cleared", fresh(), 1, "{}".into());
    assert_eq!(
        connection.accept(&event),
        Err("client sent a non-request envelope".into())
    );
}

#[test]
fn only_valid_requests_are_sent() {
    assert_eq!(
        check_request(&Envelope::request("state.get", "{}".into())),
        Ok(())
    );
    let event = Envelope::event("history.cleared", fresh(), 1, "{}".into());
    assert_eq!(
        check_request(&event),
        Err(ClientError::InvalidResponse("client can only send requests".into()))
    );
    assert_eq!(
        check_request(&Envelope::request("state", "{}".into())),
        Err(ClientError::InvalidResponse(
            "message name must contain at least one dot and use lowercase identifiers".into()
        ))
    );
}

#[test]
fn outputs_are_let_in_up_to_the_first_fault() {
    let request = Envelope::request("state.get", "{}".into());
    let backend = fresh();
    let good = Envelope::response(&request, backend, "{}".into());
    let first = Envelope::event("history.cleared", backend, 1, "{}".into());
    let bad = Envelope::event("history.cleared", backend, 0, "{}".into());
    let delivered = validate_output(
        &request,
        ServiceOutput::response(good.clone()).with_events(vec![
            first.clone(),
            bad,
            first.clone(),
        ]),
    );
    assert_eq!(delivered.events, vec![first]);
    assert_eq!(
        delivered.result,
        Err(ClientError::InvalidResponse(
            "event requires instance_id and a positive sequence".into()
        ))
    );
    let delivered = validate_output(&request, ServiceOutput::response(good.clone()));
    assert_eq!(delivered.result, Ok(good.clone()));
    let other = Envelope::request("settings.get", "{}".into());
    assert_eq!(
        validate_output(&other, ServiceOutput::response(good)).result,
        Err(ClientError::InvalidResponse(
            "response name/correlation does not match request".into()
        ))
    );
    let error = Envelope::error_response(&request, backend, refused());
    assert_eq!(
        validate_output(&request, ServiceOutput::response(error)).result,
        Err(ClientError::Protocol(refused()))
    );
    let wrong = Envelope::response(&request, backend, "7".into());
    assert_eq!(
        validate_output(&request, ServiceOutput::response(wrong)).result,
        Err(ClientError::InvalidResponse("payload must be a JSON object".into()))
    );
}

#[test]
fn incoming_envelopes_find_their_way() {
    let request = Envelope::request("state.get", "{}".into());
    let response = Envelope::response(&request, fresh(), "{}".into());
    assert_eq!(
        route_incoming(response.clone()),
        Incoming::Answer { request_id: request.message_id, result: Ok(response.clone()) }
    );
    let error = Envelope::error_response(&request, fresh(), refused());
    assert_eq!(
        route_incoming(error),
        Incoming::Answer {
            request_id: request.message_id,
            result: Err(ClientError::Protocol(refused())),
        }
    );
    let event = Envelope::event("history.cleared", fresh(), 1, "{}".into());
    assert_eq!(route_incoming(event.clone()), Incoming::Event(event));
    assert_eq!(route_incoming(request), Incoming::Ignored);
    let mut orphan = response;
    orphan.correlation_id = None;
    assert_eq!(route_incoming(orphan), Incoming::Ignored);
}

#[test]
fn correlates_concurrent_out_of_order_responses() {
    let mut backend = ScriptedFakeBackend::new(VecDeque::from([
        ScriptedStep::success("state.get", "{\"marker\":\"slow\"}".into()).with_delay(30),
        ScriptedStep::success("settings.get", "{\"marker\":\"fast\"}".into()),
    ]));
    let first = Envelope::request("state.get", "{}".into());
    let second = Envelope::request("settings.get", "{}".into());
    let slow = backend.take_step(&first).unwrap();
    let fast = backend.take_step(&second).unwrap();
    assert_eq!(slow.delay_ms, 30);
    let fast = validate_output(&second, backend.answer(&second, fast)).result.unwrap();
    let slow = validate_output(&first, backend.answer(&first, slow)).result.unwrap();
    assert_eq!(slow.payload, "{\"marker\":\"slow\"}");
    assert_eq!(fast.payload, "{\"marker\":\"fast\"}");
    assert_eq!(slow.correlation_id, Some(first.message_id));
    assert_eq!(backend.remaining_steps(), 0);
}

#[test]
fn emits_scripted_events_in_monotonic_order() {
    let step = ScriptedStep::success("recording.start", "{\"accepted\":true}".into())
        .with_event("state.changed", "{\"current\":\"recording\"}".into())
        .with_event("recording.level", "{\"level\":0.3}".into());
    let mut backend = ScriptedFakeBackend::new(VecDeque::from([step]));
    let request = Envelope::request("recording.start", "{}".into());
    let step = backend.take_step(&request).unwrap();
    let delivered = validate_output(&request, backend.answer(&request, step));
    assert!(delivered.result.is_ok());
    assert_eq!(delivered.events[0].sequence, Some(1));
    assert_eq!(delivered.events[1].sequence, Some(2));
    assert_eq!(delivered.events[1].name, "recording.level");
}

#[test]
fn scripts_refuse_what_they_do_not_expect() {
    let mut backend = ScriptedFakeBackend::new(VecDeque::from([ScriptedStep::error(
        "settings.replace",
        refused(),
    )]));
    let request = Envelope::request("state.get", "{}".into());
    assert_eq!(
        backend.take_step(&request),
        Err("expected request settings.replace, received state.get".into())
    );
    assert_eq!(
        backend.take_step(&request),
        Err("unexpected request state.get; script is exhausted".into())
    );
}

fn scripted_dictation(session_id: Uuid) -> Observed {
    let change = StateChangedEvent {
        previous: DictationState::Idle,
        current: DictationState::Recording,
        session_id: Some(session_id),
    };
    Observed {
        hello: Ok(()),
        snapshot: Ok(StateSnapshot {
            state: DictationState::Idle,
            active_session_id: None,
            settings_revision: 1,
            capabilities: vec!["history".into()],
            health: BackendHealth::Ready,
        }),
        start: Ok(RecordingStartResponse { session_id, state: DictationState::Recording }),
        first_change: Ok(SeenChange { sequence: Some(1), change: Ok(change) }),
        level: Ok(SeenLevel { sequence: Some(2), name: "recording.level".into() }),
        stop: Ok(RecordingStopResponse { session_id, accepted: true }),
        changes: dictation_flow(session_id)
            .into_iter()
            .enumerate()
            .map(|(i, change)| Ok(SeenChange { sequence: Some(i as u64 + 3), change: Ok(change) }))
            .collect(),
        transcript: Ok(SeenTranscript {
            sequence: Some(7),
            session_id: Ok(scripted_transcript(session_id).session_id),
        }),
        replacement: Err(ClientError::Protocol(scripted_conflict())),
        remaining_steps: 0,
    }
}

#[test]
fn shared_conformance_harness_passes() {
    let session_id = fresh();
    run(session_id, &scripted_dictation(session_id)).unwrap();
}

#[test]
fn the_first_fault_of_a_dictation_is_reported() {
    let session_id = fresh();
    let fault = |change: &dyn Fn(&mut Observed)| {
        let mut observed = scripted_dictation(session_id);
        change(&mut observed);
        run(session_id, &observed).unwrap_err()
    };
    assert_eq!(fault(&|o| o.hello = Err("closed".into())), "closed");
    assert_eq!(
        fault(&|o| o.snapshot.as_mut().unwrap().state = DictationState::Recording),
        "snapshot did not start idle"
    );
    assert_eq!(
        fault(&|o| o.start.as_mut().unwrap().session_id = Uuid { bits: 0 }),
        "recording.start returned inconsistent session/state"
    );
    assert_eq!(
        fault(&|o| o.first_change.as_mut().unwrap().sequence = None),
        "event has no sequence"
    );
    assert_eq!(
        fault(&|o| o.first_change.as_mut().unwrap().change.as_mut().unwrap().session_id = None),
        "invalid initial state transition"
    );
    assert_eq!(
        fault(&|o| o.level.as_mut().unwrap().sequence = Some(3)),
        "event sequence has a gap"
    );
    assert_eq!(
        fault(&|o| o.level.as_mut().unwrap().name = "state.changed".into()),
        "recording level event is missing"
    );
    assert_eq!(
        fault(&|o| o.stop.as_mut().unwrap().accepted = false),
        "recording.stop was not accepted for the active session"
    );
    assert_eq!(
        fault(&|o| {
            o.changes.pop();
        }),
        "timed out waiting for event"
    );
    assert_eq!(
        fault(&|o| o.changes[1].as_mut().unwrap().change = Err("cut".into())),
        "cut"
    );
    assert_eq!(
        fault(&|o| {
            let seen = o.changes[2].as_mut().unwrap();
            seen.change.as_mut().unwrap().current = DictationState::Starting;
        }),
        "invalid state transition in terminal flow"
    );
    assert_eq!(
        fault(&|o| {
            let seen = o.changes[3].as_mut().unwrap();
            seen.change.as_mut().unwrap().current = DictationState::Error;
        }),
        "terminal flow did not return to idle"
    );
    assert_eq!(
        fault(&|o| o.transcript.as_mut().unwrap().session_id = Ok(Uuid { bits: 0 })),
        "terminal event belongs to a different session"
    );
    assert_eq!(
        fault(&|o| o.replacement = Err(ClientError::TransportClosed)),
        "stable conflict error was not propagated"
    );
    assert_eq!(
        fault(&|o| o.remaining_steps = 1),
        "event ordering or script consumption failed"
    );
    assert_eq!(
        fault(&|o| {
            o.remaining_steps = 1;
            o.stop = Err("late".into());
        }),
        "late"
    );
}

#[test]
fn conformance_finds_faults() {
    let mut checks = Conformance::new(fresh());
    assert_eq!(checks.observe(None), Err("event has no sequence".into()));
    assert_eq!(checks.observe(Some(1)), Ok(()));
    assert_eq!(checks.observe(Some(3)), Err("event sequence has a gap".into()));
    assert_eq!(
        checks.check_end(),
        Err("terminal flow did not return to idle".into())
    );
    assert_eq!(
        checks.check_terminal(fresh()),
        Err("terminal event belongs to a different session".into())
    );
    assert!(checks.check_conflict(&Err(ClientError::TransportClosed)).is_err());
    assert_eq!(
        checks.finish(0),
        Err("event ordering or script consumption failed".into())
    );
}

#[test]
fn capabilities_are_reported_in_order() {
    let platform = PlatformCapabilities {
        global_shortcut: true,
        focused_target: false,
        keyboard_injection: true,
        clipboard: false,
        tray: true,
        autostart: false,
    };
    assert_eq!(
        daemon_capabilities(
            platform,
            BuildFeatures { native: true, vulkan: false, metal: true }
        ),
        vec![
            "history",
            "credential_store",
            "focus_safe_overlay",
            "keyboard_insertion",
            "global_shortcut",
            "tray",
            "local_whisper",
            "post_processing",
            "prompt_rewrite",
            "metal_acceleration",
        ]
    );
}

#[test]
fn sockets_need_an_owner() {
    assert_eq!(socket_verdict(ModeChange::Made, None), SocketVerdict::Usable);
    assert_eq!(
        socket_verdict(ModeChange::Denied, Some(0o40700)),
        SocketVerdict::ProtectedByParent
    );
    assert_eq!(socket_verdict(ModeChange::Denied, Some(0o40701)), SocketVerdict::Unusable);
    assert_eq!(socket_verdict(ModeChange::Denied, Some(0o740)), SocketVerdict::Unusable);
    assert_eq!(socket_verdict(ModeChange::Denied, None), SocketVerdict::Unusable);
    assert_eq!(socket_verdict(ModeChange::Failed, Some(0o700)), SocketVerdict::Unusable);
}

#[test]
fn the_shortcut_is_registered_anew() {
    let again = ShortcutStep::ReadSettings { after_ms: 5000 };
    assert_eq!(shortcut_step(ShortcutEvent::SettingsFailed), again);
    assert_eq!(shortcut_step(ShortcutEvent::RegistrationFailed), again);
    assert_eq!(
        shortcut_step(ShortcutEvent::SettingsRead { shortcut: "Super+D".into() }),
        ShortcutStep::Register { shortcut: "Super+D".into() }
    );
    assert_eq!(shortcut_step(ShortcutEvent::Registered), ShortcutStep::Wait);
    assert_eq!(shortcut_step(ShortcutEvent::Activated), ShortcutStep::Activate);
    assert_eq!(shortcut_step(ShortcutEvent::ActivationDone), ShortcutStep::Wait);
    assert_eq!(shortcut_step(ShortcutEvent::ShortcutLost), ShortcutStep::Release);
    let announced = |name: &str| shortcut_step(ShortcutEvent::Announced { name: name.into() });
    assert_eq!(announced("settings.changed"), ShortcutStep::Release);
    assert_eq!(announced("state.changed"), ShortcutStep::Wait);
    assert_eq!(shortcut_step(ShortcutEvent::EventsMissed), ShortcutStep::Release);
    assert_eq!(shortcut_step(ShortcutEvent::EventsEnded), ShortcutStep::Stop);
    assert_eq!(
        shortcut_step(ShortcutEvent::Released),
        ShortcutStep::ReadSettings { after_ms: 0 }
    );
}

#[test]
fn toggling_follows_the_state() {
    let session_id = fresh();
    assert_eq!(
        toggle_command(DictationState::Idle, None),
        Ok(ToggleCommand::Start)
    );
    assert_eq!(
        toggle_command(DictationState::Recording, Some(session_id)),
        Ok(ToggleCommand::Stop { session_id })
    );
    assert_eq!(
        toggle_command(DictationState::PostProcessing, Some(session_id)),
        Err("dictation cannot toggle while state is PostProcessing".into())
    );
    assert!(toggle_command(DictationState::Recording, None).is_err());
    assert!(changes_shortcut("settings.changed"));
    assert!(!changes_shortcut("history.added"));
}

#[test]
fn models_are_loaded_again_when_the_settings_change() {
    let mut settings = Settings::default();
    let loaded = Some(wanted_model(&settings));
    assert_eq!(loaded.as_ref().unwrap().path, "");
    assert!(still_serves(&loaded, &wanted_model(&settings)));
    settings.transcription.model_path = Some("/m.bin".into());
    assert!(!still_serves(&loaded, &wanted_model(&settings)));
    assert!(!still_serves(&None, &wanted_model(&settings)));
    let config = provider_config(&settings, Some("k".into()));
    assert_eq!(config.model_id, settings.post_processing.model_id);
    assert_eq!(config.api_key.as_deref(), Some("k"));
}

fn nothing_configured() -> WhisrsConfig {
    WhisrsConfig {
        general: WhisrsGeneral {
            language: None,
            silence_timeout_ms: None,
            remove_filler_words: None,
            filler_words: None,
            vocabulary: None,
            overlay: None,
            llm_post_process: None,
            llm_instruction: None,
        },
        audio: WhisrsAudio { device: None },
        input: WhisrsInput { key_delay_ms: None, clipboard_only: None },
        local_whisper: WhisrsLocalWhisper { model_path: None, phrase_silence_ms: None },
        llm: WhisrsLlm { api_key: None, model: None, api_url: None },
        overlay: WhisrsOverlay { width: None },
    }
}

#[test]
fn an_empty_configuration_changes_nothing() {
    let mut settings = Settings::default();
    apply_config(&mut settings, &nothing_configured());
    assert_eq!(settings, Settings::default());
}

#[test]
fn a_configuration_is_taken_over() {
    let mut config = nothing_configured();
    config.general.language = Some("en".into());
    config.general.vocabulary = Some(vec!["Slint".into()]);
    config.general.overlay = Some(false);
    config.local_whisper.model_path = Some("/models/ggml-ggml-base.en.bin".into());
    config.input.clipboard_only = Some(true);
    config.llm.api_key = Some("key".into());
    config.overlay.width = Some(181);
    let mut settings = Settings::default();
    apply_config(&mut settings, &config);
    assert_eq!(settings.general.language, "en");
    assert_eq!(settings.transcription.vocabulary, vec!["Slint"]);
    assert_eq!(settings.transcription.model_id, "base.en");
    assert_eq!(settings.output.mode, OutputMode::Clipboard);
    assert_eq!(settings.overlay.size, OverlaySize::Large);
    assert!(!settings.overlay.enabled);
    assert_eq!(secret_to_store(&config), Some("key"));
    config.llm.api_key = Some(String::new());
    assert_eq!(secret_to_store(&config), None);
    config.overlay.width = Some(120);
    config.input.clipboard_only = Some(false);
    apply_config(&mut settings, &config);
    assert_eq!(settings.overlay.size, OverlaySize::Small);
    assert_eq!(settings.output.mode, OutputMode::Clipboard);
}

#[test]
fn a_secret_is_left_out_of_the_settings() {
    let mut config = nothing_configured();
    config.llm.model = Some("small".into());
    let mut without = Settings::default();
    apply_config(&mut without, &config);
    config.llm.api_key = Some("key".into());
    let mut with = Settings::default();
    apply_config(&mut with, &config);
    assert_eq!(with, without);
    assert_eq!(with.post_processing.model_id, "small");
    name_credential(&mut with, false);
    assert_eq!(with, without);
    name_credential(&mut with, true);
    assert_eq!(with.post_processing.credential_id.as_deref(), Some("whisrs-llm"));
}
