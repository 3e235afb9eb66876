use speakiput::client::ClientError;
use speakiput::contract::dto::{
    AudioDevice, AudioDevicesResponse, BackendChoice, BackendsResponse, ClientHelloResponse,
    ClientIdentity, DiagnosticCheck, DiagnosticsResponse, DictationState, HistoryEntry,
    HistoryListResponse, InsertionOutcome, InsertionStatus, RecordingLevelEvent,
    RecordingStartResponse, ServerLimits, SessionFailedEvent, SettingsResponse,
    StateChangedEvent, StateSnapshot, TranscriptFinalEvent, TranscriptPartialEvent,
};
use speakiput::contract::dto::BackendHealth;
use speakiput::contract::envelope::{
    Envelope, MessageKind, ProtocolError, StableErrorCode, PROTOCOL_VERSION,
};
use speakiput::contract::ids::{Timestamp, Uuid};
use speakiput::contract::settings::{OutputMode, OverlaySize, ScreenAnchor, Settings};
use speakiput::gui::controller::{
    hello_request, history_request, session_step, Answer, ControllerError, Exchange,
    GuiController, ProjectedSettings, RecordCommand, SaveStep, SessionEvent, SessionStep,
};
use speakiput::gui::icon::{application_icon, ICON_SIDE};
use speakiput::gui::presentation::{
    anchor_label, anchored_coordinates, apply_model, apply_settings_model,
    credential_secret_from_window, device_label, output_label, overlay_done, parse_anchor,
    parse_output, parse_size, position_overlay, selected_id, settings_from_window, size_label,
    status_text, ui_state, AppTray, OverlayAction, RecordingOverlay, Screen, SettingsWindow,
    UiState,
};
use speakiput::gui::view_model::{
    event_kind, EventKind, GuiViewModel, ReceivedEvent, ViewModelError,
};

fn fresh() -> Uuid {
    Uuid { bits: uuid::Uuid::new_v4().as_u128() }
}

fn envelope(kind: MessageKind, name: &str, instance_id: Uuid, sequence: Option<u64>) -> Envelope {
    Envelope {
        protocol_version: PROTOCOL_VERSION.into(),
        message_id: fresh(),
        kind,
        name: name.into(),
        sent_at: Timestamp { seconds: 0, nanoseconds: 0 },
        correlation_id: None,
        instance_id: Some(instance_id),
        sequence,
        payload: "{}".into(),
        error: None,
    }
}

fn event(name: &str, instance_id: Uuid, sequence: u64) -> Envelope {
    envelope(MessageKind::Event, name, instance_id, Some(sequence))
}

fn response(name: &str) -> Envelope {
    envelope(MessageKind::Response, name, Uuid { bits: 9 }, None)
}

fn changed(
    previous: DictationState,
    current: DictationState,
    session_id: Option<Uuid>,
) -> Result<ReceivedEvent, String> {
    Ok(ReceivedEvent::StateChanged(StateChangedEvent { previous, current, session_id }))
}

#[test]
fn events_drive_overlay_without_gui_owned_toggle_state() {
    let backend = fresh();
    let session = fresh();
    let mut model = GuiViewModel { instance_id: Some(backend), ..GuiViewModel::default() };
    model
        .apply_event(
            &event("state.changed", backend, 1),
            changed(DictationState::Idle, DictationState::Recording, Some(session)),
        )
        .unwrap();
    model
        .apply_event(
            &event("recording.level", backend, 2),
            Ok(ReceivedEvent::RecordingLevel(RecordingLevelEvent {
                session_id: session,
                level_bits: 1.5_f32.to_bits(),
            })),
        )
        .unwrap();
    model
        .apply_event(
            &event("transcript.partial", backend, 3),
            Ok(ReceivedEvent::TranscriptPartial(TranscriptPartialEvent {
                session_id: session,
                text: "falando agora".into(),
            })),
        )
        .unwrap();
    assert_eq!(model.state, DictationState::Recording);
    assert_eq!(f32::from_bits(model.audio_level_bits), 1.0);
    assert_eq!(model.partial_text, "falando agora");
}

#[test]
fn sequence_gap_requires_a_fresh_snapshot() {
    let backend = fresh();
    let mut model = GuiViewModel {
        instance_id: Some(backend),
        last_sequence: Some(2),
        ..GuiViewModel::default()
    };
    let error = model
        .apply_event(&event("history.cleared", backend, 4), Ok(ReceivedEvent::Other))
        .unwrap_err();
    assert_eq!(error, ViewModelError::SequenceGap { expected: 3, received: 4 });
    assert_eq!(error.message(), "event sequence gap: expected 3, received 4");
    let mut controller = GuiController { model };
    assert_eq!(
        controller.next_event(&event("history.cleared", backend, 4), Ok(ReceivedEvent::Other)),
        Ok(vec![Exchange::State, Exchange::Settings])
    );
    assert_eq!(
        controller.next_event(&event("history.cleared", backend, 3), Ok(ReceivedEvent::Other)),
        Ok(vec![])
    );
    assert!(matches!(
        controller.next_event(&event("history.moved", backend, 4), Ok(ReceivedEvent::Other)),
        Err(ControllerError::ViewModel(ViewModelError::UnexpectedMessage(_)))
    ));
}

#[test]
fn backend_restart_invalidates_sequence_assumptions() {
    let old = fresh();
    let new = fresh();
    let mut model = GuiViewModel {
        instance_id: Some(old),
        last_sequence: Some(10),
        ..GuiViewModel::default()
    };
    assert!(matches!(
        model.apply_event(&event("history.cleared", new, 1), Ok(ReceivedEvent::Other)),
        Err(ViewModelError::BackendRestarted { .. })
    ));
    model
        .apply_snapshot(
            &envelope(MessageKind::Response, "state.get", new, None),
            Ok(StateSnapshot {
                state: DictationState::Idle,
                active_session_id: None,
                settings_revision: 2,
                capabilities: vec!["history".into()],
                health: BackendHealth::Ready,
            }),
        )
        .unwrap();
    assert_eq!(model.last_sequence, None);
    assert!(model
        .apply_event(&event("history.cleared", new, 41), Ok(ReceivedEvent::Other))
        .is_ok());
    assert_eq!(model.last_sequence, Some(41));
}

#[test]
fn events_of_other_sessions_and_unknown_events_are_not_shown() {
    let backend = fresh();
    let mut model = GuiViewModel {
        instance_id: Some(backend),
        active_session_id: Some(fresh()),
        ..GuiViewModel::default()
    };
    model
        .apply_event(
            &event("transcript.partial", backend, 1),
            Ok(ReceivedEvent::TranscriptPartial(TranscriptPartialEvent {
                session_id: fresh(),
                text: "other".into(),
            })),
        )
        .unwrap();
    assert_eq!(model.partial_text, "");
    assert_eq!(
        model.apply_event(&event("weather.changed", backend, 2), Ok(ReceivedEvent::Other)),
        Err(ViewModelError::UnexpectedMessage("weather.changed".into()))
    );
    assert_eq!(model.last_sequence, Some(2));
    assert_eq!(
        model.apply_event(&event("session.failed", backend, 3), Err("missing".into())),
        Err(ViewModelError::Payload("missing".into()))
    );
    assert_eq!(model.last_sequence, Some(3));
    let mut not_event = event("history.cleared", backend, 4);
    not_event.kind = MessageKind::Request;
    assert!(model.apply_event(&not_event, Ok(ReceivedEvent::Other)).is_err());
}

#[test]
fn failures_are_shown_unless_cancelled() {
    let backend = fresh();
    let failed = |code: &str| {
        Ok(ReceivedEvent::SessionFailed(SessionFailedEvent {
            session_id: fresh(),
            code: code.into(),
            message: "it broke".into(),
            retryable: true,
        }))
    };
    let mut model = GuiViewModel::default();
    model
        .apply_event(&event("session.failed", backend, 1), failed("pipeline_failed"))
        .unwrap();
    assert_eq!(model.error.as_deref(), Some("it broke"));
    model
        .apply_event(&event("session.failed", backend, 2), failed("cancelled"))
        .unwrap();
    assert_eq!(model.error, None);
    model.settings_revision = 3;
    let mut sequence = 2;
    for (payload, stale) in [
        (r#"{"revision":4}"#, true),
        (r#"{"revision":3}"#, false),
        (r#"{"revision":18446744073709551615}"#, true),
        (r#"{"revision":-4}"#, false),
        (r#"{"revision":"4"}"#, false),
        (r#"{"other":4}"#, false),
        (r#"[4]"#, false),
    ] {
        sequence += 1;
        let mut changed = event("settings.changed", backend, sequence);
        changed.payload = payload.into();
        model.apply_event(&changed, Ok(ReceivedEvent::SettingsChanged)).unwrap();
        assert_eq!(model.settings_stale, stale, "{payload}");
    }
    model.tell_revision(Some(9));
    assert!(model.settings_stale);
    model.tell_revision(None);
    assert!(!model.settings_stale);
}

#[test]
fn payloads_are_read_as_the_name_asks() {
    assert_eq!(event_kind("state.changed"), EventKind::StateChanged);
    assert_eq!(event_kind("recording.level"), EventKind::RecordingLevel);
    assert_eq!(event_kind("transcript.partial"), EventKind::TranscriptPartial);
    assert_eq!(event_kind("transcript.final"), EventKind::TranscriptFinal);
    assert_eq!(event_kind("session.failed"), EventKind::SessionFailed);
    assert_eq!(event_kind("settings.changed"), EventKind::SettingsChanged);
    assert_eq!(event_kind("history.added"), EventKind::Other);
}

#[test]
fn answers_are_taken_up_by_name() {
    let mut model = GuiViewModel::default();
    assert_eq!(
        model.apply_backends(
            &response("backends.get"),
            Ok(BackendsResponse { transcription: vec![], post_processing: vec![] })
        ),
        Err(ViewModelError::UnexpectedMessage("backends.get".into()))
    );
    model
        .apply_audio_devices(
            &response("audio_devices.list"),
            Ok(AudioDevicesResponse { devices: vec![], selected_id: "usb".into() }),
        )
        .unwrap();
    assert_eq!(model.settings.audio.input_device_id, "usb");
    model
        .apply_history(
            &response("history.list"),
            Ok(HistoryListResponse { entries: vec![], next_cursor: Some("1".into()) }),
        )
        .unwrap();
    assert_eq!(model.history_next_cursor.as_deref(), Some("1"));
    model
        .apply_diagnostics(
            &response("diagnostics.get"),
            Ok(DiagnosticsResponse { checks: vec![], log_path: Some("/log".into()) }),
        )
        .unwrap();
    assert_eq!(model.diagnostics_log_path.as_deref(), Some("/log"));
    model
        .apply_settings(
            &response("settings.get"),
            Ok(SettingsResponse { revision: 7, settings: Settings::default() }),
        )
        .unwrap();
    assert_eq!(model.settings_revision, 7);
    assert!(model
        .apply_settings(&response("state.get"), Err("x".into()))
        .is_err());
}

#[test]
fn every_anchor_stays_inside_the_display() {
    for anchor in [
        ScreenAnchor::TopLeft,
        ScreenAnchor::TopCenter,
        ScreenAnchor::TopRight,
        ScreenAnchor::CenterLeft,
        ScreenAnchor::Center,
        ScreenAnchor::CenterRight,
        ScreenAnchor::BottomLeft,
        ScreenAnchor::BottomCenter,
        ScreenAnchor::BottomRight,
    ] {
        let (x, y) = anchored_coordinates(100, 50, 1920, 1080, 520, 168, anchor, 24);
        assert!((100..=1500).contains(&x), "{anchor:?}: x={x}");
        assert!((50..=962).contains(&y), "{anchor:?}: y={y}");
        assert_eq!(parse_anchor(anchor_label(anchor)), anchor);
    }
    assert_eq!(
        anchored_coordinates(100, 50, 1920, 1080, 520, 168, ScreenAnchor::BottomCenter, 24),
        (800, 938)
    );
}

#[test]
fn oversized_overlay_is_clamped_to_display_origin() {
    assert_eq!(
        anchored_coordinates(80, 40, 320, 200, 900, 500, ScreenAnchor::BottomRight, 24),
        (80, 40)
    );
}

#[test]
fn labels_read_back() {
    for size in [OverlaySize::Small, OverlaySize::Medium, OverlaySize::Large] {
        assert_eq!(parse_size(size_label(size)), size);
    }
    for mode in [OutputMode::Keyboard, OutputMode::Clipboard, OutputMode::Nothing] {
        assert_eq!(parse_output(output_label(mode)), mode);
    }
    assert_eq!(parse_size("?"), OverlaySize::Medium);
    assert_eq!(parse_anchor("?"), ScreenAnchor::BottomCenter);
    assert_eq!(parse_output("?"), OutputMode::Keyboard);
    let device = AudioDevice { id: "usb".into(), name: "Mic".into(), is_default: true };
    assert_eq!(device_label(&device), "usb — Mic (default)");
    assert_eq!(selected_id(&device_label(&device)), "usb");
    assert_eq!(selected_id("plain"), "plain");
    let dashed = AudioDevice { id: "a —b — ".into(), name: "Mic".into(), is_default: false };
    assert_eq!(selected_id(&device_label(&dashed)), "a —b");
    let spaced = AudioDevice { id: "a —b ".into(), name: "Mic".into(), is_default: false };
    assert_eq!(selected_id(&device_label(&spaced)), "a —b ");
    assert_eq!(ui_state(DictationState::ShuttingDown), UiState::Idle);
    assert_eq!(ui_state(DictationState::Injecting), UiState::Injecting);
}

fn full_model() -> GuiViewModel {
    let mut model = GuiViewModel {
        instance_id: Some(Uuid { bits: 9 }),
        state: DictationState::Recording,
        active_session_id: Some(Uuid { bits: 3 }),
        capabilities: vec!["focus_safe_overlay".into(), "global_shortcut".into()],
        audio_devices: vec![
            AudioDevice { id: "default".into(), name: "Built-in".into(), is_default: true },
            AudioDevice { id: "usb".into(), name: "Mic".into(), is_default: false },
        ],
        transcription_backends: vec![
            BackendChoice {
                id: "local-whisper".into(),
                name: "Local".into(),
                available: true,
                unavailable_reason: None,
            },
            BackendChoice {
                id: "cloud".into(),
                name: "Cloud".into(),
                available: false,
                unavailable_reason: Some("no".into()),
            },
        ],
        history: vec![HistoryEntry {
            session_id: Uuid { bits: 1 },
            raw_text: "r".into(),
            processed_text: "p".into(),
            rewritten_text: None,
            output_text: "Texto.".into(),
            created_at: "2026-08-23".into(),
        }],
        diagnostics: vec![DiagnosticCheck {
            id: "backend".into(),
            status: "ok".into(),
            message: "Ready".into(),
        }],
        audio_level_bits: 0.5_f32.to_bits(),
        ..GuiViewModel::default()
    };
    model.settings.transcription.vocabulary = vec!["Slint".into(), "Verus".into()];
    model.settings.transcription.prompt = Some("nomes".into());
    model
}

fn empty_window(model: &GuiViewModel) -> SettingsWindow {
    SettingsWindow {
        backend_state: UiState::Starting,
        status_text: String::new(),
        save_error_field: String::new(),
        save_error: String::new(),
        settings_stale: false,
        input_device_options: vec![],
        transcription_backend_options: vec![],
        post_processing_backend_options: vec![],
        shortcut_supported: false,
        keyboard_insertion_supported: false,
        credential_store_supported: false,
        overlay_supported: false,
        history_items: vec![],
        diagnostic_items: vec![],
        diagnostic_log_path: String::new(),
        form: apply_settings_model(model),
    }
}

#[test]
fn the_model_is_shown_everywhere() {
    let model = full_model();
    let mut window = empty_window(&model);
    let mut overlay = RecordingOverlay {
        backend_state: UiState::Idle,
        audio_level_bits: 0,
        size_preset: String::new(),
        presented: false,
    };
    let mut tray = AppTray { status_text: String::new(), recording: false };
    let action = apply_model(&mut window, &mut overlay, &mut tray, &model, true);
    assert_eq!(action, OverlayAction::Show { anchor: ScreenAnchor::BottomCenter });
    assert_eq!(window.backend_state, UiState::Recording);
    assert_eq!(window.status_text, "Listening…");
    assert_eq!(
        window.input_device_options,
        vec!["default — Built-in (default)", "usb — Mic"]
    );
    assert_eq!(window.transcription_backend_options, vec!["local-whisper"]);
    assert!(window.shortcut_supported);
    assert!(!window.keyboard_insertion_supported);
    assert_eq!(window.history_items, vec!["2026-08-23  Texto."]);
    assert_eq!(window.diagnostic_items, vec!["ok · backend — Ready"]);
    assert_eq!(window.form.input_device, "default — Built-in (default)");
    assert_eq!(overlay.size_preset, "Medium");
    assert_eq!(overlay.audio_level_bits, 0.5_f32.to_bits());
    assert_eq!(tray.status_text, "speakiput — Listening…");
    assert!(tray.recording);

    let mut idle = full_model();
    idle.state = DictationState::Idle;
    idle.settings_stale = true;
    idle.error = Some("sad".into());
    window.form.language = "typed".into();
    overlay_done(&mut overlay, action);
    assert!(overlay.presented);
    let action = apply_model(&mut window, &mut overlay, &mut tray, &idle, false);
    assert_eq!(action, OverlayAction::Hide);
    assert_eq!(window.form.language, "typed");
    assert_eq!(window.status_text, "sad");
    assert_eq!(
        window.save_error,
        "Settings changed in another process; saving will require a reload."
    );
    assert_eq!(
        apply_model(&mut window, &mut overlay, &mut tray, &idle, false),
        OverlayAction::Hide
    );
    overlay_done(&mut overlay, OverlayAction::Hide);
    assert!(!overlay.presented);
    let action = apply_model(&mut window, &mut overlay, &mut tray, &idle, false);
    assert_eq!(action, OverlayAction::Keep);
    overlay_done(&mut overlay, action);
    assert!(!overlay.presented);
    assert_eq!(status_text(&GuiViewModel::default()), "Connecting…");
}

#[test]
fn saving_what_is_shown_keeps_the_settings() {
    let model = full_model();
    let mut window = empty_window(&model);
    assert_eq!(settings_from_window(&window), model.settings);
    assert_eq!(credential_secret_from_window(&window), None);
    window.form.post_processing_credential_secret = "s3".into();
    assert_eq!(settings_from_window(&window), model.settings);
    window.form.auto_stop_ms = -5;
    window.form.filler_words = " a , ,b,".into();
    window.form.transcription_model_path = " ".into();
    let entered = settings_from_window(&window);
    assert_eq!(entered.general.auto_stop_ms, 0);
    assert_eq!(entered.transcription.filler_words, vec!["a", "b"]);
    assert_eq!(entered.transcription.model_path, None);
    assert_eq!(credential_secret_from_window(&window), Some("s3".into()));
    let mut large = model;
    large.settings.output.key_delay_ms = u64::MAX;
    assert_eq!(apply_settings_model(&large).key_delay_ms, i32::MAX);
}

#[test]
fn the_record_button_follows_the_state() {
    let mut controller = GuiController::new();
    assert_eq!(controller.start_or_stop(), Err(ControllerError::StateChanged));
    controller.model.state = DictationState::Idle;
    assert!(matches!(
        controller.start_or_stop(),
        Ok(RecordCommand::Start(request)) if request.language.as_deref() == Some("pt")
    ));
    let session_id = fresh();
    controller.started(RecordingStartResponse { session_id, state: DictationState::Recording });
    assert!(matches!(
        controller.start_or_stop(),
        Ok(RecordCommand::Stop(request)) if request.session_id == session_id
    ));
    assert_eq!(hello_request("1.2").client.version, "1.2");
    assert_eq!(history_request().limit, 100);
}

#[test]
fn settings_errors_are_shown_and_cleared() {
    let mut controller = GuiController::new();
    let mut broken = Settings::default();
    broken.general.auto_stop_ms = 1;
    let error = controller.save_settings(broken).unwrap_err();
    assert_eq!(
        error.message().unwrap(),
        "settings are invalid at general.auto_stop_ms: must be between 250 and 10000"
    );
    assert_eq!(
        controller.model.settings_error_field.as_deref(),
        Some("general.auto_stop_ms")
    );
    controller.model.settings_revision = 4;
    let request = controller.save_settings(Settings::default()).unwrap();
    assert_eq!(request.expected_revision, 4);
    let conflict = ClientError::Protocol(ProtocolError {
        code: StableErrorCode::Conflict,
        message: "settings revision is stale".into(),
        retryable: true,
        details: vec![],
    });
    controller.save_failed(&conflict);
    assert_eq!(controller.model.settings_error_field.as_deref(), Some("settings"));
    assert_eq!(controller.model.settings_revision, 4);
    let mut english = Settings::default();
    english.general.language = "en".into();
    controller
        .reload_settings(
            &response("settings.get"),
            Ok(SettingsResponse { revision: 5, settings: english }),
        )
        .unwrap();
    assert_eq!(controller.model.settings_revision, 5);
    assert_eq!(controller.model.settings.general.language, "en");
    assert_eq!(controller.model.settings_error_field, None);
    controller.save_failed(&ClientError::TransportClosed);
    assert_eq!(controller.model.settings_error_field, None);
}

#[test]
fn secrets_need_a_name() {
    let mut controller = GuiController::new();
    let mut settings = Settings::default();
    controller.model.settings_revision = 4;
    assert!(matches!(
        controller.save_settings_with_credential(settings.clone(), None),
        Ok(SaveStep::Replace(request)) if request.expected_revision == 4
    ));
    assert!(matches!(
        controller.save_settings_with_credential(settings.clone(), Some("s".into())),
        Err(ControllerError::InvalidSettings { field: "post_processing.credential_id", .. })
    ));
    assert_eq!(
        controller.model.settings_error_message.as_deref(),
        Some("A credential ID is required when an API key is entered.")
    );
    settings.post_processing.credential_id = Some("openai".into());
    let Ok(SaveStep::StoreCredential { request, settings: kept }) =
        controller.save_settings_with_credential(settings.clone(), Some("s".into()))
    else {
        panic!("the secret is stored first");
    };
    assert_eq!(request.credential_id, "openai");
    assert_eq!(request.secret, "s");
    assert_eq!(kept, settings);
    assert_eq!(
        controller.credential_stored(settings.clone(), Err(ClientError::TransportClosed)),
        Err(ControllerError::Client(ClientError::TransportClosed))
    );
    let replace = controller.credential_stored(settings.clone(), Ok(())).unwrap();
    assert_eq!(replace.expected_revision, 4);
    assert_eq!(replace.settings, settings);
    settings.general.auto_stop_ms = 0;
    assert!(controller.credential_stored(settings, Ok(())).is_err());
    controller.clear_history();
    assert!(controller.model.history.is_empty());
}

#[test]
fn settings_are_shown_anew_only_when_they_changed() {
    let mut projected = ProjectedSettings::new();
    let mut model = GuiViewModel::default();
    assert!(projected.shows_anew(&model));
    assert!(!projected.shows_anew(&model));
    model.settings_revision = 1;
    assert!(projected.shows_anew(&model));
    model.instance_id = Some(fresh());
    assert!(projected.shows_anew(&model));
    let unavailable = GuiController::unavailable("no socket");
    assert_eq!(
        unavailable.error.as_deref(),
        Some("Backend unavailable: no socket")
    );
}

#[test]
fn the_icon_is_a_meter_on_a_rounded_square() {
    let rgba = application_icon();
    assert_eq!(rgba.len(), ICON_SIDE * ICON_SIDE * 4);
    let pixel = |x: usize, y: usize| {
        let at = (y * ICON_SIDE + x) * 4;
        rgba[at..at + 4].to_vec()
    };
    assert_eq!(pixel(0, 0), vec![0, 0, 0, 0]);
    assert_eq!(pixel(6, 6), vec![0, 0, 0, 0]);
    assert_eq!(pixel(10, 30), vec![32, 37, 34, 255]);
    assert_eq!(pixel(30, 17), vec![243, 246, 242, 255]);
    assert_eq!(pixel(30, 47), vec![32, 37, 34, 255]);
}

fn scripted_answer(exchange: Exchange, settings: &Settings) -> Answer {
    let capabilities: Vec<String> = vec![
        "global_shortcut".into(),
        "keyboard_insertion".into(),
        "focus_safe_overlay".into(),
    ];
    match exchange {
        Exchange::Hello => Answer::Hello(ClientHelloResponse {
            selected_version: "1.0".into(),
            server: ClientIdentity { name: "fake".into(), version: "0.1.0".into() },
            capabilities,
            limits: ServerLimits { max_frame_bytes: 1_048_576 },
        }),
        Exchange::State => Answer::State(StateSnapshot {
            state: DictationState::Idle,
            active_session_id: None,
            settings_revision: 4,
            capabilities,
            health: BackendHealth::Ready,
        }),
        Exchange::Settings => Answer::Settings(SettingsResponse {
            revision: 4,
            settings: settings.clone(),
        }),
        Exchange::AudioDevices => Answer::AudioDevices(AudioDevicesResponse {
            devices: vec![AudioDevice {
                id: "default".into(),
                name: "Default microphone".into(),
                is_default: true,
            }],
            selected_id: "default".into(),
        }),
        Exchange::Backends => Answer::Backends(BackendsResponse {
            transcription: vec![BackendChoice {
                id: "local-whisper".into(),
                name: "Local Whisper".into(),
                available: true,
                unavailable_reason: None,
            }],
            post_processing: vec![BackendChoice {
                id: "openai-compatible".into(),
                name: "OpenAI compatible".into(),
                available: true,
                unavailable_reason: None,
            }],
        }),
        Exchange::History => Answer::History(HistoryListResponse {
            entries: vec![],
            next_cursor: None,
        }),
        Exchange::Diagnostics => Answer::Diagnostics(DiagnosticsResponse {
            checks: vec![DiagnosticCheck {
                id: "backend".into(),
                status: "ok".into(),
                message: "Ready".into(),
            }],
            log_path: None,
        }),
    }
}

fn connected(settings: &Settings) -> GuiController {
    let mut controller = GuiController::new();
    for exchange in GuiController::bootstrap() {
        let answer = scripted_answer(exchange, settings);
        controller
            .take_answer(exchange, &response(exchange.name()), Ok(answer))
            .unwrap();
    }
    controller
}

#[test]
fn complete_script_drives_overlay_from_backend_events() {
    let settings = Settings::default();
    let session = fresh();
    let backend = Uuid { bits: 9 };
    let mut controller = connected(&settings);
    assert_eq!(controller.model.settings, settings);
    assert_eq!(controller.model.settings_revision, 4);
    assert_eq!(controller.model.state, DictationState::Idle);
    assert_eq!(controller.model.audio_devices.len(), 1);
    assert_eq!(controller.model.diagnostics.len(), 1);

    assert!(matches!(controller.start_or_stop(), Ok(RecordCommand::Start(_))));
    controller.started(RecordingStartResponse {
        session_id: session,
        state: DictationState::Recording,
    });
    let begun = [
        (
            "state.changed",
            changed(DictationState::Idle, DictationState::Recording, Some(session)),
        ),
        (
            "recording.level",
            Ok(ReceivedEvent::RecordingLevel(RecordingLevelEvent {
                session_id: session,
                level_bits: 0.72_f32.to_bits(),
            })),
        ),
        (
            "transcript.partial",
            Ok(ReceivedEvent::TranscriptPartial(TranscriptPartialEvent {
                session_id: session,
                text: "texto parcial".into(),
            })),
        ),
    ];
    let mut sequence = 0;
    for (name, payload) in begun {
        sequence += 1;
        let asked = controller.next_event(&event(name, backend, sequence), payload);
        assert_eq!(asked, Ok(vec![]));
    }
    assert_eq!(controller.model.state, DictationState::Recording);
    assert_eq!(controller.model.partial_text, "texto parcial");
    assert!((f32::from_bits(controller.model.audio_level_bits) - 0.72).abs() < f32::EPSILON);

    assert!(matches!(
        controller.start_or_stop(),
        Ok(RecordCommand::Stop(stop)) if stop.session_id == session
    ));
    let ended = [
        (
            "state.changed",
            changed(DictationState::Recording, DictationState::Transcribing, Some(session)),
        ),
        (
            "state.changed",
            changed(DictationState::Transcribing, DictationState::PostProcessing, Some(session)),
        ),
        (
            "state.changed",
            changed(DictationState::PostProcessing, DictationState::Injecting, Some(session)),
        ),
        (
            "transcript.final",
            Ok(ReceivedEvent::TranscriptFinal(TranscriptFinalEvent {
                session_id: session,
                raw_text: "texto bruto".into(),
                processed_text: "Texto final.".into(),
                rewritten_text: None,
                output_text: "Texto final.".into(),
                post_processed: true,
                prompt_rewritten: false,
                insertion: InsertionOutcome {
                    status: InsertionStatus::Inserted,
                    method: "keyboard".into(),
                },
                transcription_backend: "local-whisper".into(),
                language: "pt".into(),
                duration_ms: 920,
            })),
        ),
        (
            "state.changed",
            changed(DictationState::Injecting, DictationState::Idle, Some(session)),
        ),
    ];
    for (name, payload) in ended {
        sequence += 1;
        let asked = controller.next_event(&event(name, backend, sequence), payload);
        assert_eq!(asked, Ok(vec![]));
    }
    assert_eq!(controller.model.state, DictationState::Idle);
    assert!(controller.model.partial_text.is_empty());
    assert_eq!(f32::from_bits(controller.model.audio_level_bits), 0.0);
}

#[test]
fn stale_settings_conflict_is_preserved_for_the_ui() {
    let settings = Settings::default();
    let mut controller = connected(&settings);
    let request = controller.save_settings(controller.model.settings.clone()).unwrap();
    assert_eq!(request.expected_revision, 4);
    let error = ClientError::Protocol(ProtocolError {
        code: StableErrorCode::Conflict,
        message: "settings revision is stale".into(),
        retryable: true,
        details: vec![],
    });
    controller.save_failed(&error);
    assert!(format!("{error:?}").contains("settings revision is stale"));
    assert_eq!(controller.model.settings_revision, 4);
    assert_eq!(controller.model.settings_error_field.as_deref(), Some("settings"));
    let mut updated = settings;
    updated.general.language = "en".into();
    controller
        .reload_settings(
            &response("settings.get"),
            Ok(SettingsResponse { revision: 5, settings: updated }),
        )
        .unwrap();
    assert_eq!(controller.model.settings_revision, 5);
    assert_eq!(controller.model.settings.general.language, "en");
}

#[test]
fn unreadable_answers_change_nothing() {
    let mut controller = connected(&Settings::default());
    let before = controller.model.clone();
    assert_eq!(
        controller.take_answer(Exchange::Hello, &response("client.hello"), Err("cut".into())),
        Err(ControllerError::Encode("cut".into()))
    );
    assert_eq!(
        controller.take_answer(Exchange::State, &response("state.get"), Err("cut".into())),
        Err(ControllerError::ViewModel(ViewModelError::Payload("cut".into())))
    );
    let answer = scripted_answer(Exchange::History, &Settings::default());
    assert_eq!(
        controller.take_answer(Exchange::History, &response("state.get"), Ok(answer)),
        Err(ControllerError::ViewModel(ViewModelError::UnexpectedMessage("state.get".into())))
    );
    assert_eq!(controller.model, before);
    assert_eq!(controller.model.capabilities.len(), 3);
}

#[test]
fn the_session_reconnects_until_it_is_closed() {
    let mut model = connected(&Settings::default()).model;
    let known = model.clone();
    assert_eq!(
        session_step(&mut model, SessionEvent::CommandDone { result: Err("refused".into()) }),
        SessionStep::Poll { for_ms: 100 }
    );
    assert_eq!(model.error.as_deref(), Some("refused"));
    assert_eq!(model.instance_id, known.instance_id);
    assert_eq!(
        session_step(&mut model, SessionEvent::EventFailed { reason: "gone".into() }),
        SessionStep::Connect { after_ms: 400 }
    );
    assert_eq!(model.error.as_deref(), Some("gone"));
    assert_eq!(
        session_step(&mut model, SessionEvent::ConnectFailed { reason: "no socket".into() }),
        SessionStep::Connect { after_ms: 1000 }
    );
    assert_eq!(model.error.as_deref(), Some("Backend unavailable: no socket"));
    assert_eq!(model.instance_id, None);
    assert_eq!(session_step(&mut model, SessionEvent::Connected), SessionStep::Bootstrap);
    assert_eq!(model, GuiViewModel::default());
    assert_eq!(
        session_step(&mut model, SessionEvent::BootstrapFailed { reason: "old".into() }),
        SessionStep::Connect { after_ms: 1000 }
    );
    assert_eq!(model.error.as_deref(), Some("old"));
    for event in [
        SessionEvent::Bootstrapped,
        SessionEvent::CommandDone { result: Ok(()) },
        SessionEvent::EventTaken,
        SessionEvent::Quiet,
    ] {
        assert_eq!(session_step(&mut model, event), SessionStep::Poll { for_ms: 100 });
    }
    assert_eq!(session_step(&mut model, SessionEvent::Closed), SessionStep::Stop);
}

#[test]
fn the_overlay_stands_on_a_known_screen() {
    let screen = Screen { x: 100, y: 50, width: 1920, height: 1080 };
    let other = Screen { x: 0, y: 0, width: 800, height: 600 };
    let place = |a, b| position_overlay(a, b, 520, 168, ScreenAnchor::TopLeft);
    assert_eq!(place(None, None), None);
    assert_eq!(place(Some(screen), Some(other)), Some((124, 74)));
    assert_eq!(place(None, Some(other)), Some((24, 24)));
}
