use speakiput::contract::codec::{
    accept_envelope, decode_frame, encode_frame, frame_payload, payload_length, FrameError,
    MAX_FRAME_BYTES,
};
use speakiput::contract::dto::DictationState;
use speakiput::contract::envelope::{
    valid_message_name, Detail, Envelope, EnvelopeError, MessageKind, ProtocolError,
    StableErrorCode, PROTOCOL_VERSION,
};
use speakiput::contract::ids::{uuid_string, Timestamp, Uuid};
use speakiput::contract::settings::{valid_shortcut, OutputMode, Settings};

fn fresh() -> Uuid {
    Uuid { bits: uuid::Uuid::new_v4().as_u128() }
}

fn envelope_json(envelope: &Envelope) -> serde_json::Value {
    let mut object = serde_json::Map::new();
    object.insert("name".into(), serde_json::Value::String(envelope.name.clone()));
    object.insert(
        "protocol_version".into(),
        serde_json::Value::String(envelope.protocol_version.clone()),
    );
    object.insert(
        "payload".into(),
        serde_json::from_str(&envelope.payload).unwrap(),
    );
    serde_json::Value::Object(object)
}

fn conflict() -> ProtocolError {
    ProtocolError {
        code: StableErrorCode::Conflict,
        message: "stale".into(),
        retryable: true,
        details: vec![("expected".into(), Detail::Number(1))],
    }
}

#[test]
fn round_trips_a_frame() {
    let envelope = Envelope::request("state.get", "{}".into());
    let value = envelope_json(&envelope);
    let body = serde_json::to_vec(&value).unwrap();
    let frame = encode_frame(&envelope, &body).unwrap();
    let decoded = decode_frame(&frame).unwrap();
    assert_eq!(decoded, body);
    assert_eq!(serde_json::from_slice::<serde_json::Value>(&decoded).unwrap(), value);
    assert_eq!(accept_envelope(envelope.clone()).unwrap(), envelope);
}

#[test]
fn rejects_oversized_header_before_allocating() {
    let frame = 1_048_577_u32.to_be_bytes();
    assert!(matches!(decode_frame(&frame), Err(FrameError::TooLarge { .. })));
    assert!(matches!(payload_length(&frame), Err(FrameError::TooLarge { .. })));
}

#[test]
fn frame_lengths_are_big_endian() {
    assert_eq!(frame_payload(&[7, 8, 9]).unwrap(), vec![0, 0, 0, 3, 7, 8, 9]);
    assert_eq!(payload_length(&[0, 1, 2, 3]).unwrap(), 66_051);
    assert_eq!(frame_payload(&[]).unwrap(), vec![0, 0, 0, 0]);
}

#[test]
fn truncated_and_padded_frames_are_refused() {
    assert_eq!(decode_frame(&[0, 0]), Err(FrameError::TruncatedHeader));
    assert_eq!(
        decode_frame(&[0, 0, 0, 2, 5]),
        Err(FrameError::TruncatedPayload { expected: 2, actual: 1 })
    );
    assert_eq!(
        decode_frame(&[0, 0, 0, 1, 5, 6]),
        Err(FrameError::TruncatedPayload { expected: 1, actual: 2 })
    );
}

#[test]
fn oversized_bodies_are_not_framed() {
    let body = vec![0; MAX_FRAME_BYTES + 1];
    let error = frame_payload(&body).unwrap_err();
    assert_eq!(
        error.message(),
        "frame payload is 1048577 bytes; maximum is 1048576"
    );
    assert!(frame_payload(&body[1..]).is_ok());
}

#[test]
fn frame_errors_read_well() {
    assert_eq!(FrameError::TruncatedHeader.message(), "truncated frame header");
    assert_eq!(
        FrameError::TruncatedPayload { expected: 3, actual: 0 }.message(),
        "truncated frame payload: expected 3 bytes, got 0"
    );
    assert_eq!(FrameError::Io("gone".into()).message(), "frame I/O failed: gone");
    assert_eq!(FrameError::Json("bad".into()).message(), "frame JSON is invalid: bad");
    assert_eq!(
        FrameError::Envelope(EnvelopeError::PayloadNotObject).message(),
        "invalid protocol envelope: payload must be a JSON object"
    );
}

#[test]
fn invalid_envelopes_are_not_framed() {
    let mut envelope = Envelope::request("state.get", "[]".into());
    assert_eq!(
        encode_frame(&envelope, &[]),
        Err(FrameError::Envelope(EnvelopeError::PayloadNotObject))
    );
    envelope.payload = "not json".into();
    assert_eq!(envelope.validate(), Err(EnvelopeError::PayloadNotObject));
}

#[test]
fn envelopes_are_checked_by_kind() {
    let request = Envelope::request("state.get", "{}".into());
    assert_eq!(request.validate(), Ok(()));
    assert_eq!(request.protocol_version, PROTOCOL_VERSION);

    let mut numbered = request.clone();
    numbered.sequence = Some(1);
    assert_eq!(numbered.validate(), Err(EnvelopeError::InvalidRequestMetadata));

    let response = Envelope::response(&request, fresh(), "{\"a\":1}".into());
    assert_eq!(response.validate(), Ok(()));
    assert_eq!(response.correlation_id, Some(request.message_id));
    let mut orphan = response.clone();
    orphan.correlation_id = None;
    assert_eq!(orphan.validate(), Err(EnvelopeError::IncompleteResponse));

    let event = Envelope::event("history.cleared", fresh(), 1, "{}".into());
    assert_eq!(event.validate(), Ok(()));
    let mut unnumbered = event.clone();
    unnumbered.sequence = Some(0);
    assert_eq!(unnumbered.validate(), Err(EnvelopeError::IncompleteEvent));

    let mut renamed = request.clone();
    renamed.name = "State".into();
    assert_eq!(renamed.validate(), Err(EnvelopeError::InvalidName));

    let mut older = request.clone();
    older.protocol_version = "0.9".into();
    let error = older.validate().unwrap_err();
    assert_eq!(error, EnvelopeError::ProtocolVersion("0.9".into()));
    assert_eq!(error.message(), "unsupported protocol version 0.9");
}

#[test]
fn error_responses_have_an_empty_payload() {
    let request = Envelope::request("settings.replace", "{}".into());
    let response = Envelope::error_response(&request, fresh(), conflict());
    assert_eq!(response.payload, "{}");
    assert_eq!(response.validate(), Ok(()));
    assert_eq!(response.kind, MessageKind::Response);
    let mut filled = response;
    filled.payload = "{\"left\":1}".into();
    assert_eq!(filled.validate(), Err(EnvelopeError::NonEmptyErrorPayload));
}

#[test]
fn payload_members_decide_validity() {
    let request = Envelope::request_at(
        Uuid { bits: 1 },
        Timestamp { seconds: 2, nanoseconds: 3 },
        "state.get",
        "anything".into(),
    );
    assert_eq!(request.validate_with(Some(0)), Ok(()));
    assert_eq!(request.validate_with(Some(4)), Ok(()));
    assert_eq!(request.validate_with(None), Err(EnvelopeError::PayloadNotObject));
}

#[test]
fn fresh_messages_carry_random_ids_and_the_time() {
    let first = Envelope::request("state.get", "{}".into());
    let second = Envelope::request("state.get", "{}".into());
    assert_ne!(first.message_id, second.message_id);
    assert_eq!((first.message_id.bits >> 76) & 0xf, 4);
    assert!(first.sent_at.seconds > 1_600_000_000);
    assert!(first.sent_at.nanoseconds < 1_000_000_000);
}

#[test]
fn message_names_are_dotted_identifiers() {
    for name in ["state.get", "audio_devices.list", "a.b2.c_d"] {
        assert!(valid_message_name(name), "{name}");
    }
    for name in ["state", "state.", ".get", "State.get", "state.2", "a..b", ""] {
        assert!(!valid_message_name(name), "{name}");
    }
}

#[test]
fn every_stable_error_code_round_trips() {
    for code in [
        StableErrorCode::InvalidArgument,
        StableErrorCode::InvalidState,
        StableErrorCode::NotFound,
        StableErrorCode::Conflict,
        StableErrorCode::Unavailable,
        StableErrorCode::PermissionDenied,
        StableErrorCode::Timeout,
        StableErrorCode::Unsupported,
        StableErrorCode::ProtocolMismatch,
        StableErrorCode::Internal,
    ] {
        assert_eq!(StableErrorCode::parse(code.as_str()), Some(code));
    }
    assert_eq!(StableErrorCode::parse("unknown"), None);
}

#[test]
fn state_transition_table_rejects_invalid_shortcuts() {
    assert!(DictationState::Idle.can_transition_to(DictationState::Recording));
    assert!(DictationState::Recording.can_transition_to(DictationState::Transcribing));
    assert!(!DictationState::Idle.can_transition_to(DictationState::Injecting));
    assert!(!DictationState::Recording.can_transition_to(DictationState::PostProcessing));
}

#[test]
fn default_settings_are_valid_and_ranges_are_enforced() {
    let mut settings = Settings::default();
    settings.validate().unwrap();
    settings.post_processing.prompt_rewrite_enabled = true;
    settings.post_processing.prompt_rewrite_instruction.clear();
    assert_eq!(
        settings.validate().unwrap_err().field,
        "post_processing.prompt_rewrite_instruction"
    );
    settings.post_processing.prompt_rewrite_instruction = Settings::default()
        .post_processing
        .prompt_rewrite_instruction;
    settings.audio.noise_gate_threshold = 0;
    assert_eq!(
        settings.validate().unwrap_err().field,
        "audio.noise_gate_threshold"
    );
    settings.audio.noise_gate_threshold = 3;
    settings.audio.speech_confirmation_ms = 60;
    settings.validate().unwrap();
    settings.audio.speech_confirmation_ms = 1_001;
    assert_eq!(
        settings.validate().unwrap_err().field,
        "audio.speech_confirmation_ms"
    );
    settings.audio.speech_confirmation_ms = 180;
    settings.general.auto_stop_ms = 0;
    assert_eq!(
        settings.validate().unwrap_err().field,
        "general.auto_stop_ms"
    );
}

#[test]
fn every_setting_is_checked() {
    let field = |change: fn(&mut Settings)| {
        let mut settings = Settings::default();
        change(&mut settings);
        settings.validate().unwrap_err().field
    };
    assert_eq!(field(|s| s.schema_version = 2), "schema_version");
    assert_eq!(field(|s| s.general.language = " ".into()), "general.language");
    assert_eq!(field(|s| s.general.auto_stop_ms = 10_001), "general.auto_stop_ms");
    assert_eq!(field(|s| s.audio.phrase_silence_ms = 99), "audio.phrase_silence_ms");
    assert_eq!(field(|s| s.audio.input_device_id = "\t".into()), "audio.input_device_id");
    assert_eq!(field(|s| s.transcription.model_id.clear()), "transcription");
    assert_eq!(field(|s| s.post_processing.endpoint.clear()), "post_processing");
    assert_eq!(field(|s| s.output.key_delay_ms = 1_001), "output.key_delay_ms");
    assert_eq!(field(|s| s.shortcut.record = "Space".into()), "shortcut.record");
    let mut off = Settings::default();
    off.post_processing.enabled = false;
    off.post_processing.endpoint.clear();
    off.output.mode = OutputMode::Nothing;
    assert!(off.validate().is_ok());
}

#[test]
fn shortcuts_need_a_modifier_and_one_key() {
    for shortcut in ["Super+Shift+Space", "ctrl + a", "Alt++F4"] {
        assert!(valid_shortcut(shortcut), "{shortcut}");
    }
    for shortcut in ["", "Super", "A", "Ctrl+A+B", "+"] {
        assert!(!valid_shortcut(shortcut), "{shortcut}");
    }
}

#[test]
fn identifiers_are_written_in_groups() {
    let id = uuid::Uuid::new_v4();
    assert_eq!(uuid_string(Uuid { bits: id.as_u128() }), id.to_string());
    assert_eq!(
        uuid_string(Uuid { bits: 0x67e5_5044_10b1_426f_9247_bb68_0e5f_e0c8 }),
        "67e55044-10b1-426f-9247-bb680e5fe0c8"
    );
}
