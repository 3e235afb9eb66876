//! Envelopes: what every message carries besides its payload.

use vstd::prelude::*;
use vstd::string::*;

use crate::contract::ids::{fresh_uuid, is_random_uuid, utc_now, Timestamp, Uuid};
use crate::json::{json_text, read_json_text, Json};
use crate::split::{pieces, pieces_extend, split, Delimiter};
use crate::text::{chars_of, same_text, views};

verus! {

broadcast use vstd::string::group_string_axioms;

/// The protocol version that both sides speak.
pub const PROTOCOL_VERSION: &'static str = "1.0";

#[derive(Clone, Copy, PartialEq, Eq, Structural, Debug)]
pub enum MessageKind {
    Request,
    Response,
    Event,
}

#[derive(Clone, Copy, PartialEq, Eq, Structural, Debug)]
pub enum StableErrorCode {
    InvalidArgument,
    InvalidState,
    NotFound,
    Conflict,
    Unavailable,
    PermissionDenied,
    Timeout,
    Unsupported,
    ProtocolMismatch,
    Internal,
}

/// The name of an error code on the wire.
pub open spec fn code_name(code: StableErrorCode) -> Seq<char> {
    match code {
        StableErrorCode::InvalidArgument => "invalid_argument"@,
        StableErrorCode::InvalidState => "invalid_state"@,
        StableErrorCode::NotFound => "not_found"@,
        StableErrorCode::Conflict => "conflict"@,
        StableErrorCode::Unavailable => "unavailable"@,
        StableErrorCode::PermissionDenied => "permission_denied"@,
        StableErrorCode::Timeout => "timeout"@,
        StableErrorCode::Unsupported => "unsupported"@,
        StableErrorCode::ProtocolMismatch => "protocol_mismatch"@,
        StableErrorCode::Internal => "internal"@,
    }
}

/// The error code of a name on the wire.
pub open spec fn code_named(name: Seq<char>) -> Option<StableErrorCode> {
    if name == "invalid_argument"@ {
        Some(StableErrorCode::InvalidArgument)
    } else if name == "invalid_state"@ {
        Some(StableErrorCode::InvalidState)
    } else if name == "not_found"@ {
        Some(StableErrorCode::NotFound)
    } else if name == "conflict"@ {
        Some(StableErrorCode::Conflict)
    } else if name == "unavailable"@ {
        Some(StableErrorCode::Unavailable)
    } else if name == "permission_denied"@ {
        Some(StableErrorCode::PermissionDenied)
    } else if name == "timeout"@ {
        Some(StableErrorCode::Timeout)
    } else if name == "unsupported"@ {
        Some(StableErrorCode::Unsupported)
    } else if name == "protocol_mismatch"@ {
        Some(StableErrorCode::ProtocolMismatch)
    } else if name == "internal"@ {
        Some(StableErrorCode::Internal)
    } else {
        None
    }
}

impl StableErrorCode {
    /// The name of the code on the wire.
    pub fn as_str(self) -> (result: &'static str)
        ensures
            result@ == code_name(self),
    {
        match self {
            StableErrorCode::InvalidArgument => "invalid_argument",
            StableErrorCode::InvalidState => "invalid_state",
            StableErrorCode::NotFound => "not_found",
            StableErrorCode::Conflict => "conflict",
            StableErrorCode::Unavailable => "unavailable",
            StableErrorCode::PermissionDenied => "permission_denied",
            StableErrorCode::Timeout => "timeout",
            StableErrorCode::Unsupported => "unsupported",
            StableErrorCode::ProtocolMismatch => "protocol_mismatch",
            StableErrorCode::Internal => "internal",
        }
    }

    /// The code of a name on the wire.
    pub fn parse(name: &str) -> (result: Option<Self>)
        ensures
            result == code_named(name@),
    {
        if same_text(name, "invalid_argument") {
            Some(StableErrorCode::InvalidArgument)
        } else if same_text(name, "invalid_state") {
            Some(StableErrorCode::InvalidState)
        } else if same_text(name, "not_found") {
            Some(StableErrorCode::NotFound)
        } else if same_text(name, "conflict") {
            Some(StableErrorCode::Conflict)
        } else if same_text(name, "unavailable") {
            Some(StableErrorCode::Unavailable)
        } else if same_text(name, "permission_denied") {
            Some(StableErrorCode::PermissionDenied)
        } else if same_text(name, "timeout") {
            Some(StableErrorCode::Timeout)
        } else if same_text(name, "unsupported") {
            Some(StableErrorCode::Unsupported)
        } else if same_text(name, "protocol_mismatch") {
            Some(StableErrorCode::ProtocolMismatch)
        } else if same_text(name, "internal") {
            Some(StableErrorCode::Internal)
        } else {
            None
        }
    }
}

/// Reading the name of a code gives the code back.
pub proof fn error_codes_read_back(code: StableErrorCode)
    ensures
        code_named(code_name(code)) == Some(code),
{
    reveal_strlit("invalid_argument");
    reveal_strlit("invalid_state");
    reveal_strlit("not_found");
    reveal_strlit("conflict");
    reveal_strlit("unavailable");
    reveal_strlit("permission_denied");
    reveal_strlit("timeout");
    reveal_strlit("unsupported");
    reveal_strlit("protocol_mismatch");
    reveal_strlit("internal");
    assert("invalid_argument"@.len() == 16);
    assert("invalid_state"@.len() == 13);
    assert("not_found"@.len() == 9);
    assert("conflict"@.len() == 8 && "conflict"@[0] == 'c');
    assert("unavailable"@.len() == 11 && "unavailable"@[2] == 'a');
    assert("permission_denied"@.len() == 17 && "permission_denied"@[1] == 'e');
    assert("timeout"@.len() == 7);
    assert("unsupported"@.len() == 11 && "unsupported"@[2] == 's');
    assert("protocol_mismatch"@.len() == 17 && "protocol_mismatch"@[1] == 'r');
    assert("internal"@.len() == 8 && "internal"@[0] == 'i');
}

/// One detail of an error.
#[derive(Clone, PartialEq, Eq, Debug)]
pub enum Detail {
    Number(u64),
    Text(String),
    /// Any other value, as its JSON text.
    Json(String),
}

#[derive(Clone, PartialEq, Eq, Debug)]
pub struct ProtocolError {
    pub code: StableErrorCode,
    pub message: String,
    pub retryable: bool,
    pub details: Vec<(String, Detail)>,
}

/// A message. The payload is held as its JSON text.
#[derive(Clone, PartialEq, Eq, Debug)]
pub struct Envelope {
    pub protocol_version: String,
    pub message_id: Uuid,
    pub kind: MessageKind,
    pub name: String,
    pub sent_at: Timestamp,
    pub correlation_id: Option<Uuid>,
    pub instance_id: Option<Uuid>,
    pub sequence: Option<u64>,
    pub payload: String,
    pub error: Option<ProtocolError>,
}

#[derive(Clone, PartialEq, Eq, Debug)]
pub enum EnvelopeError {
    ProtocolVersion(String),
    InvalidName,
    PayloadNotObject,
    IncompleteResponse,
    IncompleteEvent,
    InvalidRequestMetadata,
    NonEmptyErrorPayload,
}

/// How many members the JSON object has that a text writes; `None` for a text that writes
/// no JSON object.
pub open spec fn json_members(text: Seq<char>) -> Option<nat> {
    match json_text(text) {
        Ok(Json::Object(members)) => Some(members@.len()),
        _ => None,
    }
}

fn count_json_members(text: &str) -> (members: Option<usize>)
    ensures
        match members {
            Some(n) => json_members(text@) == Some(n as nat),
            None => json_members(text@) is None,
        },
        text@ == "{}"@ ==> members == Some(0usize),
{
    match read_json_text(text) {
        Ok(Json::Object(members)) => Some(members.len()),
        _ => None,
    }
}

// ---------------------------------------------------------------------------
// Names
// ---------------------------------------------------------------------------

/// A lower-case ASCII letter.
pub open spec fn is_ascii_lowercase(c: char) -> bool {
    'a' <= c && c <= 'z'
}

/// A lower-case letter followed by lower-case letters, digits and underscores.
pub open spec fn is_identifier(part: Seq<char>) -> bool {
    &&& part.len() > 0
    &&& is_ascii_lowercase(part[0])
    &&& forall|i: int|
        0 <= i < part.len() ==> is_ascii_lowercase(#[trigger] part[i]) || ('0' <= part[i]
            && part[i] <= '9') || part[i] == '_'
}

/// Two identifiers or more with dots between them.
pub open spec fn is_message_name(name: Seq<char>) -> bool {
    let parts = pieces(name, Delimiter::Char('.'));
    parts.len() >= 2 && forall|i: int| 0 <= i < parts.len() ==> is_identifier(#[trigger] parts[i])
}

/// Whether a part of a message name is an identifier.
pub fn valid_identifier(part: &str) -> (result: bool)
    ensures
        result == is_identifier(part@),
{
    let chars = chars_of(part);
    if chars.len() == 0 {
        return false;
    }
    if !('a' <= chars[0] && chars[0] <= 'z') {
        return false;
    }
    let mut i: usize = 0;
    while i < chars.len()
        invariant
            i <= chars.len(),
            chars@ == part@,
            forall|k: int|
                0 <= k < i ==> is_ascii_lowercase(#[trigger] part@[k]) || ('0' <= part@[k]
                    && part@[k] <= '9') || part@[k] == '_',
        decreases chars.len() - i,
    {
        let c = chars[i];
        if !(('a' <= c && c <= 'z') || ('0' <= c && c <= '9') || c == '_') {
            assert(part@[i as int] == c);
            return false;
        }
        i += 1;
    }
    true
}

/// Whether a text can name a message.
pub fn valid_message_name(name: &str) -> (result: bool)
    ensures
        result == is_message_name(name@),
{
    let parts = split(name, Delimiter::Char('.'));
    let ghost all = pieces(name@, Delimiter::Char('.'));
    assert(views(parts@).len() == all.len());
    if parts.len() < 2 {
        return false;
    }
    let mut i: usize = 0;
    while i < parts.len()
        invariant
            i <= parts.len(),
            all == pieces(name@, Delimiter::Char('.')),
            views(parts@) == all,
            forall|k: int| 0 <= k < i ==> is_identifier(#[trigger] all[k]),
        decreases parts.len() - i,
    {
        assert(all[i as int] == parts@[i as int]@);
        if !valid_identifier(parts[i].as_str()) {
            return false;
        }
        i += 1;
    }
    true
}

// ---------------------------------------------------------------------------
// Validity
// ---------------------------------------------------------------------------

/// What is wrong with an envelope whose payload is an object of so many members (`None`:
/// no object); the first fault found, in this order.
pub open spec fn envelope_fault(e: Envelope, members: Option<nat>) -> Option<EnvelopeError> {
    if e.protocol_version@ != PROTOCOL_VERSION@ {
        Some(EnvelopeError::ProtocolVersion(e.protocol_version))
    } else if !is_message_name(e.name@) {
        Some(EnvelopeError::InvalidName)
    } else if members is None {
        Some(EnvelopeError::PayloadNotObject)
    } else if e.kind is Request && (e.correlation_id is Some || e.sequence is Some) {
        Some(EnvelopeError::InvalidRequestMetadata)
    } else if e.kind is Response && (e.correlation_id is None || e.instance_id is None) {
        Some(EnvelopeError::IncompleteResponse)
    } else if e.kind is Event && (e.instance_id is None || e.sequence is None || e.sequence
        == Some(0u64)) {
        Some(EnvelopeError::IncompleteEvent)
    } else if e.error is Some && members != Some(0nat) {
        Some(EnvelopeError::NonEmptyErrorPayload)
    } else {
        None
    }
}

/// The envelope has no fault.
pub open spec fn envelope_valid(e: Envelope) -> bool {
    envelope_fault(e, json_members(e.payload@)) is None
}

/// An optional count as a mathematical number.
pub open spec fn opt_nat(n: Option<usize>) -> Option<nat> {
    match n {
        Some(k) => Some(k as nat),
        None => None,
    }
}

impl Envelope {
    /// A request with a given identifier and time.
    pub fn request_at(
        message_id: Uuid,
        sent_at: Timestamp,
        name: &str,
        payload: String,
    ) -> (result: Self)
        ensures
            result.protocol_version@ == PROTOCOL_VERSION@,
            result.message_id == message_id,
            result.kind is Request,
            result.name@ == name@,
            result.sent_at == sent_at,
            result.correlation_id is None,
            result.instance_id is None,
            result.sequence is None,
            result.payload == payload,
            result.error is None,
    {
        Self {
            protocol_version: String::from_str(PROTOCOL_VERSION),
            message_id,
            kind: MessageKind::Request,
            name: String::from_str(name),
            sent_at,
            correlation_id: None,
            instance_id: None,
            sequence: None,
            payload,
            error: None,
        }
    }

    /// A request with a fresh identifier, sent now.
    #[must_use]
    pub fn request(name: &str, payload: String) -> (result: Self)
        ensures
            is_random_uuid(result.message_id),
            result.sent_at.seconds >= 0,
            result.protocol_version@ == PROTOCOL_VERSION@,
            result.kind is Request,
            result.name@ == name@,
            result.correlation_id is None,
            result.instance_id is None,
            result.sequence is None,
            result.payload == payload,
            result.error is None,
    {
        Self::request_at(fresh_uuid(), utc_now(), name, payload)
    }

    /// The response to a request, with a given identifier and time.
    pub fn response_at(
        message_id: Uuid,
        sent_at: Timestamp,
        request: &Self,
        instance_id: Uuid,
        payload: String,
    ) -> (result: Self)
        ensures
            result == (Envelope {
                protocol_version: request.protocol_version,
                message_id,
                kind: MessageKind::Response,
                name: request.name,
                sent_at,
                correlation_id: Some(request.message_id),
                instance_id: Some(instance_id),
                sequence: None,
                payload,
                error: None,
            }),
    {
        Self {
            protocol_version: request.protocol_version.clone(),
            message_id,
            kind: MessageKind::Response,
            name: request.name.clone(),
            sent_at,
            correlation_id: Some(request.message_id),
            instance_id: Some(instance_id),
            sequence: None,
            payload,
            error: None,
        }
    }

    /// The response to a request, sent now.
    #[must_use]
    pub fn response(request: &Self, instance_id: Uuid, payload: String) -> (result: Self)
        ensures
            is_random_uuid(result.message_id),
            result.sent_at.seconds >= 0,
            result == (Envelope {
                protocol_version: request.protocol_version,
                message_id: result.message_id,
                kind: MessageKind::Response,
                name: request.name,
                sent_at: result.sent_at,
                correlation_id: Some(request.message_id),
                instance_id: Some(instance_id),
                sequence: None,
                payload,
                error: None,
            }),
    {
        Self::response_at(fresh_uuid(), utc_now(), request, instance_id, payload)
    }

    /// The response to a request that failed, sent now: an empty payload and the error.
    #[must_use]
    pub fn error_response(
        request: &Self,
        instance_id: Uuid,
        error: ProtocolError,
    ) -> (result: Self)
        ensures
            is_random_uuid(result.message_id),
            result.sent_at.seconds >= 0,
            result.payload@ == "{}"@,
            result == (Envelope {
                protocol_version: request.protocol_version,
                message_id: result.message_id,
                kind: MessageKind::Response,
                name: request.name,
                sent_at: result.sent_at,
                correlation_id: Some(request.message_id),
                instance_id: Some(instance_id),
                sequence: None,
                payload: result.payload,
                error: Some(error),
            }),
    {
        let mut response = Self::response(request, instance_id, String::from_str("{}"));
        response.error = Some(error);
        response
    }

    /// An event with a given identifier and time.
    pub fn event_at(
        message_id: Uuid,
        sent_at: Timestamp,
        name: &str,
        instance_id: Uuid,
        sequence: u64,
        payload: String,
    ) -> (result: Self)
        ensures
            result.protocol_version@ == PROTOCOL_VERSION@,
            result.message_id == message_id,
            result.kind is Event,
            result.name@ == name@,
            result.sent_at == sent_at,
            result.correlation_id is None,
            result.instance_id == Some(instance_id),
            result.sequence == Some(sequence),
            result.payload == payload,
            result.error is None,
    {
        Self {
            protocol_version: String::from_str(PROTOCOL_VERSION),
            message_id,
            kind: MessageKind::Event,
            name: String::from_str(name),
            sent_at,
            correlation_id: None,
            instance_id: Some(instance_id),
            sequence: Some(sequence),
            payload,
            error: None,
        }
    }

    /// An event, sent now.
    #[must_use]
    pub fn event(name: &str, instance_id: Uuid, sequence: u64, payload: String) -> (result: Self)
        ensures
            is_random_uuid(result.message_id),
            result.sent_at.seconds >= 0,
            result.protocol_version@ == PROTOCOL_VERSION@,
            result.kind is Event,
            result.name@ == name@,
            result.correlation_id is None,
            result.instance_id == Some(instance_id),
            result.sequence == Some(sequence),
            result.payload == payload,
            result.error is None,
    {
        Self::event_at(fresh_uuid(), utc_now(), name, instance_id, sequence, payload)
    }

    /// Checks the envelope, given how many members its payload has as an object.
    pub fn validate_with(&self, members: Option<usize>) -> (result: Result<(), EnvelopeError>)
        ensures
            match result {
                Ok(()) => envelope_fault(*self, opt_nat(members)) is None,
                Err(error) => envelope_fault(*self, opt_nat(members)) == Some(error),
            },
    {
        if !same_text(self.protocol_version.as_str(), PROTOCOL_VERSION) {
            return Err(EnvelopeError::ProtocolVersion(self.protocol_version.clone()));
        }
        if !valid_message_name(self.name.as_str()) {
            return Err(EnvelopeError::InvalidName);
        }
        let count: usize = match members {
            Some(count) => count,
            None => {
                return Err(EnvelopeError::PayloadNotObject);
            },
        };
        match self.kind {
            MessageKind::Request => {
                if self.correlation_id.is_some() || self.sequence.is_some() {
                    return Err(EnvelopeError::InvalidRequestMetadata);
                }
            },
            MessageKind::Response => {
                if self.correlation_id.is_none() || self.instance_id.is_none() {
                    return Err(EnvelopeError::IncompleteResponse);
                }
            },
            MessageKind::Event => {
                let numbered = match self.sequence {
                    Some(sequence) => sequence != 0,
                    None => false,
                };
                if self.instance_id.is_none() || !numbered {
                    return Err(EnvelopeError::IncompleteEvent);
                }
            },
        }
        if self.error.is_some() && count != 0 {
            return Err(EnvelopeError::NonEmptyErrorPayload);
        }
        Ok(())
    }

    /// Checks the envelope.
    pub fn validate(&self) -> (result: Result<(), EnvelopeError>)
        ensures
            match result {
                Ok(()) => envelope_valid(*self),
                Err(error) => envelope_fault(*self, json_members(self.payload@)) == Some(error),
            },
            self.payload@ == "{}"@ ==> match result {
                Ok(()) => envelope_fault(*self, Some(0nat)) is None,
                Err(error) => envelope_fault(*self, Some(0nat)) == Some(error),
            },
    {
        self.validate_with(count_json_members(self.payload.as_str()))
    }
}

/// What an envelope's fault says to a reader.
pub open spec fn fault_text(fault: EnvelopeError) -> Seq<char> {
    match fault {
        EnvelopeError::ProtocolVersion(version) => "unsupported protocol version "@
            + version@,
        EnvelopeError::InvalidName => "message name must contain at least one dot and use lowercase identifiers"@,
        EnvelopeError::PayloadNotObject => "payload must be a JSON object"@,
        EnvelopeError::IncompleteResponse => "response requires correlation_id and instance_id"@,
        EnvelopeError::IncompleteEvent => "event requires instance_id and a positive sequence"@,
        EnvelopeError::InvalidRequestMetadata => "request must not have correlation_id or sequence"@,
        EnvelopeError::NonEmptyErrorPayload => "error responses must use an empty payload"@,
    }
}

impl EnvelopeError {
    /// What the error says to a reader.
    pub fn message(&self) -> (result: String)
        ensures
            result@ == fault_text(*self),
    {
        match self {
            EnvelopeError::ProtocolVersion(version) => {
                let mut text = String::from_str("unsupported protocol version ");
                text.append(version.as_str());
                text
            },
            EnvelopeError::InvalidName => {
                String::from_str(
                    "message name must contain at least one dot and use lowercase identifiers",
                )
            },
            EnvelopeError::PayloadNotObject => String::from_str("payload must be a JSON object"),
            EnvelopeError::IncompleteResponse => {
                String::from_str("response requires correlation_id and instance_id")
            },
            EnvelopeError::IncompleteEvent => {
                String::from_str("event requires instance_id and a positive sequence")
            },
            EnvelopeError::InvalidRequestMetadata => {
                String::from_str("request must not have correlation_id or sequence")
            },
            EnvelopeError::NonEmptyErrorPayload => {
                String::from_str("error responses must use an empty payload")
            },
        }
    }
}

/// A valid request is answered validly: a response that keeps its version and name, names
/// its identifier and an instance, and carries either an object or, beside an error, an
/// empty object.
pub proof fn responses_to_valid_requests_are_valid(
    request: Envelope,
    response: Envelope,
    members: Option<nat>,
)
    requires
        envelope_valid(request),
        response.protocol_version == request.protocol_version,
        response.name == request.name,
        response.kind is Response,
        response.correlation_id == Some(request.message_id),
        response.instance_id is Some,
        members is Some,
        response.error is Some ==> members == Some(0nat),
    ensures
        envelope_fault(response, members) is None,
{
}

/// An envelope is valid exactly when it speaks the protocol, its name is a message's, its
/// payload is an object, and it carries what a message of its kind needs: a request names
/// nothing that it answers and no number, a response names both the request and the backend,
/// and an event names the backend and a number from one on. Beside an error the payload is
/// empty.
pub proof fn envelopes_carry_what_their_kind_needs(e: Envelope, members: Option<nat>)
    ensures
        envelope_fault(e, members) is None <==> {
            &&& e.protocol_version@ == "1.0"@
            &&& is_message_name(e.name@)
            &&& members is Some
            &&& e.kind is Request ==> e.correlation_id is None && e.sequence is None
            &&& e.kind is Response ==> e.correlation_id is Some && e.instance_id is Some
            &&& e.kind is Event ==> e.instance_id is Some && (e.sequence matches Some(n) && n >= 1)
            &&& e.error is Some ==> members->0 == 0
        },
{
}

/// A name of a message is made of identifiers with single dots between them.
pub proof fn message_names_are_dotted_identifiers(a: Seq<char>, b: Seq<char>)
    requires
        !a.contains('.'),
        !b.contains('.'),
    ensures
        is_message_name(a.push('.') + b) <==> is_identifier(a) && is_identifier(b),
        !is_message_name(a),
{
    let d = Delimiter::Char('.');
    let empty = Seq::<char>::empty();
    let whole = a.push('.') + b;
    assert forall|i: int| 0 <= i < a.len() implies !crate::split::delimits(
        d,
        #[trigger] a[i],
    ) by {
        assert(a.contains(a[i]));
    }
    assert forall|i: int| 0 <= i < b.len() implies !crate::split::delimits(
        d,
        #[trigger] b[i],
    ) by {
        assert(b.contains(b[i]));
    }
    pieces_extend(empty, a, d);
    assert(empty + a =~= a);
    assert(pieces(empty, d) =~= seq![empty]);
    assert(pieces(a, d) =~= seq![a]);
    assert(a.push('.').drop_last() =~= a);
    assert(pieces(a.push('.'), d) =~= seq![a, empty]);
    pieces_extend(a.push('.'), b, d);
    assert(empty + b =~= b);
    assert(pieces(whole, d) =~= seq![a, b]);
    let parts = pieces(whole, d);
    assert(parts[0] == a && parts[1] == b);
}

/// An identifier starts with a lower-case letter and goes on with such letters, digits and
/// underscores.
pub proof fn identifiers_are_lower_case(part: Seq<char>, more: char)
    ensures
        is_identifier(part.push(more)) && part.len() > 0 <==> is_identifier(part) && ('a' <= more
            <= 'z' || '0' <= more <= '9' || more == '_'),
        is_identifier(seq![more]) <==> 'a' <= more <= 'z',
        !is_identifier(Seq::empty()),
{
    let longer = part.push(more);
    if part.len() > 0 {
        assert(longer[0] == part[0]);
        if is_identifier(longer) {
            assert forall|i: int| 0 <= i < part.len() implies is_ascii_lowercase(
                #[trigger] part[i],
            ) || ('0' <= part[i] && part[i] <= '9') || part[i] == '_' by {
                assert(longer[i] == part[i]);
            }
            assert(longer[part.len() as int] == more);
        }
    }
    assert(seq![more][0] == more);
}

} // verus!
