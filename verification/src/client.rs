//! The window's side of the connection: what is sent, what is let in, and where it goes.

use vstd::prelude::*;
use vstd::string::*;

use crate::contract::envelope::{
    envelope_fault, envelope_valid, fault_text, json_members, Envelope, MessageKind, ProtocolError,
};
use crate::contract::ids::Uuid;
use crate::paths::{join_path, path_join};
use crate::text::same_text;

verus! {

broadcast use vstd::string::group_string_axioms;

#[derive(Clone, PartialEq, Eq, Debug)]
pub enum ClientError {
    TransportClosed,
    Protocol(ProtocolError),
    Service(String),
    InvalidResponse(String),
    SubscriptionLagged(u64),
}

/// A response and the events that came with it.
#[derive(PartialEq, Eq, Debug)]
pub struct ServiceOutput {
    pub response: Envelope,
    pub events: Vec<Envelope>,
}

impl ServiceOutput {
    /// A response without events.
    #[must_use]
    pub fn response(response: Envelope) -> (result: Self)
        ensures
            result.response == response,
            result.events@.len() == 0,
    {
        Self { response, events: Vec::new() }
    }

    /// The same response with these events.
    #[must_use]
    pub fn with_events(self, events: Vec<Envelope>) -> (result: Self)
        ensures
            result == (ServiceOutput { response: self.response, events }),
    {
        Self { response: self.response, events }
    }
}

/// What is wrong with an envelope.
pub open spec fn fault_of(e: Envelope) -> Option<crate::contract::envelope::EnvelopeError> {
    envelope_fault(e, json_members(e.payload@))
}

/// Lets a request out if it is a valid one.
pub fn check_request(request: &Envelope) -> (result: Result<(), ClientError>)
    ensures
        match result {
            Ok(()) => envelope_valid(*request) && request.kind is Request,
            Err(ClientError::InvalidResponse(reason)) => match fault_of(*request) {
                Some(fault) => reason@ == fault_text(fault),
                None => !(request.kind is Request) && reason@ == "client can only send requests"@,
            },
            Err(_) => false,
        },
{
    match request.validate() {
        Ok(()) => {},
        Err(fault) => {
            return Err(ClientError::InvalidResponse(fault.message()));
        },
    }
    if request.kind != MessageKind::Request {
        return Err(
            ClientError::InvalidResponse(String::from_str("client can only send requests")),
        );
    }
    Ok(())
}

/// The response answers the request.
pub open spec fn answers(request: Envelope, response: Envelope) -> bool {
    &&& response.kind is Response
    &&& response.name@ == request.name@
    &&& response.correlation_id == Some(request.message_id)
}

/// The envelope is a valid event.
pub open spec fn is_event(e: Envelope) -> bool {
    envelope_valid(e) && e.kind is Event
}

/// Why an envelope is not let through as an event.
pub open spec fn event_refusal(e: Envelope) -> Seq<char> {
    match fault_of(e) {
        Some(fault) => fault_text(fault),
        None => "service emitted a non-event"@,
    }
}

/// How many envelopes at the front of a list are valid events.
pub open spec fn good_events(events: Seq<Envelope>) -> nat
    decreases events.len(),
{
    if events.len() == 0 {
        0
    } else if is_event(events[0]) {
        1 + good_events(events.drop_first())
    } else {
        0
    }
}

/// What is let in of a service's output: the events handed on, and the answer.
#[derive(PartialEq, Eq, Debug)]
pub struct Delivered {
    pub events: Vec<Envelope>,
    pub result: Result<Envelope, ClientError>,
}

fn check_event(event: &Envelope) -> (result: Result<(), ClientError>)
    ensures
        match result {
            Ok(()) => is_event(*event),
            Err(ClientError::InvalidResponse(reason)) => !is_event(*event) && reason@
                == event_refusal(*event),
            Err(_) => false,
        },
{
    match event.validate() {
        Ok(()) => {},
        Err(fault) => {
            return Err(ClientError::InvalidResponse(fault.message()));
        },
    }
    if event.kind != MessageKind::Event {
        return Err(ClientError::InvalidResponse(String::from_str("service emitted a non-event")));
    }
    Ok(())
}

proof fn good_events_step(events: Seq<Envelope>, n: int)
    requires
        0 <= n <= events.len(),
        forall|k: int| 0 <= k < n ==> is_event(#[trigger] events[k]),
    ensures
        good_events(events) == n + good_events(events.skip(n)),
    decreases n,
{
    if n == 0 {
        assert(events.skip(0) =~= events);
    } else {
        assert(is_event(events[0]));
        let rest = events.drop_first();
        assert forall|k: int| 0 <= k < n - 1 implies is_event(#[trigger] rest[k]) by {
            assert(is_event(events[k + 1]));
        }
        good_events_step(rest, n - 1);
        assert(rest.skip(n - 1) =~= events.skip(n));
    }
}

/// What is let in of a service's output: an answer that does not answer the request lets
/// nothing in, and the first event that is none ends what is handed on.
pub open spec fn lets_in(request: Envelope, output: ServiceOutput, delivered: Delivered) -> bool {
    match fault_of(output.response) {
        Some(fault) => {
            &&& delivered.events@.len() == 0
            &&& delivered.result matches Err(ClientError::InvalidResponse(reason)) && reason@
                == fault_text(fault)
        },
        None => if !answers(request, output.response) {
            &&& delivered.events@.len() == 0
            &&& delivered.result matches Err(ClientError::InvalidResponse(reason)) && reason@
                == "response name/correlation does not match request"@
        } else {
            let n = good_events(output.events@);
            &&& n <= output.events@.len()
            &&& delivered.events@ == output.events@.take(n as int)
            &&& if n < output.events@.len() {
                delivered.result matches Err(ClientError::InvalidResponse(reason)) && reason@
                    == event_refusal(output.events@[n as int])
            } else {
                match output.response.error {
                    Some(error) => delivered.result == Err::<Envelope, ClientError>(
                        ClientError::Protocol(error),
                    ),
                    None => delivered.result == Ok::<Envelope, ClientError>(output.response),
                }
            }
        },
    }
}

/// Lets a service's output in: the response if it is valid and answers the request, and its
/// events up to the first that is not one. An error in the response is handed on as an
/// error.
pub fn validate_output(request: &Envelope, output: ServiceOutput) -> (delivered: Delivered)
    ensures
        match fault_of(output.response) {
            Some(fault) => {
                &&& delivered.events@.len() == 0
                &&& delivered.result matches Err(ClientError::InvalidResponse(reason)) && reason@
                    == fault_text(fault)
            },
            None => if !answers(*request, output.response) {
                &&& delivered.events@.len() == 0
                &&& delivered.result matches Err(ClientError::InvalidResponse(reason)) && reason@
                    == "response name/correlation does not match request"@
            } else {
                let n = good_events(output.events@);
                &&& n <= output.events@.len()
                &&& delivered.events@ == output.events@.take(n as int)
                &&& if n < output.events@.len() {
                    delivered.result matches Err(ClientError::InvalidResponse(reason)) && reason@
                        == event_refusal(output.events@[n as int])
                } else {
                    match output.response.error {
                        Some(error) => delivered.result == Err::<Envelope, ClientError>(
                            ClientError::Protocol(error),
                        ),
                        None => delivered.result == Ok::<Envelope, ClientError>(output.response),
                    }
                }
            },
        },
        lets_in(*request, output, delivered),
{
    let ghost all = output.events@;
    let mut forwarded: Vec<Envelope> = Vec::new();
    match output.response.validate() {
        Ok(()) => {},
        Err(fault) => {
            return Delivered {
                events: forwarded,
                result: Err(ClientError::InvalidResponse(fault.message())),
            };
        },
    }
    let correlated = match output.response.correlation_id {
        Some(id) => id == request.message_id,
        None => false,
    };
    if output.response.kind != MessageKind::Response || !same_text(
        output.response.name.as_str(),
        request.name.as_str(),
    ) || !correlated {
        return Delivered {
            events: forwarded,
            result: Err(
                ClientError::InvalidResponse(
                    String::from_str("response name/correlation does not match request"),
                ),
            ),
        };
    }
    let ServiceOutput { response, events } = output;
    for event in iter: events
        invariant
            iter.seq() == all,
            forwarded@ == all.take(iter.index() as int),
            forall|k: int| 0 <= k < iter.index() ==> is_event(#[trigger] all[k]),
            fault_of(response) is None,
            answers(*request, response),
            response == output.response,
            all == output.events@,
    {
        match check_event(&event) {
            Ok(()) => {
                forwarded.push(event);
                assert(forwarded@ =~= all.take(iter.index() + 1));
            },
            Err(error) => {
                proof {
                    good_events_step(all, iter.index() as int);
                    assert(all.skip(iter.index() as int)[0] == event);
                }
                return Delivered { events: forwarded, result: Err(error) };
            },
        }
    }
    proof {
        good_events_step(all, all.len() as int);
        assert(all.take(all.len() as int) =~= all);
    }
    let Envelope {
        protocol_version,
        message_id,
        kind,
        name,
        sent_at,
        correlation_id,
        instance_id,
        sequence,
        payload,
        error,
    } = response;
    match error {
        Some(error) => Delivered {
            events: forwarded,
            result: Err(ClientError::Protocol(error)),
        },
        None => Delivered {
            events: forwarded,
            result: Ok(
                Envelope {
                    protocol_version,
                    message_id,
                    kind,
                    name,
                    sent_at,
                    correlation_id,
                    instance_id,
                    sequence,
                    payload,
                    error: None,
                },
            ),
        },
    }
}

/// Where an envelope that comes in goes.
#[derive(PartialEq, Eq, Debug)]
pub enum Incoming {
    /// To the request that waits under an identifier.
    Answer { request_id: Uuid, result: Result<Envelope, ClientError> },
    /// To every subscriber.
    Event(Envelope),
    /// Nowhere.
    Ignored,
}

/// Decides where an envelope that comes in goes: a response to the request it names, an
/// error in it as an error; an event to the subscribers; anything else nowhere.
pub fn route_incoming(envelope: Envelope) -> (result: Incoming)
    ensures
        match envelope.kind {
            MessageKind::Response => match envelope.correlation_id {
                Some(request_id) => result == (Incoming::Answer {
                    request_id,
                    result: match envelope.error {
                        Some(error) => Err(ClientError::Protocol(error)),
                        None => Ok(envelope),
                    },
                }),
                None => result is Ignored,
            },
            MessageKind::Event => result == Incoming::Event(envelope),
            MessageKind::Request => result is Ignored,
        },
        result is Event <==> envelope.kind is Event,
        result is Answer <==> envelope.kind is Response && envelope.correlation_id is Some,
        result matches Incoming::Answer { request_id, result: answer } ==> {
            &&& envelope.correlation_id == Some(request_id)
            &&& answer is Ok <==> envelope.error is None
        },
{
    match envelope.kind {
        MessageKind::Response => match envelope.correlation_id {
            Some(request_id) => {
                if envelope.error.is_none() {
                    return Incoming::Answer { request_id, result: Ok(envelope) };
                }
                match envelope.error {
                    Some(error) => Incoming::Answer {
                        request_id,
                        result: Err(ClientError::Protocol(error)),
                    },
                    None => Incoming::Ignored,
                }
            },
            None => Incoming::Ignored,
        },
        MessageKind::Event => Incoming::Event(envelope),
        MessageKind::Request => Incoming::Ignored,
    }
}

/// What the environment says of the user's directories.
#[derive(PartialEq, Eq, Debug)]
pub struct Directories {
    pub macos: bool,
    pub runtime_dir: Option<String>,
    pub cache_home: Option<String>,
    pub config_home: Option<String>,
    pub data_home: Option<String>,
    pub home: Option<String>,
    pub temp_dir: String,
}

/// A directory: where the environment names one, that one; otherwise one below the home
/// directory; otherwise the directory for temporary files.
pub open spec fn directory(
    named: Option<String>,
    home: Option<String>,
    below_home: Seq<char>,
    temp_dir: Seq<char>,
) -> Seq<char> {
    match named {
        Some(dir) => dir@,
        None => match home {
            Some(home) => path_join(home@, below_home),
            None => temp_dir,
        },
    }
}

fn find_directory(
    named: &Option<String>,
    home: &Option<String>,
    below_home: &str,
    temp_dir: &str,
) -> (result: String)
    ensures
        result@ == directory(*named, *home, below_home@, temp_dir@),
{
    match named {
        Some(dir) => dir.clone(),
        None => match home {
            Some(home) => join_path(home.as_str(), below_home),
            None => String::from_str(temp_dir),
        },
    }
}

/// Where the backend listens. On macOS the place is below the user's caches and no XDG
/// variable counts.
pub open spec fn socket_path(d: Directories) -> Seq<char> {
    if d.macos {
        path_join(
            directory(None, d.home, "Library/Caches"@, d.temp_dir@),
            "speakiput/runtime/speakiputd.sock"@,
        )
    } else {
        match d.runtime_dir {
            Some(dir) => path_join(dir@, "speakiput/speakiputd.sock"@),
            None => path_join(
                directory(d.cache_home, d.home, ".cache"@, d.temp_dir@),
                "speakiput/runtime/speakiputd.sock"@,
            ),
        }
    }
}

/// Where the backend listens.
#[must_use]
pub fn default_socket_path(d: &Directories) -> (result: String)
    ensures
        result@ == socket_path(*d),
{
    if d.macos {
        let caches = find_directory(&None, &d.home, "Library/Caches", d.temp_dir.as_str());
        return join_path(caches.as_str(), "speakiput/runtime/speakiputd.sock");
    }
    match &d.runtime_dir {
        Some(dir) => join_path(dir.as_str(), "speakiput/speakiputd.sock"),
        None => {
            let cache = find_directory(&d.cache_home, &d.home, ".cache", d.temp_dir.as_str());
            join_path(cache.as_str(), "speakiput/runtime/speakiputd.sock")
        },
    }
}

/// Where settings and history are kept.
#[must_use]
pub fn default_storage_paths(d: &Directories) -> (result: (String, String))
    ensures
        d.macos ==> {
            let support = directory(None, d.home, "Library/Application Support"@, d.temp_dir@);
            &&& result.0@ == path_join(support, "speakiput/settings.json"@)
            &&& result.1@ == path_join(support, "speakiput/history.jsonl"@)
        },
        !d.macos ==> {
            &&& result.0@ == path_join(
                directory(d.config_home, d.home, ".config"@, d.temp_dir@),
                "speakiput/settings.json"@,
            )
            &&& result.1@ == path_join(
                directory(d.data_home, d.home, ".local/share"@, d.temp_dir@),
                "speakiput/history.jsonl"@,
            )
        },
{
    if d.macos {
        let support = find_directory(
            &None,
            &d.home,
            "Library/Application Support",
            d.temp_dir.as_str(),
        );
        crate::storage::default_paths(support.as_str(), support.as_str())
    } else {
        let config = find_directory(&d.config_home, &d.home, ".config", d.temp_dir.as_str());
        let data = find_directory(&d.data_home, &d.home, ".local/share", d.temp_dir.as_str());
        crate::storage::default_paths(data.as_str(), config.as_str())
    }
}

/// Events are handed on up to the first that is none.
pub proof fn events_are_handed_on_up_to_the_first_fault(events: Seq<Envelope>)
    ensures
        good_events(events) <= events.len(),
        forall|i: int| 0 <= i < good_events(events) ==> is_event(#[trigger] events[i]),
        good_events(events) < events.len() ==> !is_event(events[good_events(events) as int]),
        forall|i: int|
            0 <= i < good_events(events) ==> envelope_valid(#[trigger] events[i])
                && events[i].kind is Event,
        good_events(events) < events.len() ==> {
            let stopped = events[good_events(events) as int];
            !envelope_valid(stopped) || !(stopped.kind is Event)
        },
    decreases events.len(),
{
    if events.len() > 0 && is_event(events[0]) {
        let rest = events.drop_first();
        events_are_handed_on_up_to_the_first_fault(rest);
        assert forall|i: int| 0 <= i < good_events(events) implies is_event(
            #[trigger] events[i],
        ) by {
            if i > 0 {
                assert(events[i] == rest[i - 1]);
            }
        }
        if good_events(events) < events.len() {
            assert(events[good_events(events) as int] == rest[good_events(rest) as int]);
        }
    }
}

/// The socket lies in the runtime directory where there is one; macOS has none, and there
/// only the home directory counts. Without any of these directories it lies below the
/// temporary one.
pub proof fn the_socket_lies_in_the_users_own_directory(d: Directories, other: Directories)
    ensures
        !d.macos && d.runtime_dir is Some ==> socket_path(d) == path_join(
            d.runtime_dir->0@,
            "speakiput/speakiputd.sock"@,
        ),
        d.macos && other.macos && d.home == other.home && d.temp_dir == other.temp_dir
            ==> socket_path(d) == socket_path(other),
        d.macos && d.home is Some ==> socket_path(d) == path_join(
            path_join(d.home->0@, "Library/Caches"@),
            "speakiput/runtime/speakiputd.sock"@,
        ),
        !d.macos && d.runtime_dir is None && d.cache_home is Some ==> socket_path(d) == path_join(
            d.cache_home->0@,
            "speakiput/runtime/speakiputd.sock"@,
        ),
        !d.macos && d.runtime_dir is None && d.cache_home is None && d.home is Some
            ==> socket_path(d) == path_join(
            path_join(d.home->0@, ".cache"@),
            "speakiput/runtime/speakiputd.sock"@,
        ),
        d.home is None && d.runtime_dir is None && d.cache_home is None ==> socket_path(d)
            == path_join(d.temp_dir@, "speakiput/runtime/speakiputd.sock"@),
{
}

/// An answer answers one request: none with another name or another identity.
pub proof fn an_answer_answers_one_request(request: Envelope, other: Envelope, response: Envelope)
    requires
        answers(request, response),
    ensures
        response.kind is Response,
        other.message_id != request.message_id ==> !answers(other, response),
        other.name@ != request.name@ ==> !answers(other, response),
        other.message_id == request.message_id && other.name@ == request.name@ ==> answers(
            other,
            response,
        ),
{
}

/// An answer is let in exactly if it is valid, answers the request, reports no error and comes
/// with nothing but valid events; then all of them are handed on. Whatever is handed on is a
/// valid event, and nothing is where the answer is to another request.
pub proof fn only_answers_to_the_request_are_let_in(
    request: Envelope,
    output: ServiceOutput,
    delivered: Delivered,
)
    requires
        lets_in(request, output, delivered),
    ensures
        delivered.result is Ok <==> {
            &&& envelope_valid(output.response)
            &&& output.response.kind is Response
            &&& output.response.name@ == request.name@
            &&& output.response.correlation_id == Some(request.message_id)
            &&& output.response.error is None
            &&& forall|i: int| 0 <= i < output.events@.len() ==> is_event(#[trigger] output.events@[i])
        },
        delivered.result matches Ok(response) ==> response == output.response && delivered.events@
            == output.events@,
        delivered.result matches Err(ClientError::Protocol(error)) ==> output.response.error == Some(
            error,
        ),
        forall|i: int|
            0 <= i < delivered.events@.len() ==> is_event(#[trigger] delivered.events@[i]),
        output.response.correlation_id != Some(request.message_id) ==> delivered.events@.len() == 0,
{
    events_are_handed_on_up_to_the_first_fault(output.events@);
    let n = good_events(output.events@) as int;
    if n == output.events@.len() {
        assert(output.events@.take(n) =~= output.events@);
    }
}

} // verus!
