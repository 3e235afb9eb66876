//! The backend's side of one connection.

use vstd::prelude::*;
use vstd::string::*;

use crate::contract::envelope::{Envelope, MessageKind};
use crate::text::same_text;

verus! {

broadcast use vstd::string::group_string_axioms;

/// A connection, and whether its client has been greeted.
#[derive(Clone, Copy, PartialEq, Eq, Structural, Debug)]
pub struct Connection {
    pub greeted: bool,
}

/// Why an envelope closes the connection, if it does.
pub open spec fn refusal(connection: Connection, request: Envelope) -> Option<Seq<char>> {
    if !(request.kind is Request) {
        Some("client sent a non-request envelope"@)
    } else if !connection.greeted && request.name@ != "client.hello"@ {
        Some("client.hello must be the first request on a connection"@)
    } else {
        None
    }
}

/// The response greets the client.
pub open spec fn greets(response: Envelope) -> bool {
    response.name@ == "client.hello"@ && response.error is None
}

impl Connection {
    /// A new connection.
    pub fn new() -> (result: Self)
        ensures
            !result.greeted,
    {
        Self { greeted: false }
    }

    /// Lets an envelope in: only requests, and only a greeting before any other.
    pub fn accept(&self, request: &Envelope) -> (result: Result<(), String>)
        ensures
            match result {
                Ok(()) => refusal(*self, *request) is None,
                Err(reason) => refusal(*self, *request) == Some(reason@),
            },
    {
        if request.kind != MessageKind::Request {
            return Err(String::from_str("client sent a non-request envelope"));
        }
        if !self.greeted && !same_text(request.name.as_str(), "client.hello") {
            return Err(
                String::from_str("client.hello must be the first request on a connection"),
            );
        }
        Ok(())
    }

    /// Takes note of a response that was sent.
    pub fn answered(&mut self, response: &Envelope)
        ensures
            final(self).greeted == (old(self).greeted || greets(*response)),
    {
        if same_text(response.name.as_str(), "client.hello") && response.error.is_none() {
            self.greeted = true;
        }
    }
}

/// The connection after a series of responses.
pub open spec fn after_responses(connection: Connection, responses: Seq<Envelope>) -> Connection
    decreases responses.len(),
{
    if responses.len() == 0 {
        connection
    } else {
        let before = after_responses(connection, responses.drop_last());
        Connection { greeted: before.greeted || greets(responses.last()) }
    }
}

/// Before a greeting was answered without an error nothing but a greeting is let in.
pub proof fn nothing_precedes_the_greeting(
    connection: Connection,
    responses: Seq<Envelope>,
    request: Envelope,
)
    requires
        !connection.greeted,
        forall|i: int| 0 <= i < responses.len() ==> !greets(#[trigger] responses[i]),
        refusal(after_responses(connection, responses), request) is None,
    ensures
        request.name@ == "client.hello"@,
        request.kind is Request,
    decreases responses.len(),
{
    never_greeted(connection, responses);
}

proof fn never_greeted(connection: Connection, responses: Seq<Envelope>)
    requires
        !connection.greeted,
        forall|i: int| 0 <= i < responses.len() ==> !greets(#[trigger] responses[i]),
    ensures
        !after_responses(connection, responses).greeted,
    decreases responses.len(),
{
    if responses.len() > 0 {
        let rest = responses.drop_last();
        assert forall|i: int| 0 <= i < rest.len() implies !greets(#[trigger] rest[i]) by {
            assert(!greets(responses[i]));
        }
        never_greeted(connection, rest);
        assert(!greets(responses[responses.len() - 1]));
    }
}

// ---------------------------------------------------------------------------
// The socket
// ---------------------------------------------------------------------------

/// What came of making the socket its owner's alone.
#[derive(Clone, Copy, PartialEq, Eq, Structural, Debug)]
pub enum ModeChange {
    Made,
    /// It is not permitted.
    Denied,
    /// It failed in another way.
    Failed,
}

/// Whether the socket can be used.
#[derive(Clone, Copy, PartialEq, Eq, Structural, Debug)]
pub enum SocketVerdict {
    Usable,
    /// Its own mode does not protect it, but the directory that it lies in does.
    ProtectedByParent,
    Unusable,
}

/// The permission bits give neither the group nor anybody else any permission: the six
/// lowest are nought.
pub open spec fn owner_only(mode: u32) -> bool {
    mode % 64 == 0
}

/// Decides whether the socket can be used: where its mode may not be changed, only in a
/// directory that is its owner's alone. A directory whose mode is not known is not.
pub fn socket_verdict(change: ModeChange, parent_mode: Option<u32>) -> (result: SocketVerdict)
    ensures
        result == match change {
            ModeChange::Made => SocketVerdict::Usable,
            ModeChange::Denied => if parent_mode is Some && owner_only(parent_mode->0) {
                SocketVerdict::ProtectedByParent
            } else {
                SocketVerdict::Unusable
            },
            ModeChange::Failed => SocketVerdict::Unusable,
        },
{
    match change {
        ModeChange::Made => SocketVerdict::Usable,
        ModeChange::Denied => match parent_mode {
            Some(mode) => {
                if mode % 64 == 0 {
                    SocketVerdict::ProtectedByParent
                } else {
                    SocketVerdict::Unusable
                }
            },
            None => SocketVerdict::Unusable,
        },
        ModeChange::Failed => SocketVerdict::Unusable,
    }
}

/// A request is refused exactly if it is none, or if it comes before the greeting and is no
/// greeting itself.
pub proof fn only_greetings_come_first(connection: Connection, request: Envelope)
    ensures
        refusal(connection, request) is None <==> request.kind is Request && (connection.greeted
            || request.name@ == "client.hello"@),
{
}

/// A connection is greeted once a greeting was answered without an error.
pub proof fn connections_are_greeted_by_an_answer(
    connection: Connection,
    responses: Seq<Envelope>,
)
    ensures
        after_responses(connection, responses).greeted <==> connection.greeted || exists|i: int|
            0 <= i < responses.len() && (#[trigger] responses[i]).name@ == "client.hello"@
                && responses[i].error is None,
    decreases responses.len(),
{
    if responses.len() > 0 {
        let front = responses.drop_last();
        connections_are_greeted_by_an_answer(connection, front);
        if exists|i: int|
            0 <= i < front.len() && (#[trigger] front[i]).name@ == "client.hello"@
                && front[i].error is None {
            let i = choose|i: int|
                0 <= i < front.len() && (#[trigger] front[i]).name@ == "client.hello"@
                    && front[i].error is None;
            assert(responses[i] == front[i]);
        }
        if greets(responses.last()) {
            assert(responses[responses.len() - 1] == responses.last());
        }
        if exists|i: int|
            0 <= i < responses.len() && (#[trigger] responses[i]).name@ == "client.hello"@
                && responses[i].error is None {
            let i = choose|i: int|
                0 <= i < responses.len() && (#[trigger] responses[i]).name@ == "client.hello"@
                    && responses[i].error is None;
            if i < front.len() {
                assert(front[i] == responses[i]);
            }
        }
    }
}

/// A socket is its owner's alone where neither the group nor others have any right to it.
pub proof fn the_group_and_others_have_no_rights(mode: u32)
    ensures
        owner_only(mode) <==> mode & 0o077 == 0,
{
    assert(mode & 0o077 == mode % 64) by (bit_vector);
}

} // verus!
