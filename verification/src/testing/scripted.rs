//! A backend that answers by a script.

use std::collections::VecDeque;

use vstd::prelude::*;
use vstd::string::*;

use crate::client::ServiceOutput;
use crate::contract::envelope::{Envelope, ProtocolError, PROTOCOL_VERSION};
use crate::contract::ids::{fresh_uuid, is_random_uuid, Uuid};
use crate::text::same_text;

verus! {

broadcast use vstd::string::group_string_axioms;

/// An event of the script: its name and its payload as JSON text.
#[derive(Clone, PartialEq, Eq, Debug)]
pub struct EventTemplate {
    pub name: String,
    pub payload: String,
}

impl EventTemplate {
    #[must_use]
    pub fn new(name: &str, payload: String) -> (result: Self)
        ensures
            result.name@ == name@,
            result.payload == payload,
    {
        Self { name: String::from_str(name), payload }
    }
}

#[derive(Clone, PartialEq, Eq, Debug)]
pub enum ScriptedResult {
    Success(String),
    Error(ProtocolError),
}

/// What is answered to the next request, which must have the name expected.
#[derive(Clone, PartialEq, Eq, Debug)]
pub struct ScriptedStep {
    pub expected_name: String,
    pub result: ScriptedResult,
    pub events: Vec<EventTemplate>,
    pub delay_ms: u64,
}

impl ScriptedStep {
    /// A step that answers with a payload.
    #[must_use]
    pub fn success(name: &str, payload: String) -> (result: Self)
        ensures
            result.expected_name@ == name@,
            result.result == ScriptedResult::Success(payload),
            result.events@.len() == 0,
            result.delay_ms == 0,
    {
        Self {
            expected_name: String::from_str(name),
            result: ScriptedResult::Success(payload),
            events: Vec::new(),
            delay_ms: 0,
        }
    }

    /// A step that answers with an error.
    #[must_use]
    pub fn error(name: &str, error: ProtocolError) -> (result: Self)
        ensures
            result.expected_name@ == name@,
            result.result == ScriptedResult::Error(error),
            result.events@.len() == 0,
            result.delay_ms == 0,
    {
        Self {
            expected_name: String::from_str(name),
            result: ScriptedResult::Error(error),
            events: Vec::new(),
            delay_ms: 0,
        }
    }

    /// The same step with one more event.
    #[must_use]
    pub fn with_event(self, name: &str, payload: String) -> (result: Self)
        ensures
            result.expected_name == self.expected_name,
            result.result == self.result,
            result.delay_ms == self.delay_ms,
            result.events@.len() == self.events@.len() + 1,
            result.events@.drop_last() == self.events@,
            result.events@.last().name@ == name@,
            result.events@.last().payload == payload,
    {
        let mut result = self;
        result.events.push(EventTemplate::new(name, payload));
        assert(result.events@.drop_last() =~= self.events@);
        result
    }

    /// The same step with a delay before the answer.
    #[must_use]
    pub fn with_delay(self, delay_ms: u64) -> (result: Self)
        ensures
            result == (ScriptedStep { delay_ms, ..self }),
    {
        let mut result = self;
        result.delay_ms = delay_ms;
        result
    }
}

/// A backend that answers by a script.
#[derive(Debug)]
pub struct ScriptedFakeBackend {
    pub instance_id: Uuid,
    pub steps: VecDeque<ScriptedStep>,
    pub sequence: u64,
}

/// The event that a template stands for, under a number.
pub open spec fn is_scripted_event(
    event: Envelope,
    template: EventTemplate,
    instance_id: Uuid,
    sequence: int,
) -> bool {
    &&& event.protocol_version@ == PROTOCOL_VERSION@
    &&& event.kind is Event
    &&& event.name@ == template.name@
    &&& event.instance_id == Some(instance_id)
    &&& event.sequence is Some
    &&& event.sequence->0 == sequence
    &&& event.correlation_id is None
    &&& event.payload == template.payload
    &&& event.error is None
}

/// The answer that a step stands for.
pub open spec fn is_scripted_answer(
    response: Envelope,
    request: Envelope,
    instance_id: Uuid,
    result: ScriptedResult,
) -> bool {
    &&& response.protocol_version == request.protocol_version
    &&& response.kind is Response
    &&& response.name == request.name
    &&& response.correlation_id == Some(request.message_id)
    &&& response.instance_id == Some(instance_id)
    &&& response.sequence is None
    &&& match result {
        ScriptedResult::Success(payload) => response.payload == payload && response.error is None,
        ScriptedResult::Error(error) => response.payload@ == "{}"@ && response.error == Some(error),
    }
}

impl ScriptedFakeBackend {
    /// A backend with a script and an identity of its own.
    #[must_use]
    pub fn new(steps: VecDeque<ScriptedStep>) -> (result: Self)
        ensures
            is_random_uuid(result.instance_id),
            result.steps == steps,
            result.sequence == 0,
    {
        Self { instance_id: fresh_uuid(), steps, sequence: 0 }
    }

    #[must_use]
    pub fn instance_id(&self) -> (result: Uuid)
        ensures
            result == self.instance_id,
    {
        self.instance_id
    }

    /// How many steps are left.
    pub fn remaining_steps(&self) -> (result: usize)
        ensures
            result == self.steps@.len(),
    {
        self.steps.len()
    }

    /// Takes the next step of the script for a request. A request that does not fit uses
    /// the step up too.
    pub fn take_step(&mut self, request: &Envelope) -> (result: Result<ScriptedStep, String>)
        ensures
            final(self).instance_id == old(self).instance_id,
            final(self).sequence == old(self).sequence,
            if old(self).steps@.len() == 0 {
                &&& final(self).steps@ == old(self).steps@
                &&& result matches Err(reason) && reason@ == "unexpected request "@ + request.name@
                    + "; script is exhausted"@
            } else {
                let step = old(self).steps@[0];
                &&& final(self).steps@ == old(self).steps@.drop_first()
                &&& if step.expected_name@ == request.name@ {
                    result == Ok::<ScriptedStep, String>(step)
                } else {
                    result matches Err(reason) && reason@ == "expected request "@
                        + step.expected_name@ + ", received "@ + request.name@
                }
            },
    {
        match self.steps.pop_front() {
            None => {
                let mut text = String::from_str("unexpected request ");
                text.append(request.name.as_str());
                text.append("; script is exhausted");
                Err(text)
            },
            Some(step) => {
                assert(self.steps@ =~= old(self).steps@.drop_first());
                if same_text(step.expected_name.as_str(), request.name.as_str()) {
                    Ok(step)
                } else {
                    let mut text = String::from_str("expected request ");
                    text.append(step.expected_name.as_str());
                    text.append(", received ");
                    text.append(request.name.as_str());
                    Err(text)
                }
            },
        }
    }

    /// Answers a request as a step says, and numbers the step's events.
    pub fn answer(&mut self, request: &Envelope, step: ScriptedStep) -> (output: ServiceOutput)
        requires
            old(self).sequence + step.events@.len() <= u64::MAX,
        ensures
            final(self).instance_id == old(self).instance_id,
            final(self).steps == old(self).steps,
            final(self).sequence == old(self).sequence + step.events@.len(),
            is_scripted_answer(output.response, *request, old(self).instance_id, step.result),
            output.events@.len() == step.events@.len(),
            forall|i: int|
                0 <= i < output.events@.len() ==> is_scripted_event(
                    #[trigger] output.events@[i],
                    step.events@[i],
                    old(self).instance_id,
                    old(self).sequence + 1 + i,
                ),
    {
        let instance_id = self.instance_id;
        let response = match step.result {
            ScriptedResult::Success(payload) => Envelope::response(request, instance_id, payload),
            ScriptedResult::Error(error) => {
                Envelope::error_response(request, instance_id, error)
            },
        };
        let mut events: Vec<Envelope> = Vec::new();
        let mut i: usize = 0;
        while i < step.events.len()
            invariant
                i <= step.events@.len(),
                self.instance_id == instance_id,
                instance_id == old(self).instance_id,
                self.steps == old(self).steps,
                self.sequence == old(self).sequence + i,
                old(self).sequence + step.events@.len() <= u64::MAX,
                events@.len() == i,
                forall|k: int|
                    0 <= k < i ==> is_scripted_event(
                        #[trigger] events@[k],
                        step.events@[k],
                        instance_id,
                        old(self).sequence + 1 + k,
                    ),
            decreases step.events@.len() - i,
        {
            self.sequence = self.sequence + 1;
            let payload = step.events[i].payload.clone();
            events.push(
                Envelope::event(
                    step.events[i].name.as_str(),
                    instance_id,
                    self.sequence,
                    payload,
                ),
            );
            i += 1;
        }
        ServiceOutput::response(response).with_events(events)
    }
}

/// What the script answers is an answer to the request, and an error exactly if the script
/// says so.
pub proof fn scripted_answers_answer_their_request(
    response: Envelope,
    request: Envelope,
    instance_id: Uuid,
    result: ScriptedResult,
)
    requires
        is_scripted_answer(response, request, instance_id, result),
    ensures
        crate::client::answers(request, response),
        response.error is Some <==> result is Error,
        response.instance_id == Some(instance_id),
{
}

} // verus!
