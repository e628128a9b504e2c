//! The step contract: what the orchestrator hands to a step and what a step
//! hands back, and the identifiers that tie a reply to its request.

use crate::co2_struct::json_model;
use crate::co2_struct::text_model;
use crate::json::Json;
use crate::json::JsonModel;
use crate::json::Member;
use crate::json::members_model;
use std::sync::Arc;
use std::sync::Mutex;
use vstd::prelude::*;

verus! {

/// Identifier of a step (its zero-based place in the pipeline) and of a trace.
pub type ID = u32;

/// `std::sync::Mutex`, as a type that is carried around and never looked into.
#[verifier::external_type_specification]
#[verifier::external_body]
#[verifier::reject_recursive_types(T)]
pub struct ExMutex<T: ?Sized>(Mutex<T>);

/// What a message carries: a success or a failure, each with a structured
/// value or with none.
pub type Payload = Result<Option<Json>, Option<Json>>;

/// What a `Payload` stands for.
pub type PayloadModel = Result<Option<JsonModel>, Option<JsonModel>>;

/// What `payload` stands for.
pub open spec fn payload_model(payload: Payload) -> PayloadModel {
    match payload {
        Ok(content) => Ok(json_model(content)),
        Err(content) => Err(json_model(content)),
    }
}

/// What a step is started with.
#[derive(Debug, PartialEq)]
pub struct Config {
    pub reference: String,
    pub params: Option<Json>,
    pub producer: Option<bool>,
    pub default_attach: Option<String>,
}

/// A message from the orchestrator to a step.
#[derive(Debug, PartialEq)]
pub struct Request {
    pub origin: ID,
    pub payload: Payload,
    pub trace_id: ID,
}

/// A message from a step to the orchestrator.
#[derive(Debug, PartialEq)]
pub struct Response {
    pub payload: Payload,
    pub attach: Option<String>,
    pub origin: ID,
    pub trace_id: ID,
}

/// What a step's handler gives back for one message: a `Response` without
/// its origin.
#[derive(Debug, PartialEq)]
pub struct Return {
    pub payload: Payload,
    pub attach: Option<String>,
    pub trace_id: ID,
}

/// A finished exchange, with the parameters of the step it began at.
#[derive(Debug, PartialEq)]
pub struct ResponseComplete {
    pub origin: String,
    pub payload: Payload,
    pub origin_params: Option<Json>,
}

/// What a `Config` stands for.
pub struct ConfigModel {
    pub reference: Seq<char>,
    pub params: Option<JsonModel>,
    pub producer: Option<bool>,
    pub default_attach: Option<Seq<char>>,
}

/// What a `Request` stands for.
pub struct RequestModel {
    pub origin: ID,
    pub payload: PayloadModel,
    pub trace_id: ID,
}

/// What a `Response` stands for.
pub struct ResponseModel {
    pub payload: PayloadModel,
    pub attach: Option<Seq<char>>,
    pub origin: ID,
    pub trace_id: ID,
}

/// What a `Return` stands for.
pub struct ReturnModel {
    pub payload: PayloadModel,
    pub attach: Option<Seq<char>>,
    pub trace_id: ID,
}

impl View for Config {
    type V = ConfigModel;

    open spec fn view(&self) -> ConfigModel {
        ConfigModel {
            reference: self.reference@,
            params: json_model(self.params),
            producer: self.producer,
            default_attach: text_model(self.default_attach),
        }
    }
}

impl View for Request {
    type V = RequestModel;

    open spec fn view(&self) -> RequestModel {
        RequestModel {
            origin: self.origin,
            payload: payload_model(self.payload),
            trace_id: self.trace_id,
        }
    }
}

impl View for Response {
    type V = ResponseModel;

    open spec fn view(&self) -> ResponseModel {
        ResponseModel {
            payload: payload_model(self.payload),
            attach: text_model(self.attach),
            origin: self.origin,
            trace_id: self.trace_id,
        }
    }
}

impl View for Return {
    type V = ReturnModel;

    open spec fn view(&self) -> ReturnModel {
        ReturnModel {
            payload: payload_model(self.payload),
            attach: text_model(self.attach),
            trace_id: self.trace_id,
        }
    }
}

impl ConfigModel {
    /// The members of the parameters, where they are an object; else none.
    pub open spec fn params_object(self) -> Seq<(Seq<char>, JsonModel)> {
        match self.params {
            Some(JsonModel::Object(members)) => members,
            _ => Seq::empty(),
        }
    }

    /// The parameters, where they are a text; else the empty text.
    pub open spec fn params_string(self) -> Seq<char> {
        match self.params {
            Some(JsonModel::Text(text)) => text,
            _ => Seq::empty(),
        }
    }
}

impl Config {
    /// A copy of what the step is started with.
    pub fn duplicate(&self) -> (copy: Config)
        ensures
            copy@ == self@,
    {
        Config {
            reference: self.reference.clone(),
            params: crate::co2_struct::copy_json(&self.params),
            producer: self.producer,
            default_attach: crate::co2_struct::copy_text(&self.default_attach),
        }
    }

    /// The members of the parameters, where they are an object; else none.
    pub fn get_params_object(self) -> (members: Vec<Member>)
        ensures
            members_model(members@) == self@.params_object(),
    {
        proof {
            if self.params is Some {
                crate::json::lemma_view_of_parts(self.params->0);
            }
        }
        match self.params {
            Some(Json::Object(members)) => members,
            _ => {
                let none: Vec<Member> = Vec::new();
                assert(members_model(none@) =~= Seq::empty());
                none
            },
        }
    }

    /// The parameters, where they are a text; else the empty text.
    pub fn get_params_string(self) -> (text: String)
        ensures
            text@ == self@.params_string(),
    {
        match self.params {
            Some(Json::Text(text)) => text,
            _ => String::new(),
        }
    }
}

/// The message that the orchestrator receives when step `origin` hands back
/// `result`: payload, attach target and trace identifier are those of `result`.
pub fn respond(origin: ID, result: Return) -> (response: Response)
    ensures
        response@ == (ResponseModel {
            payload: result@.payload,
            attach: result@.attach,
            origin: origin,
            trace_id: result@.trace_id,
        }),
{
    Response {
        payload: result.payload,
        attach: result.attach,
        origin,
        trace_id: result.trace_id,
    }
}

/// The message that the orchestrator receives when the producing step
/// `origin` hands back `result`: the trace identifier is the next one of
/// the step's counter, whatever `result` names.
pub fn respond_fresh(origin: ID, result: Return, counter: &mut TraceId) -> (response: Response)
    ensures
        final(counter).id == next_trace(old(counter).id),
        response@ == (ResponseModel {
            payload: result@.payload,
            attach: result@.attach,
            origin: origin,
            trace_id: final(counter).id,
        }),
{
    let trace_id = counter.get_trace();
    Response { payload: result.payload, attach: result.attach, origin, trace_id }
}

/// The message that the orchestrator hands to a step for `response`:
/// origin, payload and trace identifier are carried over.
pub fn forward(response: Response) -> (request: Request)
    ensures
        request@ == (RequestModel {
            origin: response@.origin,
            payload: response@.payload,
            trace_id: response@.trace_id,
        }),
{
    Request { origin: response.origin, payload: response.payload, trace_id: response.trace_id }
}

/// A fresh random identifier in text form: `uuid::Uuid::new_v4`, printed
/// as `Uuid` prints itself. That is the hyphenated form: 36 characters,
/// with hyphens after the eighth and then after every fourth digit up to
/// the last twelve, and the version digit 4 at the head of the third group.
/// Which identifier it is, nothing says.
#[verifier::external_body]
pub fn get_trace() -> (trace: String)
    ensures
        trace@.len() == 36,
        trace@[8] == '-',
        trace@[13] == '-',
        trace@[18] == '-',
        trace@[23] == '-',
        trace@[14] == '4',
{
    uuid::Uuid::new_v4().to_string()
}

/// A counter that hands out trace identifiers: each one is the successor of
/// the one before, and after the largest comes zero.
#[derive(Clone, Debug, PartialEq)]
pub struct TraceId {
    pub id: ID,
}

/// The identifier that follows `id`.
pub open spec fn next_trace(id: ID) -> ID {
    if id == u32::MAX {
        0u32
    } else {
        (id + 1) as u32
    }
}

/// The counter that a lock was made around.
pub uninterp spec fn guarded(lock: Mutex<TraceId>) -> TraceId;

/// `std::sync::Mutex::new` around `counter`: the new lock is made around
/// the value given. What the lock holds later, after it has been taken and
/// the counter advanced, no contract says.
#[verifier::external_body]
fn lock_around(counter: TraceId) -> (lock: Mutex<TraceId>)
    ensures
        guarded(lock) == counter,
{
    Mutex::new(counter)
}

impl TraceId {
    /// A counter that has handed out nothing yet.
    pub fn new() -> (counter: TraceId)
        ensures
            counter.id == 0,
    {
        TraceId { id: 0 }
    }

    /// A fresh counter behind a lock, to be shared by all the workers of
    /// one step: the lock is made around a counter that has handed out
    /// nothing yet.
    pub fn global() -> (shared: Arc<Mutex<TraceId>>)
        ensures
            guarded(*shared).id == 0,
    {
        Arc::new(lock_around(TraceId::new()))
    }

    /// Advances the counter and returns the new identifier.
    pub fn get_trace(&mut self) -> (trace: ID)
        ensures
            final(self).id == next_trace(old(self).id),
            trace == final(self).id,
    {
        self.id = self.id.wrapping_add(1);
        self.id
    }
}

} // verus!
