//! The configuration document: a version, the modules it registers and the
//! ordered steps of the pipeline.

use crate::json::Json;
use crate::json::JsonModel;
use vstd::prelude::*;

verus! {

/// The inline templates a step may carry around the module it names.
#[derive(Debug, PartialEq)]
pub struct Payload {
    pub request: Option<Json>,
    pub response: Option<Json>,
}

/// One step of the pipeline, as an author writes it.
#[derive(Debug, PartialEq)]
pub struct Step {
    pub module: Option<String>,
    pub params: Option<Json>,
    pub payload: Option<Payload>,
    pub reference: Option<String>,
    pub producer: Option<bool>,
    pub attach: Option<String>,
}

/// A module's logical name and where its implementation is found.
#[derive(Clone, Debug, PartialEq)]
pub struct Module {
    pub name: String,
    pub source: String,
}

/// The whole document.
#[derive(Debug, PartialEq)]
pub struct Co2 {
    pub version: Option<String>,
    pub modules: Option<Vec<Module>>,
    pub pipeline: Vec<Step>,
}

/// What a `Payload` stands for.
pub struct PayloadModel {
    pub request: Option<JsonModel>,
    pub response: Option<JsonModel>,
}

/// What a `Step` stands for.
pub struct StepModel {
    pub module: Option<Seq<char>>,
    pub params: Option<JsonModel>,
    pub payload: Option<PayloadModel>,
    pub reference: Option<Seq<char>>,
    pub producer: Option<bool>,
    pub attach: Option<Seq<char>>,
}

/// What a `Module` stands for.
pub struct ModuleModel {
    pub name: Seq<char>,
    pub source: Seq<char>,
}

/// What a `Co2` stands for.
pub struct Co2Model {
    pub version: Option<Seq<char>>,
    pub modules: Option<Seq<ModuleModel>>,
    pub pipeline: Seq<StepModel>,
}

/// The characters of a text that may be absent.
pub open spec fn text_model(text: Option<String>) -> Option<Seq<char>> {
    match text {
        Some(t) => Some(t@),
        None => None,
    }
}

/// What a structured value that may be absent stands for.
pub open spec fn json_model(value: Option<Json>) -> Option<JsonModel> {
    match value {
        Some(v) => Some(v@),
        None => None,
    }
}

impl View for Payload {
    type V = PayloadModel;

    open spec fn view(&self) -> PayloadModel {
        PayloadModel { request: json_model(self.request), response: json_model(self.response) }
    }
}

impl View for Step {
    type V = StepModel;

    open spec fn view(&self) -> StepModel {
        StepModel {
            module: text_model(self.module),
            params: json_model(self.params),
            payload: match self.payload {
                Some(p) => Some(p@),
                None => None,
            },
            reference: text_model(self.reference),
            producer: self.producer,
            attach: text_model(self.attach),
        }
    }
}

impl View for Module {
    type V = ModuleModel;

    open spec fn view(&self) -> ModuleModel {
        ModuleModel { name: self.name@, source: self.source@ }
    }
}

/// What a list of steps stands for.
pub open spec fn steps_model(steps: Seq<Step>) -> Seq<StepModel> {
    Seq::new(steps.len(), |i: int| steps[i]@)
}

/// What a list of modules stands for.
pub open spec fn modules_model(modules: Seq<Module>) -> Seq<ModuleModel> {
    Seq::new(modules.len(), |i: int| modules[i]@)
}

impl View for Co2 {
    type V = Co2Model;

    open spec fn view(&self) -> Co2Model {
        Co2Model {
            version: text_model(self.version),
            modules: match self.modules {
                Some(m) => Some(modules_model(m@)),
                None => None,
            },
            pipeline: steps_model(self.pipeline@),
        }
    }
}

/// A copy of a text that may be absent.
pub fn copy_text(text: &Option<String>) -> (copy: Option<String>)
    ensures
        text_model(copy) == text_model(*text),
{
    match text {
        Some(t) => Some(t.clone()),
        None => None,
    }
}

/// A copy of a structured value that may be absent.
pub fn copy_json(value: &Option<Json>) -> (copy: Option<Json>)
    ensures
        json_model(copy) == json_model(*value),
{
    match value {
        Some(v) => Some(v.duplicate()),
        None => None,
    }
}

} // verus!
