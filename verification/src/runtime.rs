//! The orchestrator's decisions: which steps to start and with what, when
//! routing may begin, and where each message goes.
//!
//! Starting steps and moving messages is the caller's work. It starts what
//! `plan` lists, tells the `Router` of every step that has made itself
//! known, and does what `Router::route` answers for each message.

use crate::co2_struct::Co2;
use crate::co2_struct::copy_json;
use crate::co2_struct::copy_text;
use crate::co2_struct::Module;
use crate::co2_struct::ModuleModel;
use crate::co2_struct::modules_model;
use crate::co2_struct::Step;
use crate::co2_struct::StepModel;
use crate::co2_struct::steps_model;
use crate::cyml_import::normalized;
use crate::cyml_import::normalized_step;
use crate::modules::Config;
use crate::modules::ConfigModel;
use crate::modules::forward;
use crate::modules::ID;
use crate::modules::Request;
use crate::modules::RequestModel;
use crate::modules::Response;
use crate::modules::ResponseModel;
use crate::text::append_chars;
use crate::text::chars_of;
use crate::text::contains_text;
use crate::text::decimal;
use crate::text::has_text;
use crate::text::occurs_at;
use crate::text::push_decimal;
use crate::text::reads_as;
use crate::text::split;
use crate::text::split_at;
use crate::text::starts_at;
use crate::text::string_of;
use crate::text::texts_model;
use vstd::prelude::*;

verus! {

/// The name under which step `id` is known when its author gave it none.
pub open spec fn synthetic_reference(id: ID) -> Seq<char> {
    "step-"@ + decimal(id as nat)
}

/// The name under which step `id` is known: the one its author gave it, or
/// else the synthetic one.
pub open spec fn effective_reference(step: StepModel, id: ID) -> Seq<char> {
    match step.reference {
        Some(name) => name,
        None => synthetic_reference(id),
    }
}

/// The module that `step` runs: the one it names, or else the templating module.
pub open spec fn module_name(step: StepModel) -> Seq<char> {
    match step.module {
        Some(name) => name,
        None => "payload"@,
    }
}

/// The source of the last of the first `upto` modules that is named `name`.
pub open spec fn source_upto(modules: Seq<ModuleModel>, upto: int, name: Seq<char>) -> Option<
    Seq<char>,
>
    decreases upto,
{
    if upto <= 0 || upto > modules.len() {
        None
    } else if modules[upto - 1].name == name {
        Some(modules[upto - 1].source)
    } else {
        source_upto(modules, upto - 1, name)
    }
}

/// The source registered for module `name`: where a name is registered more
/// than once, the last registration counts.
pub open spec fn source_of(modules: Seq<ModuleModel>, name: Seq<char>) -> Option<Seq<char>> {
    source_upto(modules, modules.len() as int, name)
}

/// The step with which the last of the first `upto` references named `name`
/// goes.
pub open spec fn resolved_upto(references: Seq<(Seq<char>, ID)>, upto: int, name: Seq<char>) -> Option<
    ID,
>
    decreases upto,
{
    if upto <= 0 || upto > references.len() {
        None
    } else if references[upto - 1].0 == name {
        Some(references[upto - 1].1)
    } else {
        resolved_upto(references, upto - 1, name)
    }
}

/// The step that `name` refers to: where a name is given more than once,
/// the last step that has it counts.
pub open spec fn resolved(references: Seq<(Seq<char>, ID)>, name: Seq<char>) -> Option<ID> {
    resolved_upto(references, references.len() as int, name)
}

/// The file in which a module's implementation is looked for: on a Unix
/// system a source that does not name a shared object gets the ending of one.
pub open spec fn library_file_name(source: Seq<char>, unix: bool) -> Seq<char> {
    if unix && !contains_text(source, ".so"@) {
        source + ".so"@
    } else {
        source
    }
}

/// The file in which a module's implementation is looked for.
pub fn library_file(source: &str, unix: bool) -> (file: String)
    ensures
        file@ == library_file_name(source@, unix),
{
    let mut name = chars_of(source);
    let ending = chars_of(".so");
    if unix && !has_text(&name, &ending) {
        append_chars(&mut name, &ending);
    }
    string_of(&name)
}

/// The steps that come with the runtime.
#[derive(PartialEq, Eq, Structural, Clone, Copy, Debug)]
pub enum BuiltIn {
    Payload,
    Switch,
    Mock,
    Dispatcher,
    Request,
    HttpServer,
}

/// The name that a source stands for: of what follows its last slash, the
/// part before the first point, without a leading `lib`.
pub open spec fn source_name(source: Seq<char>) -> Seq<char> {
    let file = split(source, '/').last();
    let stem = split(file, '.')[0];
    if occurs_at(stem, 0, "lib"@) {
        stem.subrange("lib"@.len() as int, stem.len() as int)
    } else {
        stem
    }
}

/// The built-in step that a source stands for, if it stands for one.
pub open spec fn built_in_of(source: Seq<char>) -> Option<BuiltIn> {
    let name = source_name(source);
    if name == "payload"@ {
        Some(BuiltIn::Payload)
    } else if name == "switch"@ {
        Some(BuiltIn::Switch)
    } else if name == "mock"@ {
        Some(BuiltIn::Mock)
    } else if name == "dispatcher"@ {
        Some(BuiltIn::Dispatcher)
    } else if name == "request"@ {
        Some(BuiltIn::Request)
    } else if name == "http_server"@ || name == "http-server"@ {
        Some(BuiltIn::HttpServer)
    } else {
        None
    }
}

/// The built-in step that `source` stands for, if it stands for one.
pub fn built_in(source: &str) -> (found: Option<BuiltIn>)
    ensures
        found == built_in_of(source@),
{
    let text = chars_of(source);
    let path = split_at(&text, '/');
    assert(texts_model(path@).last() == path@[path@.len() - 1]@);
    let parts = split_at(&path[path.len() - 1], '.');
    assert(texts_model(parts@)[0] == parts@[0]@);
    let stem = &parts[0];
    let prefix = chars_of("lib");
    let mut name: Vec<char> = Vec::new();
    let start: usize = if starts_at(stem, 0, &prefix) {
        prefix.len()
    } else {
        0
    };
    let mut i: usize = start;
    while i < stem.len()
        invariant
            start <= i <= stem.len(),
            name@ == stem@.subrange(start as int, i as int),
        decreases stem.len() - i,
    {
        name.push(stem[i]);
        assert(name@ =~= stem@.subrange(start as int, i + 1));
        i += 1;
    }
    assert(stem@.subrange(0, stem@.len() as int) =~= stem@);
    assert(name@ == source_name(source@));
    let word = string_of(&name);
    if reads_as(word.as_str(), "payload") {
        Some(BuiltIn::Payload)
    } else if reads_as(word.as_str(), "switch") {
        Some(BuiltIn::Switch)
    } else if reads_as(word.as_str(), "mock") {
        Some(BuiltIn::Mock)
    } else if reads_as(word.as_str(), "dispatcher") {
        Some(BuiltIn::Dispatcher)
    } else if reads_as(word.as_str(), "request") {
        Some(BuiltIn::Request)
    } else if reads_as(word.as_str(), "http_server") || reads_as(word.as_str(), "http-server") {
        Some(BuiltIn::HttpServer)
    } else {
        None
    }
}

/// A name and the step it refers to.
#[derive(Clone, Debug, PartialEq)]
pub struct Reference {
    pub name: String,
    pub id: ID,
}

/// What a list of references stands for.
pub open spec fn references_model(references: Seq<Reference>) -> Seq<(Seq<char>, ID)> {
    Seq::new(references.len(), |i: int| (references[i].name@, references[i].id))
}

/// One step to start: its place, the module it runs, where the module's
/// implementation is found, and what the step is started with.
#[derive(Debug, PartialEq)]
pub struct Launch {
    pub id: ID,
    pub module: String,
    pub source: String,
    pub config: Config,
}

/// What a `Launch` stands for.
pub struct LaunchModel {
    pub id: ID,
    pub module: Seq<char>,
    pub source: Seq<char>,
    pub config: ConfigModel,
}

impl View for Launch {
    type V = LaunchModel;

    open spec fn view(&self) -> LaunchModel {
        LaunchModel {
            id: self.id,
            module: self.module@,
            source: self.source@,
            config: self.config@,
        }
    }
}

/// What a list of launches stands for.
pub open spec fn launches_model(launches: Seq<Launch>) -> Seq<LaunchModel> {
    Seq::new(launches.len(), |i: int| launches[i]@)
}

/// How step `id` of the pipeline is started, given the source of its module.
pub open spec fn launch_of(step: StepModel, id: ID, source: Seq<char>) -> LaunchModel {
    LaunchModel {
        id: id,
        module: module_name(step),
        source: source,
        config: ConfigModel {
            reference: effective_reference(step, id),
            params: step.params,
            producer: step.producer,
            default_attach: step.attach,
        },
    }
}

/// Why the steps cannot be started.
#[derive(Clone, Debug, PartialEq)]
pub enum StartupError {
    /// A step runs a module that the document does not register.
    ModuleResolution { module: String },
    /// The pipeline has more steps than there are identifiers.
    TooManySteps,
}

/// What is known of the pipeline while it runs: the name of every step,
/// how many steps there are, and which of them have made themselves known.
pub struct RouterModel {
    pub references: Seq<(Seq<char>, ID)>,
    pub steps: nat,
    pub registered: Set<ID>,
}

impl RouterModel {
    /// Whether every step has made itself known.
    pub open spec fn ready(self) -> bool {
        forall|id: ID| id < self.steps ==> self.registered.contains(id)
    }

    /// Whether `name` refers to a step of the pipeline.
    pub open spec fn declares(self, name: Seq<char>) -> bool {
        resolved(self.references, name) matches Some(id) && id < self.steps
    }
}

/// The routing state of a running pipeline.
#[derive(Debug, PartialEq)]
pub struct Router {
    pub references: Vec<Reference>,
    pub registered: Vec<bool>,
    pub ready: bool,
}

impl View for Router {
    type V = RouterModel;

    open spec fn view(&self) -> RouterModel {
        RouterModel {
            references: references_model(self.references@),
            steps: self.registered@.len(),
            registered: Set::new(
                |id: ID| id < self.registered@.len() && self.registered@[id as int],
            ),
        }
    }
}

/// What the caller is to do with a message.
#[derive(Debug, PartialEq)]
pub enum Action {
    /// Hand `request` to step `target`.
    Deliver { target: ID, request: Request },
    /// The message names a target that no step is known by: warn, and drop it.
    Unresolved { attach: String },
    /// The message has nowhere to go: drop it silently.
    Dropped,
    /// Not every step has made itself known yet: keep the message for later.
    Held { response: Response },
}

/// What an `Action` stands for.
pub enum ActionModel {
    Deliver { target: ID, request: RequestModel },
    Unresolved { attach: Seq<char> },
    Dropped,
    Held { response: ResponseModel },
}

impl View for Action {
    type V = ActionModel;

    open spec fn view(&self) -> ActionModel {
        match self {
            Action::Deliver { target, request } => ActionModel::Deliver {
                target: *target,
                request: request@,
            },
            Action::Unresolved { attach } => ActionModel::Unresolved { attach: attach@ },
            Action::Dropped => ActionModel::Dropped,
            Action::Held { response } => ActionModel::Held { response: response@ },
        }
    }
}

/// The request that carries on what `response` holds.
pub open spec fn forwarded(response: ResponseModel) -> RequestModel {
    RequestModel {
        origin: response.origin,
        payload: response.payload,
        trace_id: response.trace_id,
    }
}

/// Where a message goes.
///
/// Before every step has made itself known, nowhere: it is held. With an
/// attach target, to the step of that name, if there is one that has made
/// itself known. Without one, to the step after its origin; if there is
/// none, back to the first step, unless the first step is its origin.
pub open spec fn routed(router: RouterModel, response: ResponseModel) -> ActionModel {
    if !router.ready() {
        ActionModel::Held { response }
    } else {
        match response.attach {
            Some(name) => match resolved(router.references, name) {
                Some(id) => if router.registered.contains(id) {
                    ActionModel::Deliver { target: id, request: forwarded(response) }
                } else {
                    ActionModel::Unresolved { attach: name }
                },
                None => ActionModel::Unresolved { attach: name },
            },
            None => if response.origin < u32::MAX && router.registered.contains(
                (response.origin + 1) as u32,
            ) {
                ActionModel::Deliver {
                    target: (response.origin + 1) as u32,
                    request: forwarded(response),
                }
            } else if response.origin > 0 && router.registered.contains(0u32) {
                ActionModel::Deliver { target: 0u32, request: forwarded(response) }
            } else {
                ActionModel::Dropped
            },
        }
    }
}

/// What the router answers when a step makes itself known.
#[derive(PartialEq, Eq, Structural, Clone, Copy, Debug)]
pub enum Registration {
    /// The step is now known.
    Accepted,
    /// The step was known already.
    Repeated,
    /// The pipeline has no step of that identifier.
    Unknown,
}

impl Router {
    /// Whether the state is consistent: identifiers fit the number of steps,
    /// and `ready` says whether every step has made itself known.
    pub open spec fn wf(&self) -> bool {
        &&& self.registered@.len() <= u32::MAX
        &&& self.ready == self@.ready()
    }

    /// The state before any step has made itself known.
    pub fn new(references: Vec<Reference>, steps: ID) -> (router: Router)
        ensures
            router.wf(),
            router@.references == references_model(references@),
            router@.steps == steps,
            router@.registered == Set::<ID>::empty(),
    {
        let mut registered: Vec<bool> = Vec::new();
        let mut i: ID = 0;
        while i < steps
            invariant
                i <= steps,
                registered@.len() == i,
                forall|k: int| 0 <= k < i ==> !registered@[k],
            decreases steps - i,
        {
            registered.push(false);
            i += 1;
        }
        let router = Router { references, registered, ready: steps == 0 };
        assert(router@.registered =~= Set::<ID>::empty());
        assert(steps > 0 ==> !router@.registered.contains(0u32));
        router
    }

    /// Whether every step has made itself known.
    pub fn is_ready(&self) -> (ready: bool)
        requires
            self.wf(),
        ensures
            ready == self@.ready(),
    {
        self.ready
    }

    /// Takes note that step `id` has made itself known.
    pub fn register(&mut self, id: ID) -> (outcome: Registration)
        requires
            old(self).wf(),
        ensures
            final(self).wf(),
            final(self)@.references == old(self)@.references,
            final(self)@.steps == old(self)@.steps,
            id < old(self)@.steps ==> final(self)@.registered == old(self)@.registered.insert(id),
            id >= old(self)@.steps ==> final(self)@.registered == old(self)@.registered,
            outcome == (if id >= old(self)@.steps {
                Registration::Unknown
            } else if old(self)@.registered.contains(id) {
                Registration::Repeated
            } else {
                Registration::Accepted
            }),
    {
        if id as usize >= self.registered.len() {
            return Registration::Unknown;
        }
        let known = self.registered[id as usize];
        self.registered.set(id as usize, true);
        let mut all = true;
        let mut i: usize = 0;
        while i < self.registered.len()
            invariant
                i <= self.registered.len(),
                all == (forall|k: int| 0 <= k < i ==> self.registered@[k]),
            decreases self.registered.len() - i,
        {
            if !self.registered[i] {
                all = false;
            }
            i += 1;
        }
        self.ready = all;
        proof {
            assert(self@.registered =~= old(self)@.registered.insert(id));
            if all {
                assert forall|k: ID| k < self@.steps implies self@.registered.contains(k) by {
                    assert(self.registered@[k as int]);
                }
            } else {
                let k = choose|k: int| 0 <= k < self.registered@.len() && !self.registered@[k];
                assert(!self@.registered.contains(k as u32));
            }
        }
        if known {
            Registration::Repeated
        } else {
            Registration::Accepted
        }
    }

    /// Whether step `id` has made itself known.
    pub fn knows(&self, id: ID) -> (known: bool)
        ensures
            known == self@.registered.contains(id),
    {
        (id as usize) < self.registered.len() && self.registered[id as usize]
    }

    /// The step that `name` refers to.
    pub fn resolve(&self, name: &str) -> (found: Option<ID>)
        ensures
            found == resolved(self@.references, name@),
    {
        let mut i: usize = self.references.len();
        while i > 0
            invariant
                i <= self.references.len(),
                resolved(self@.references, name@) == resolved_upto(
                    self@.references,
                    i as int,
                    name@,
                ),
            decreases i,
        {
            i -= 1;
            if reads_as(self.references[i].name.as_str(), name) {
                return Some(self.references[i].id);
            }
        }
        None
    }

    /// Decides where `response` goes.
    pub fn route(&self, response: Response) -> (action: Action)
        requires
            self.wf(),
        ensures
            action@ == routed(self@, response@),
    {
        if !self.ready {
            return Action::Held { response };
        }
        match &response.attach {
            Some(name) => {
                let target = match self.resolve(name.as_str()) {
                    Some(id) => if self.knows(id) {
                        Some(id)
                    } else {
                        None
                    },
                    None => None,
                };
                match target {
                    Some(id) => Action::Deliver { target: id, request: forward(response) },
                    None => Action::Unresolved { attach: name.clone() },
                }
            },
            None => {
                let origin = response.origin;
                if origin < u32::MAX && self.knows(origin + 1) {
                    Action::Deliver { target: origin + 1, request: forward(response) }
                } else if origin > 0 && self.knows(0) {
                    Action::Deliver { target: 0, request: forward(response) }
                } else {
                    Action::Dropped
                }
            },
        }
    }
}

/// The steps to start and the routing state to start from.
#[derive(Debug, PartialEq)]
pub struct Startup {
    pub launches: Vec<Launch>,
    pub router: Router,
}

/// The modules that a document registers.
pub open spec fn registry(modules: Option<Seq<ModuleModel>>) -> Seq<ModuleModel> {
    match modules {
        Some(m) => m,
        None => Seq::empty(),
    }
}

/// Whether the module that `step` runs is registered.
pub open spec fn resolves(modules: Seq<ModuleModel>, step: StepModel) -> bool {
    source_of(modules, module_name(step)) is Some
}

/// How the steps of `pipeline` are started: step `i` gets the identifier `i`.
pub open spec fn planned_launches(modules: Seq<ModuleModel>, pipeline: Seq<StepModel>) -> Seq<
    LaunchModel,
> {
    Seq::new(
        pipeline.len(),
        |i: int| launch_of(pipeline[i], i as ID, source_of(modules, module_name(pipeline[i]))->0),
    )
}

/// The names of the steps of `pipeline`, each with its step.
pub open spec fn planned_references(pipeline: Seq<StepModel>) -> Seq<(Seq<char>, ID)> {
    Seq::new(pipeline.len(), |i: int| (effective_reference(pipeline[i], i as ID), i as ID))
}

/// The source registered for module `name`.
pub fn find_source(modules: &Vec<Module>, name: &str) -> (found: Option<String>)
    ensures
        crate::co2_struct::text_model(found) == source_of(modules_model(modules@), name@),
{
    let mut i: usize = modules.len();
    while i > 0
        invariant
            i <= modules.len(),
            source_of(modules_model(modules@), name@) == source_upto(
                modules_model(modules@),
                i as int,
                name@,
            ),
        decreases i,
    {
        i -= 1;
        if reads_as(modules[i].name.as_str(), name) {
            return Some(modules[i].source.clone());
        }
    }
    None
}

/// The name under which step `id` is known.
pub fn reference_of(step: &Step, id: ID) -> (name: String)
    ensures
        name@ == effective_reference(step@, id),
{
    match &step.reference {
        Some(name) => name.clone(),
        None => {
            let mut name = chars_of("step-");
            push_decimal(id as u64, &mut name);
            string_of(&name)
        },
    }
}

/// Lays out the start of the pipeline of `config`.
///
/// Every step gets its place as its identifier. The plan fails where a step
/// runs a module that `config` does not register; the error names the
/// module of the first such step.
pub fn plan(config: &Co2) -> (result: Result<Startup, StartupError>)
    ensures
        match result {
            Ok(startup) => {
                &&& config@.pipeline.len() <= u32::MAX
                &&& forall|i: int|
                    0 <= i < config@.pipeline.len() ==> resolves(
                        registry(config@.modules),
                        #[trigger] config@.pipeline[i],
                    )
                &&& launches_model(startup.launches@) == planned_launches(
                    registry(config@.modules),
                    config@.pipeline,
                )
                &&& startup.router.wf()
                &&& startup.router@ == (RouterModel {
                    references: planned_references(config@.pipeline),
                    steps: config@.pipeline.len(),
                    registered: Set::<ID>::empty(),
                })
            },
            Err(StartupError::TooManySteps) => config@.pipeline.len() > u32::MAX,
            Err(StartupError::ModuleResolution { module }) => {
                &&& config@.pipeline.len() <= u32::MAX
                &&& exists|k: int|
                    {
                        &&& 0 <= k < config@.pipeline.len()
                        &&& forall|j: int|
                            0 <= j < k ==> resolves(
                                registry(config@.modules),
                                #[trigger] config@.pipeline[j],
                            )
                        &&& !resolves(registry(config@.modules), #[trigger] config@.pipeline[k])
                        &&& module@ == module_name(config@.pipeline[k])
                    }
            },
        },
{
    if config.pipeline.len() > 0xffff_ffff {
        return Err(StartupError::TooManySteps);
    }
    let none: Vec<Module> = Vec::new();
    let modules: &Vec<Module> = match &config.modules {
        Some(m) => m,
        None => &none,
    };
    assert(modules_model(modules@) =~= registry(config@.modules));
    let ghost registered = registry(config@.modules);
    let ghost pipeline = config@.pipeline;
    let mut launches: Vec<Launch> = Vec::new();
    let mut references: Vec<Reference> = Vec::new();
    let mut i: usize = 0;
    while i < config.pipeline.len()
        invariant
            i <= config.pipeline.len(),
            config.pipeline.len() <= u32::MAX,
            pipeline == config@.pipeline,
            pipeline == steps_model(config.pipeline@),
            registered == registry(config@.modules),
            registered == modules_model(modules@),
            launches@.len() == i,
            references@.len() == i,
            forall|j: int| 0 <= j < i ==> resolves(registered, #[trigger] pipeline[j]),
            forall|j: int|
                0 <= j < i ==> (#[trigger] launches@[j])@ == launch_of(
                    pipeline[j],
                    j as ID,
                    source_of(registered, module_name(pipeline[j]))->0,
                ),
            forall|j: int|
                0 <= j < i ==> (#[trigger] references@[j]).name@ == effective_reference(
                    pipeline[j],
                    j as ID,
                ) && references@[j].id == j,
        decreases config.pipeline.len() - i,
    {
        let step = &config.pipeline[i];
        let id = i as ID;
        let module = match &step.module {
            Some(name) => name.clone(),
            None => "payload".to_owned(),
        };
        let source = match find_source(modules, module.as_str()) {
            Some(source) => source,
            None => {
                proof {
                    let k = i as int;
                    assert(pipeline[k] == step@);
                    assert(module@ == module_name(pipeline[k]));
                    assert(!resolves(registered, pipeline[k]));
                    assert(registered == registry(config@.modules));
                    assert(pipeline == config@.pipeline);
                    assert(0 <= k < config@.pipeline.len());
                }
                return Err(StartupError::ModuleResolution { module });
            },
        };
        let reference = reference_of(step, id);
        references.push(Reference { name: reference.clone(), id });
        launches.push(
            Launch {
                id,
                module,
                source,
                config: Config {
                    reference,
                    params: copy_json(&step.params),
                    producer: step.producer,
                    default_attach: copy_text(&step.attach),
                },
            },
        );
        i += 1;
    }
    let router = Router::new(references, config.pipeline.len() as ID);
    assert(launches_model(launches@) =~= planned_launches(registered, pipeline));
    assert(router@.references =~= planned_references(pipeline));
    Ok(Startup { launches, router })
}

/// Among the first `upto` steps of a planned pipeline, a name resolves to
/// the last step that is known by it, and to none where no step is.
pub proof fn lemma_resolved_upto(pipeline: Seq<StepModel>, name: Seq<char>, upto: int)
    requires
        pipeline.len() <= u32::MAX,
        0 <= upto <= pipeline.len(),
    ensures
        match resolved_upto(planned_references(pipeline), upto, name) {
            Some(id) => {
                &&& id < upto
                &&& effective_reference(pipeline[id as int], id) == name
                &&& forall|j: int|
                    id < j < upto ==> effective_reference(#[trigger] pipeline[j], j as ID) != name
            },
            None => forall|j: int|
                0 <= j < upto ==> effective_reference(#[trigger] pipeline[j], j as ID) != name,
        },
    decreases upto,
{
    if upto > 0 {
        lemma_resolved_upto(pipeline, name, upto - 1);
    }
}

/// In the routing state that a plan starts from, a name resolves to the
/// last step of the pipeline that is known by it; a name by which no step
/// is known resolves to none.
pub proof fn lemma_planned_resolution(pipeline: Seq<StepModel>, name: Seq<char>)
    requires
        pipeline.len() <= u32::MAX,
    ensures
        match resolved(planned_references(pipeline), name) {
            Some(id) => {
                &&& id < pipeline.len()
                &&& effective_reference(pipeline[id as int], id) == name
                &&& forall|j: int|
                    id < j < pipeline.len() ==> effective_reference(
                        #[trigger] pipeline[j],
                        j as ID,
                    ) != name
            },
            None => forall|j: int|
                0 <= j < pipeline.len() ==> effective_reference(#[trigger] pipeline[j], j as ID)
                    != name,
        },
{
    lemma_resolved_upto(pipeline, name, pipeline.len() as int);
}

/// No message is handed to a step before every step has made itself known.
pub proof fn lemma_startup_barrier(router: RouterModel, response: ResponseModel)
    ensures
        routed(router, response) is Deliver ==> router.ready(),
{
}

/// Once every step has made itself known, a message whose attach target is
/// the name of a step goes to that step, origin, payload and trace
/// identifier unchanged.
pub proof fn lemma_attach_resolution(router: RouterModel, response: ResponseModel, name: Seq<char>)
    requires
        router.ready(),
        response.attach == Some(name),
        router.declares(name),
    ensures
        routed(router, response) == (ActionModel::Deliver {
            target: resolved(router.references, name)->0,
            request: forwarded(response),
        }),
{
}

/// Once every step has made itself known, a message without an attach
/// target goes to the step after its origin; if there is none, to the first
/// step when its origin is a later one; and nowhere otherwise.
pub proof fn lemma_next_step(router: RouterModel, response: ResponseModel)
    requires
        router.ready(),
        router.steps <= u32::MAX,
        forall|id: ID| router.registered.contains(id) ==> id < router.steps,
        response.attach is None,
    ensures
        response.origin + 1 < router.steps ==> routed(router, response) == (ActionModel::Deliver {
            target: (response.origin + 1) as u32,
            request: forwarded(response),
        }),
        response.origin + 1 >= router.steps && response.origin > 0 && router.steps > 0 ==> routed(
            router,
            response,
        ) == (ActionModel::Deliver { target: 0u32, request: forwarded(response) }),
        response.origin + 1 >= router.steps && (response.origin == 0 || router.steps == 0)
            ==> routed(router, response) == ActionModel::Dropped,
{
    if response.origin + 1 < router.steps {
        assert(router.registered.contains((response.origin + 1) as u32));
    } else {
        if response.origin < u32::MAX {
            assert(!router.registered.contains((response.origin + 1) as u32));
        }
        if router.steps > 0 {
            assert(router.registered.contains(0u32));
        } else {
            assert(!router.registered.contains(0u32));
        }
    }
}

/// Whether no two steps of `pipeline` were given the same name.
pub open spec fn distinct_names(pipeline: Seq<StepModel>) -> bool {
    forall|i: int, j: int|
        0 <= i < j < pipeline.len() && pipeline[i].reference is Some ==> pipeline[i].reference
            != pipeline[j].reference
}

/// Whether no step of `pipeline` was given a name of the synthetic form.
pub open spec fn no_synthetic_names(pipeline: Seq<StepModel>) -> bool {
    forall|i: int, id: ID|
        0 <= i < pipeline.len() ==> (#[trigger] pipeline[i]).reference != Some(
            #[trigger] synthetic_reference(id),
        )
}

/// Whether every name given in `steps` is a name given in `pipeline`.
pub open spec fn names_from(steps: Seq<StepModel>, pipeline: Seq<StepModel>) -> bool {
    forall|i: int|
        0 <= i < steps.len() && (#[trigger] steps[i]).reference is Some ==> exists|k: int|
            0 <= k < pipeline.len() && (#[trigger] pipeline[k]).reference == steps[i].reference
}

/// Of the steps that one authored step becomes, at most one has a name, and
/// that name is the authored one.
pub proof fn lemma_step_names(step: StepModel)
    ensures
        forall|i: int|
            0 <= i < normalized_step(step).len() && (#[trigger] normalized_step(
                step,
            )[i]).reference is Some ==> normalized_step(step)[i].reference == step.reference,
        forall|i: int, j: int|
            0 <= i < j < normalized_step(step).len() ==> !((#[trigger] normalized_step(
                step,
            )[i]).reference is Some && (#[trigger] normalized_step(step)[j]).reference is Some),
{
}

/// Normalisation invents no names and repeats none.
pub proof fn lemma_normalized_names(pipeline: Seq<StepModel>)
    requires
        distinct_names(pipeline),
    ensures
        distinct_names(normalized(pipeline)),
        names_from(normalized(pipeline), pipeline),
    decreases pipeline.len(),
{
    if pipeline.len() > 0 {
        let front = pipeline.drop_last();
        let last = pipeline.last();
        lemma_normalized_names(front);
        lemma_step_names(last);
        let head = normalized(front);
        let tail = normalized_step(last);
        let all = normalized(pipeline);
        assert forall|i: int| 0 <= i < all.len() && (#[trigger] all[i]).reference is Some implies exists|
            k: int,
        |
            0 <= k < pipeline.len() && (#[trigger] pipeline[k]).reference == all[i].reference by {
            if i < head.len() {
                assert(all[i] == head[i]);
                let k = choose|k: int|
                    0 <= k < front.len() && (#[trigger] front[k]).reference == head[i].reference;
                assert(pipeline[k] == front[k]);
            } else {
                assert(all[i] == tail[i - head.len()]);
                assert(pipeline[pipeline.len() - 1].reference == all[i].reference);
            }
        }
        assert forall|i: int, j: int|
            0 <= i < j < all.len() && all[i].reference is Some implies all[i].reference
            != all[j].reference by {
            if all[j].reference is Some {
                if j < head.len() {
                    assert(all[i] == head[i] && all[j] == head[j]);
                } else if i < head.len() {
                    assert(all[i] == head[i]);
                    assert(all[j] == tail[j - head.len()]);
                    let k = choose|k: int|
                        0 <= k < front.len() && (#[trigger] front[k]).reference
                            == head[i].reference;
                    assert(pipeline[k] == front[k]);
                    assert(pipeline[k].reference != pipeline[pipeline.len() - 1].reference);
                } else {
                    assert(all[i] == tail[i - head.len()]);
                    assert(all[j] == tail[j - head.len()]);
                }
            }
        }
    }
}

/// Two steps have the same synthetic name only if they are the same step.
pub proof fn lemma_synthetic_injective(a: ID, b: ID)
    requires
        synthetic_reference(a) == synthetic_reference(b),
    ensures
        a == b,
{
    let prefix = "step-"@;
    let da = decimal(a as nat);
    let db = decimal(b as nat);
    assert((prefix + da).subrange(prefix.len() as int, (prefix + da).len() as int) =~= da);
    assert((prefix + db).subrange(prefix.len() as int, (prefix + db).len() as int) =~= db);
    assert((prefix + da).len() == (prefix + db).len());
    crate::text::lemma_decimal_injective(a as nat, b as nat);
}

/// Where no two steps of a pipeline were given the same name and none was
/// given a name of the synthetic form, a plan knows every step by a name
/// of its own: the names in the plan are pairwise distinct, and step `i` is
/// started under the identifier `i` with the name it was given, or with the
/// synthetic one where it was given none.
pub proof fn lemma_planned_names_unique(modules: Seq<ModuleModel>, pipeline: Seq<StepModel>)
    requires
        distinct_names(pipeline),
        no_synthetic_names(pipeline),
        pipeline.len() <= u32::MAX,
    ensures
        forall|i: int, j: int|
            0 <= i < j < pipeline.len() ==> (#[trigger] planned_references(pipeline)[i]).0
                != (#[trigger] planned_references(pipeline)[j]).0,
        forall|i: int|
            0 <= i < pipeline.len() ==> (#[trigger] planned_launches(modules, pipeline)[i]).id == i
                && planned_launches(modules, pipeline)[i].config.reference == effective_reference(
                pipeline[i],
                i as ID,
            ) && planned_launches(modules, pipeline)[i].config.params == pipeline[i].params
                && planned_launches(modules, pipeline)[i].config.producer == pipeline[i].producer
                && planned_launches(modules, pipeline)[i].config.default_attach
                == pipeline[i].attach,
{
    assert forall|i: int, j: int| 0 <= i < j < pipeline.len() implies (#[trigger] planned_references(
        pipeline,
    )[i]).0 != (#[trigger] planned_references(pipeline)[j]).0 by {
        lemma_effective_names_differ(pipeline, i, j);
    }
}

/// Where no two steps of a pipeline were given the same name and none was
/// given a name of the synthetic form, two different steps are known by
/// different names.
pub proof fn lemma_effective_names_differ(pipeline: Seq<StepModel>, i: int, j: int)
    requires
        distinct_names(pipeline),
        no_synthetic_names(pipeline),
        pipeline.len() <= u32::MAX,
        0 <= i < j < pipeline.len(),
    ensures
        effective_reference(pipeline[i], i as ID) != effective_reference(pipeline[j], j as ID),
{
    if pipeline[i].reference is Some && pipeline[j].reference is Some {
    } else if pipeline[i].reference is None && pipeline[j].reference is None {
        if synthetic_reference(i as ID) == synthetic_reference(j as ID) {
            lemma_synthetic_injective(i as ID, j as ID);
        }
    } else if pipeline[i].reference is Some {
        assert(pipeline[i].reference != Some(synthetic_reference(j as ID)));
    } else {
        assert(pipeline[j].reference != Some(synthetic_reference(i as ID)));
    }
}

/// Where the authors gave no name twice and none of the synthetic form, the
/// names by which the steps of the normalised pipeline are known are
/// pairwise distinct.
pub proof fn lemma_references_unique(pipeline: Seq<StepModel>)
    requires
        distinct_names(pipeline),
        no_synthetic_names(pipeline),
        normalized(pipeline).len() <= u32::MAX,
    ensures
        forall|i: int, j: int|
            0 <= i < j < normalized(pipeline).len() ==> effective_reference(
                normalized(pipeline)[i],
                i as ID,
            ) != effective_reference(normalized(pipeline)[j], j as ID),
{
    lemma_normalized_names(pipeline);
    let all = normalized(pipeline);
    assert forall|i: int, j: int| 0 <= i < j < all.len() implies effective_reference(
        all[i],
        i as ID,
    ) != effective_reference(all[j], j as ID) by {
        if all[i].reference is Some && all[j].reference is Some {
        } else if all[i].reference is None && all[j].reference is None {
            if synthetic_reference(i as ID) == synthetic_reference(j as ID) {
                lemma_synthetic_injective(i as ID, j as ID);
            }
        } else if all[i].reference is Some {
            let k = choose|k: int|
                0 <= k < pipeline.len() && (#[trigger] pipeline[k]).reference == all[i].reference;
            assert(pipeline[k].reference != Some(synthetic_reference(j as ID)));
        } else {
            let k = choose|k: int|
                0 <= k < pipeline.len() && (#[trigger] pipeline[k]).reference == all[j].reference;
            assert(pipeline[k].reference != Some(synthetic_reference(i as ID)));
        }
    }
}

/// Where the authors gave no name twice and none of the synthetic form,
/// every step of the normalised pipeline can be addressed: the name by
/// which it is known resolves to it and to no other step.
pub proof fn lemma_steps_addressable(pipeline: Seq<StepModel>, i: int)
    requires
        distinct_names(pipeline),
        no_synthetic_names(pipeline),
        normalized(pipeline).len() <= u32::MAX,
        0 <= i < normalized(pipeline).len(),
    ensures
        resolved(
            planned_references(normalized(pipeline)),
            effective_reference(normalized(pipeline)[i], i as ID),
        ) == Some(i as ID),
{
    let all = normalized(pipeline);
    let name = effective_reference(all[i], i as ID);
    lemma_references_unique(pipeline);
    lemma_planned_resolution(all, name);
    match resolved(planned_references(all), name) {
        Some(id) => {
            if id < i {
                assert(effective_reference(all[id as int], id) != effective_reference(
                    all[i],
                    i as ID,
                ));
            } else if id > i {
                assert(effective_reference(all[i], i as ID) != effective_reference(
                    all[id as int],
                    id,
                ));
            }
        },
        None => {
            assert(effective_reference(all[i], i as ID) != name);
        },
    }
}

/// In a running pipeline that was planned from a normalised document
/// whose authors gave no name twice and none of the synthetic form, a
/// message bound for the name of a step goes to that very step.
pub proof fn lemma_attach_closure(
    pipeline: Seq<StepModel>,
    router: RouterModel,
    response: ResponseModel,
    i: int,
)
    requires
        distinct_names(pipeline),
        no_synthetic_names(pipeline),
        normalized(pipeline).len() <= u32::MAX,
        0 <= i < normalized(pipeline).len(),
        router.references == planned_references(normalized(pipeline)),
        router.steps == normalized(pipeline).len(),
        router.ready(),
        response.attach == Some(effective_reference(normalized(pipeline)[i], i as ID)),
    ensures
        routed(router, response) == (ActionModel::Deliver {
            target: i as ID,
            request: forwarded(response),
        }),
{
    lemma_steps_addressable(pipeline, i);
    lemma_attach_resolution(
        router,
        response,
        effective_reference(normalized(pipeline)[i], i as ID),
    );
}

} // verus!
