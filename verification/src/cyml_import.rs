//! The loader: from the text of a configuration document to the normalised
//! sequence of steps that the orchestrator runs.

use crate::co2_struct::Co2;
use crate::co2_struct::Co2Model;
use crate::co2_struct::copy_json;
use crate::co2_struct::copy_text;
use crate::co2_struct::json_model;
use crate::co2_struct::Payload;
use crate::co2_struct::PayloadModel;
use crate::co2_struct::Step;
use crate::co2_struct::StepModel;
use crate::co2_struct::steps_model;
use crate::co2_struct::text_model;
use crate::handlebars_helpers::capture_script;
use crate::handlebars_helpers::script_of;
use crate::json::Json;
use crate::json::JsonModel;
use crate::json::Member;
use crate::scan::Capture;
use crate::scan::captures_model;
use crate::scan::captures_of;
use crate::scan::regex_captures;
use crate::text::append_chars;
use crate::text::chars_of;
use crate::text::reads_as;
use crate::text::replace_all;
use crate::text::replaced;
use crate::text::same_chars;
use crate::text::string_of;
use vstd::prelude::*;

verus! {

/// The members of the object that stands for an inline payload record: its
/// request template, then its response template, each where it is present.
pub open spec fn record_members(record: PayloadModel) -> Seq<(Seq<char>, JsonModel)> {
    (match record.request {
        Some(r) => seq![("request"@, r)],
        None => Seq::empty(),
    }) + (match record.response {
        Some(r) => seq![("response"@, r)],
        None => Seq::empty(),
    })
}

/// An inline payload record as the parameters of a templating step.
pub open spec fn payload_record(record: PayloadModel) -> JsonModel {
    JsonModel::Object(record_members(record))
}

/// The templating step that goes before a module whose step carries a
/// request template: it takes over the reference and the producer flag.
pub open spec fn request_step(step: StepModel, request: JsonModel) -> StepModel {
    StepModel {
        module: Some("payload"@),
        params: Some(payload_record(PayloadModel { request: Some(request), response: None })),
        payload: None,
        reference: step.reference,
        producer: step.producer,
        attach: None,
    }
}

/// The templating step that goes behind a module whose step carries a
/// response template: it takes over the attach target.
pub open spec fn response_step(step: StepModel, response: JsonModel) -> StepModel {
    StepModel {
        module: Some("payload"@),
        params: Some(payload_record(PayloadModel { request: None, response: Some(response) })),
        payload: None,
        reference: None,
        producer: None,
        attach: step.attach,
    }
}

/// The module's own step, between or beside its templating steps: it keeps
/// its module and parameters, and the attach target only where `attach` is given.
pub open spec fn module_step(step: StepModel, attach: Option<Seq<char>>) -> StepModel {
    StepModel {
        module: step.module,
        params: step.params,
        payload: None,
        reference: None,
        producer: None,
        attach: attach,
    }
}

/// What a step with a module and an inline payload record becomes: the
/// module's step with its templating steps around it, or the step alone,
/// without the record, where the record holds neither template.
pub open spec fn unfolded(step: StepModel, record: PayloadModel) -> Seq<StepModel> {
    if record.request is None && record.response is None {
        seq![StepModel { payload: None, ..step }]
    } else {
        unfolded_around(step, record)
    }
}

/// The module's step and the templating steps around it, for a record that
/// holds a template.
pub open spec fn unfolded_around(step: StepModel, record: PayloadModel) -> Seq<StepModel> {
    (match record.request {
        Some(request) => seq![request_step(step, request)] + (if record.response is None {
            seq![module_step(step, step.attach)]
        } else {
            Seq::empty()
        }),
        None => Seq::empty(),
    }) + (match record.response {
        Some(response) => seq![module_step(step, None), response_step(step, response)],
        None => Seq::empty(),
    })
}

/// The normalised steps that one authored step becomes, in order.
///
/// A step of the templating module loses its inline record. A step without a
/// module becomes a templating step, with the inline record, where it has
/// one, as its parameters. A step with a module and an inline record is
/// unfolded into the module's step and the templating steps around it; where
/// the record holds neither template, the step stays and only the record
/// goes. Every step becomes one step at least.
pub open spec fn normalized_step(step: StepModel) -> Seq<StepModel> {
    if step.module == Some("payload"@) {
        seq![StepModel { payload: None, ..step }]
    } else if step.module is None {
        seq![
            StepModel {
                module: Some("payload"@),
                params: match step.payload {
                    Some(record) => Some(payload_record(record)),
                    None => step.params,
                },
                payload: None,
                ..step
            },
        ]
    } else {
        match step.payload {
            None => seq![step],
            Some(record) => unfolded(step, record),
        }
    }
}

/// The normalised pipeline: what each step becomes, in the order of the steps.
pub open spec fn normalized(pipeline: Seq<StepModel>) -> Seq<StepModel>
    decreases pipeline.len(),
{
    if pipeline.len() == 0 {
        Seq::empty()
    } else {
        normalized(pipeline.drop_last()) + normalized_step(pipeline.last())
    }
}

/// The document with its pipeline normalised; version and modules stay.
pub open spec fn normalized_config(config: Co2Model) -> Co2Model {
    Co2Model { pipeline: normalized(config.pipeline), ..config }
}

/// Whether a step has the shape that normalisation leaves: a module, and no
/// inline payload record.
pub open spec fn is_plain(step: StepModel) -> bool {
    step.module is Some && step.payload is None
}

/// Every step that normalisation emits has a module and no inline payload record.
pub proof fn lemma_normalized_is_plain(pipeline: Seq<StepModel>)
    ensures
        forall|i: int| 0 <= i < normalized(pipeline).len() ==> is_plain(#[trigger] normalized(pipeline)[i]),
    decreases pipeline.len(),
{
    if pipeline.len() > 0 {
        lemma_normalized_is_plain(pipeline.drop_last());
        let head = normalized(pipeline.drop_last());
        let tail = normalized_step(pipeline.last());
        assert forall|i: int| 0 <= i < normalized(pipeline).len() implies is_plain(
            #[trigger] normalized(pipeline)[i],
        ) by {
            if i < head.len() {
                assert(normalized(pipeline)[i] == head[i]);
            } else {
                assert(normalized(pipeline)[i] == tail[i - head.len()]);
            }
        }
    }
}

/// A pipeline of steps that each have a module and no inline payload record
/// is its own normal form.
pub proof fn lemma_plain_is_fixed(pipeline: Seq<StepModel>)
    requires
        forall|i: int| 0 <= i < pipeline.len() ==> is_plain(#[trigger] pipeline[i]),
    ensures
        normalized(pipeline) == pipeline,
    decreases pipeline.len(),
{
    if pipeline.len() > 0 {
        lemma_plain_is_fixed(pipeline.drop_last());
        let last = pipeline.last();
        assert(is_plain(last));
        assert(normalized_step(last) =~= seq![last]);
        assert(pipeline.drop_last() + seq![last] =~= pipeline);
    } else {
        assert(normalized(pipeline) =~= pipeline);
    }
}

/// Every authored step becomes one normalised step at least: none is lost.
pub proof fn lemma_step_is_kept(step: StepModel)
    ensures
        normalized_step(step).len() >= 1,
{
}

/// The normalised pipeline has as many steps as the authored one at least.
pub proof fn lemma_no_step_is_lost(pipeline: Seq<StepModel>)
    ensures
        normalized(pipeline).len() >= pipeline.len(),
    decreases pipeline.len(),
{
    if pipeline.len() > 0 {
        lemma_no_step_is_lost(pipeline.drop_last());
        lemma_step_is_kept(pipeline.last());
    }
}

/// Normalising a document a second time changes nothing.
pub proof fn lemma_render_idempotent(config: Co2Model)
    ensures
        normalized_config(normalized_config(config)) == normalized_config(config),
{
    lemma_normalized_is_plain(config.pipeline);
    lemma_plain_is_fixed(normalized(config.pipeline));
}

/// The object that stands for an inline payload record.
pub fn record_params(record: &Payload) -> (params: Json)
    ensures
        params@ == payload_record(record@),
{
    let mut members: Vec<Member> = Vec::new();
    match &record.request {
        Some(request) => {
            members.push(Member { name: "request".to_owned(), value: request.duplicate() });
        },
        None => {},
    }
    match &record.response {
        Some(response) => {
            members.push(Member { name: "response".to_owned(), value: response.duplicate() });
        },
        None => {},
    }
    let params = Json::Object(members);
    assert(params@->Object_0 =~= record_members(record@));
    params
}

/// Appends to `out` the normalised steps that `step` becomes.
pub fn normalize_step(step: &Step, out: &mut Vec<Step>)
    ensures
        steps_model(final(out)@) == steps_model(old(out)@) + normalized_step(step@),
{
    let ghost before = steps_model(out@);
    let templating = match &step.module {
        Some(name) => reads_as(name.as_str(), "payload"),
        None => false,
    };
    if templating {
        out.push(
            Step {
                module: copy_text(&step.module),
                params: copy_json(&step.params),
                payload: None,
                reference: copy_text(&step.reference),
                producer: step.producer,
                attach: copy_text(&step.attach),
            },
        );
        assert(steps_model(out@) =~= before + normalized_step(step@));
        return ;
    }
    if step.module.is_none() {
        let params = match &step.payload {
            Some(record) => Some(record_params(record)),
            None => copy_json(&step.params),
        };
        out.push(
            Step {
                module: Some("payload".to_owned()),
                params,
                payload: None,
                reference: copy_text(&step.reference),
                producer: step.producer,
                attach: copy_text(&step.attach),
            },
        );
        assert(steps_model(out@) =~= before + normalized_step(step@));
        return ;
    }
    match &step.payload {
        None => {
            out.push(
                Step {
                    module: copy_text(&step.module),
                    params: copy_json(&step.params),
                    payload: None,
                    reference: copy_text(&step.reference),
                    producer: step.producer,
                    attach: copy_text(&step.attach),
                },
            );
            assert(steps_model(out@) =~= before + normalized_step(step@));
        },
        Some(record) => {
            if record.request.is_none() && record.response.is_none() {
                out.push(
                    Step {
                        module: copy_text(&step.module),
                        params: copy_json(&step.params),
                        payload: None,
                        reference: copy_text(&step.reference),
                        producer: step.producer,
                        attach: copy_text(&step.attach),
                    },
                );
                assert(steps_model(out@) =~= before + normalized_step(step@));
                return ;
            }
            match &record.request {
                Some(request) => {
                    let alone = Payload { request: Some(request.duplicate()), response: None };
                    out.push(
                        Step {
                            module: Some("payload".to_owned()),
                            params: Some(record_params(&alone)),
                            payload: None,
                            reference: copy_text(&step.reference),
                            producer: step.producer,
                            attach: None,
                        },
                    );
                    if record.response.is_none() {
                        out.push(
                            Step {
                                module: copy_text(&step.module),
                                params: copy_json(&step.params),
                                payload: None,
                                reference: None,
                                producer: None,
                                attach: copy_text(&step.attach),
                            },
                        );
                    }
                },
                None => {},
            }
            match &record.response {
                Some(response) => {
                    let alone = Payload { request: None, response: Some(response.duplicate()) };
                    out.push(
                        Step {
                            module: copy_text(&step.module),
                            params: copy_json(&step.params),
                            payload: None,
                            reference: None,
                            producer: None,
                            attach: None,
                        },
                    );
                    out.push(
                        Step {
                            module: Some("payload".to_owned()),
                            params: Some(record_params(&alone)),
                            payload: None,
                            reference: None,
                            producer: None,
                            attach: copy_text(&step.attach),
                        },
                    );
                },
                None => {},
            }
            assert(steps_model(out@) =~= before + normalized_step(step@));
        },
    }
}

/// Normalises the pipeline of a document: every step of the result has a
/// module and no inline payload record, and the version and the modules are
/// those of `origin`. It never fails.
pub fn render(origin: Co2) -> (result: Result<Co2, String>)
    ensures
        result matches Ok(config) && config@ == normalized_config(origin@),
{
    let Co2 { version, modules, pipeline } = origin;
    let mut out: Vec<Step> = Vec::new();
    let mut i: usize = 0;
    while i < pipeline.len()
        invariant
            i <= pipeline.len(),
            steps_model(out@) == normalized(steps_model(pipeline@).take(i as int)),
        decreases pipeline.len() - i,
    {
        let ghost seen = steps_model(pipeline@).take(i + 1);
        assert(seen.drop_last() =~= steps_model(pipeline@).take(i as int));
        assert(seen.last() == pipeline@[i as int]@);
        normalize_step(&pipeline[i], &mut out);
        i += 1;
    }
    assert(steps_model(pipeline@).take(i as int) =~= steps_model(pipeline@));
    Ok(Co2 { version, modules, pipeline: out })
}

/// The regular expression for an expression block of the configuration
/// dialect: `{{`, anything up to the next `}}`, line breaks included.
pub open spec fn block_pattern() -> Seq<char> {
    r"(?P<script>(\{\{)((.|\n)*?)(}}))"@
}

/// An expression block as a quoted scalar: between double quotes, with a
/// backslash before each double quote of its own.
pub open spec fn quoted_block(block: Seq<char>) -> Seq<char> {
    seq!['"'] + replaced(block, seq!['"'], seq!['\\', '"']) + seq!['"']
}

/// The text of block `at` of `captures`.
pub open spec fn block_of(captures: Seq<(Seq<char>, Option<Seq<char>>)>, at: int) -> Seq<char> {
    script_of(captures[at])
}

/// Whether block `at` of `captures` stands among them earlier too.
pub open spec fn seen_before(captures: Seq<(Seq<char>, Option<Seq<char>>)>, at: int) -> bool {
    exists|k: int| 0 <= k < at && block_of(captures, k) == block_of(captures, at)
}

/// `text` after the first `upto` blocks of `captures` have been quoted, one
/// after the other: a block that was not met before is replaced, everywhere
/// it stands, by its quoted form; one that was is passed over.
pub open spec fn quoted_upto(
    text: Seq<char>,
    captures: Seq<(Seq<char>, Option<Seq<char>>)>,
    upto: int,
) -> Seq<char>
    decreases upto,
{
    if upto <= 0 || upto > captures.len() {
        text
    } else if seen_before(captures, upto - 1) {
        quoted_upto(text, captures, upto - 1)
    } else {
        replaced(
            quoted_upto(text, captures, upto - 1),
            block_of(captures, upto - 1),
            quoted_block(block_of(captures, upto - 1)),
        )
    }
}

/// `text` with each distinct block of `found` quoted, in the order in which
/// the blocks were first met; `text` itself where the search could not be made.
pub open spec fn quoted_by(text: Seq<char>, found: Option<Seq<(Seq<char>, Option<Seq<char>>)>>) -> Seq<
    char,
> {
    match found {
        Some(captures) => quoted_upto(text, captures, captures.len() as int),
        None => text,
    }
}

/// Whether block `at` of `captures` stands among them earlier too.
fn met_before(captures: &Vec<Capture>, at: usize) -> (met: bool)
    requires
        at < captures.len(),
    ensures
        met == seen_before(captures_model(captures@), at as int),
{
    let block = capture_script(&captures[at]);
    let mut k: usize = 0;
    while k < at
        invariant
            k <= at,
            at < captures.len(),
            block@ == block_of(captures_model(captures@), at as int),
            forall|j: int|
                0 <= j < k ==> block_of(captures_model(captures@), j) != block_of(
                    captures_model(captures@),
                    at as int,
                ),
        decreases at - k,
    {
        let earlier = capture_script(&captures[k]);
        if same_chars(&earlier, &block) {
            assert(block_of(captures_model(captures@), k as int) == block_of(
                captures_model(captures@),
                at as int,
            ));
            return true;
        }
        k += 1;
    }
    false
}

/// Quotes in `content` each distinct block of `captures`, in the order in
/// which the blocks were first met.
pub fn quote_blocks(content: &str, captures: &Vec<Capture>) -> (out: String)
    ensures
        out@ == quoted_upto(content@, captures_model(captures@), captures@.len() as int),
{
    let mut text = chars_of(content);
    let mut quote: Vec<char> = Vec::new();
    quote.push('"');
    let mut escaped: Vec<char> = Vec::new();
    escaped.push('\\');
    escaped.push('"');
    let mut i: usize = 0;
    while i < captures.len()
        invariant
            i <= captures.len(),
            quote@ == seq!['"'],
            escaped@ == seq!['\\', '"'],
            text@ == quoted_upto(content@, captures_model(captures@), i as int),
        decreases captures.len() - i,
    {
        if !met_before(captures, i) {
            let block = capture_script(&captures[i]);
            let inner = replace_all(&block, &quote, &escaped);
            let mut to: Vec<char> = Vec::new();
            to.push('"');
            append_chars(&mut to, &inner);
            to.push('"');
            assert(to@ =~= quoted_block(block@));
            text = replace_all(&text, &block, &to);
        }
        i += 1;
    }
    string_of(&text)
}

/// Turns a document of the configuration dialect into plain YAML: every
/// expression block becomes a quoted scalar, so that what stands inside it
/// no longer disturbs the reading of the document.
pub fn cyml_to_yaml(content: String) -> (yaml: String)
    ensures
        yaml@ == quoted_by(content@, regex_captures(block_pattern(), "script"@, content@)),
{
    match captures_of(r"(?P<script>(\{\{)((.|\n)*?)(}}))", "script", content.as_str()) {
        Some(captures) => quote_blocks(content.as_str(), &captures),
        None => content,
    }
}

/// The two ways in which a configuration document may be written.
#[derive(PartialEq, Eq, Structural, Clone, Copy, Debug)]
pub enum Format {
    /// Plain YAML.
    Yaml,
    /// YAML with expression blocks that are not quoted yet.
    Cyml,
}

/// Why a file cannot be taken for a configuration document.
#[derive(Clone, Debug, PartialEq)]
pub enum ImportError {
    /// The file's name has no extension.
    MissingExtension,
    /// The file's name has an extension that stands for no known format.
    UnknownExtension { extension: String },
}

/// The format that a file's extension stands for: `yml` and `yaml` for
/// plain YAML, `cyml` for the dialect, and none for any other.
pub open spec fn format_of(extension: Seq<char>) -> Option<Format> {
    if extension == "cyml"@ {
        Some(Format::Cyml)
    } else if extension == "yml"@ || extension == "yaml"@ {
        Some(Format::Yaml)
    } else {
        None
    }
}

/// The YAML text of a document read as `raw` from a file of the given format.
pub open spec fn yaml_of(format: Format, raw: Seq<char>) -> Seq<char> {
    match format {
        Format::Yaml => raw,
        Format::Cyml => quoted_by(raw, regex_captures(block_pattern(), "script"@, raw)),
    }
}

/// Tells the format of a document by the extension of its file.
pub fn source_format(extension: Option<&str>) -> (result: Result<Format, ImportError>)
    ensures
        match result {
            Ok(format) => extension matches Some(ext) && format_of(ext@) == Some(format),
            Err(ImportError::MissingExtension) => extension is None,
            Err(ImportError::UnknownExtension { extension: unknown }) => extension matches Some(ext)
                && format_of(ext@) is None && unknown@ == ext@,
        },
{
    match extension {
        None => Err(ImportError::MissingExtension),
        Some(ext) => {
            if reads_as(ext, "cyml") {
                Ok(Format::Cyml)
            } else if reads_as(ext, "yml") || reads_as(ext, "yaml") {
                Ok(Format::Yaml)
            } else {
                Err(ImportError::UnknownExtension { extension: ext.to_owned() })
            }
        },
    }
}

/// The YAML text of the document `raw`, read from a file with the given
/// extension: `raw` itself for plain YAML, `raw` with its expression blocks
/// quoted for the dialect. Any other extension, or none, is refused.
pub fn prepare(extension: Option<&str>, raw: String) -> (result: Result<String, ImportError>)
    ensures
        match result {
            Ok(yaml) => extension matches Some(ext) && format_of(ext@) matches Some(format)
                && yaml@ == yaml_of(format, raw@),
            Err(ImportError::MissingExtension) => extension is None,
            Err(ImportError::UnknownExtension { extension: unknown }) => extension matches Some(ext)
                && format_of(ext@) is None && unknown@ == ext@,
        },
{
    match source_format(extension) {
        Ok(Format::Yaml) => Ok(raw),
        Ok(Format::Cyml) => Ok(cyml_to_yaml(raw)),
        Err(error) => Err(error),
    }
}

/// `std::path::Path::extension` of the path `pathname`, where it is valid
/// Unicode. What counts as the file's name in a path differs from one
/// system to another, so nothing is claimed of the result.
#[verifier::external_body]
pub(crate) fn extension_of(pathname: &str) -> (extension: Option<String>) {
    match std::path::Path::new(pathname).extension() {
        Some(ext) => match ext.to_str() {
            Some(text) => Some(text.to_string()),
            None => None,
        },
        None => None,
    }
}

/// The YAML text of the document `raw`, read from the file `pathname`: the
/// file's extension decides as in `prepare`.
pub fn import_source(pathname: &str, raw: String) -> (result: Result<String, ImportError>)
    ensures
        result matches Ok(yaml) ==> exists|format: Format| yaml@ == #[trigger] yaml_of(format, raw@),
        result matches Err(ImportError::UnknownExtension { extension }) ==> format_of(extension@)
            is None,
{
    let ghost text = raw@;
    let extension = extension_of(pathname);
    let result = match &extension {
        Some(ext) => prepare(Some(ext.as_str()), raw),
        None => prepare(None, raw),
    };
    proof {
        if result is Ok {
            let format = format_of(extension->0@)->0;
            assert(result->Ok_0@ == yaml_of(format, text));
        }
    }
    result
}

} // verus!
