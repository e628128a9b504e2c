//! The templating step: it answers each message with its parameters, in
//! which the expressions have been filled in from the message's payload.
//!
//! Rendering the template and reading the rendered text as a structured
//! value is the caller's work; what to render, and what to answer for each
//! outcome, is decided here.

use crate::co2_struct::copy_text;
use crate::co2_struct::json_model;
use crate::handlebars_helpers::capture_script;
use crate::handlebars_helpers::script_of;
use crate::handlebars_helpers::wrapped;
use crate::json::Json;
use crate::json::document_text;
use crate::json::JsonModel;
use crate::modules::Config;
use crate::modules::ID;
use crate::modules::next_trace;
use crate::modules::Request;
use crate::modules::Return;
use crate::modules::ReturnModel;
use crate::modules::TraceId;
use crate::scan::Capture;
use crate::scan::captures_model;
use crate::scan::captures_of;
use crate::scan::regex_captures;
use crate::text::append_chars;
use crate::text::chars_of;
use crate::text::replace_all;
use crate::text::replaced;
use crate::text::string_of;
use vstd::prelude::*;

verus! {

/// The regular expression for a quoted text that is one expression; its
/// group `occurrence` takes all of it, the quotes included.
pub open spec fn quoted_pattern() -> Seq<char> {
    r#"(?P<occurrence>("\{\{)((.|\n)*?)(}}"))"#@
}

/// The regular expression for a quoted text that is one use of the helper
/// `calc`; its group `content` takes what follows the helper's name.
pub open spec fn calc_pattern() -> Seq<char> {
    r#"(("\{\{)([ ]|)calc(?P<content>(.|\n)*?)(}}"))"#@
}

/// The expression that a quoted one stands for: the backslashes before its
/// double quotes are taken away, then the three characters at either end,
/// and what is left is written as an expression. A text too short to have
/// those ends stands for none.
pub open spec fn bare_expression(occurrence: Seq<char>) -> Option<Seq<char>> {
    let plain = replaced(occurrence, seq!['\\', '"'], seq!['"']);
    if plain.len() >= 6 {
        Some(wrapped(plain.subrange(3, plain.len() - 3)))
    } else {
        None
    }
}

/// `text` after the first `upto` of `captures` have been laid bare, one
/// after the other.
pub open spec fn bared_upto(
    text: Seq<char>,
    captures: Seq<(Seq<char>, Option<Seq<char>>)>,
    upto: int,
) -> Seq<char>
    decreases upto,
{
    if upto <= 0 || upto > captures.len() {
        text
    } else {
        let before = bared_upto(text, captures, upto - 1);
        let occurrence = script_of(captures[upto - 1]);
        match bare_expression(occurrence) {
            Some(expression) => replaced(before, occurrence, expression),
            None => before,
        }
    }
}

/// `text` after the first `upto` of `captures` have been put between
/// double quotes, one after the other.
pub open spec fn requoted_upto(
    text: Seq<char>,
    captures: Seq<(Seq<char>, Option<Seq<char>>)>,
    upto: int,
) -> Seq<char>
    decreases upto,
{
    if upto <= 0 || upto > captures.len() {
        text
    } else {
        let content = script_of(captures[upto - 1]);
        replaced(
            requoted_upto(text, captures, upto - 1),
            content,
            seq!['"'] + content + seq!['"'],
        )
    }
}

/// The template that the document text `origin` of a step's parameters
/// becomes: first the quoted expressions that `occurrences` holds are laid
/// bare, then the arguments of the helper `calc` that `calcs` holds are put
/// between double quotes. A search that could not be made changes nothing.
pub open spec fn template_by(
    origin: Seq<char>,
    occurrences: Option<Seq<(Seq<char>, Option<Seq<char>>)>>,
    calcs: Option<Seq<(Seq<char>, Option<Seq<char>>)>>,
) -> Seq<char> {
    let bared = match occurrences {
        Some(found) => bared_upto(origin, found, found.len() as int),
        None => origin,
    };
    match calcs {
        Some(found) => requoted_upto(bared, found, found.len() as int),
        None => bared,
    }
}

/// The template of a step with the parameters `params`.
pub open spec fn template_of(params: JsonModel) -> Seq<char> {
    let origin = document_text(params);
    template_by(
        origin,
        regex_captures(quoted_pattern(), "occurrence"@, origin),
        regex_captures(calc_pattern(), "content"@, origin),
    )
}

/// Lays bare in `text` the quoted expressions that `captures` holds.
pub fn bare_expressions(text: Vec<char>, captures: &Vec<Capture>) -> (out: Vec<char>)
    ensures
        out@ == bared_upto(text@, captures_model(captures@), captures@.len() as int),
{
    let ghost origin = text@;
    let mut text = text;
    let mut escaped: Vec<char> = Vec::new();
    escaped.push('\\');
    escaped.push('"');
    let mut quote: Vec<char> = Vec::new();
    quote.push('"');
    let open = chars_of("{{");
    let close = chars_of("}}");
    let mut i: usize = 0;
    while i < captures.len()
        invariant
            i <= captures.len(),
            escaped@ == seq!['\\', '"'],
            quote@ == seq!['"'],
            open@ == "{{"@,
            close@ == "}}"@,
            text@ == bared_upto(origin, captures_model(captures@), i as int),
        decreases captures.len() - i,
    {
        let occurrence = capture_script(&captures[i]);
        let plain = replace_all(&occurrence, &escaped, &quote);
        if plain.len() >= 6 {
            let mut to: Vec<char> = Vec::new();
            append_chars(&mut to, &open);
            let mut k: usize = 3;
            while k < plain.len() - 3
                invariant
                    3 <= k <= plain.len() - 3,
                    to@ == "{{"@ + plain@.subrange(3, k as int),
                decreases plain.len() - k,
            {
                to.push(plain[k]);
                assert(to@ =~= "{{"@ + plain@.subrange(3, k + 1));
                k += 1;
            }
            append_chars(&mut to, &close);
            assert(to@ =~= wrapped(plain@.subrange(3, plain@.len() - 3)));
            text = replace_all(&text, &occurrence, &to);
        }
        i += 1;
    }
    text
}

/// Puts between double quotes in `text` the contents that `captures` holds.
pub fn requote_contents(text: Vec<char>, captures: &Vec<Capture>) -> (out: Vec<char>)
    ensures
        out@ == requoted_upto(text@, captures_model(captures@), captures@.len() as int),
{
    let ghost origin = text@;
    let mut text = text;
    let mut i: usize = 0;
    while i < captures.len()
        invariant
            i <= captures.len(),
            text@ == requoted_upto(origin, captures_model(captures@), i as int),
        decreases captures.len() - i,
    {
        let content = capture_script(&captures[i]);
        let mut to: Vec<char> = Vec::new();
        to.push('"');
        append_chars(&mut to, &content);
        to.push('"');
        assert(to@ =~= seq!['"'] + content@ + seq!['"']);
        text = replace_all(&text, &content, &to);
        i += 1;
    }
    text
}

/// The template that the document text `origin` becomes, given what the two
/// searches found in it.
pub fn make_template(
    origin: &str,
    occurrences: &Option<Vec<Capture>>,
    calcs: &Option<Vec<Capture>>,
) -> (template: String)
    ensures
        template@ == template_by(
            origin@,
            match *occurrences {
                Some(found) => Some(captures_model(found@)),
                None => None,
            },
            match *calcs {
                Some(found) => Some(captures_model(found@)),
                None => None,
            },
        ),
{
    let text = chars_of(origin);
    let bared = match occurrences {
        Some(found) => bare_expressions(text, found),
        None => text,
    };
    let done = match calcs {
        Some(found) => requote_contents(bared, found),
        None => bared,
    };
    string_of(&done)
}

/// The template of the step that is started with `config`, where it has
/// parameters.
pub fn template(config: &Config) -> (result: Option<String>)
    ensures
        match result {
            Some(text) => config@.params matches Some(params) && text@ == template_of(params),
            None => config@.params is None,
        },
{
    match &config.params {
        Some(params) => {
            let origin = params.to_text();
            let occurrences = captures_of(
                r#"(?P<occurrence>("\{\{)((.|\n)*?)(}}"))"#,
                "occurrence",
                origin.as_str(),
            );
            let calcs = captures_of(
                r#"(("\{\{)([ ]|)calc(?P<content>(.|\n)*?)(}}"))"#,
                "content",
                origin.as_str(),
            );
            Some(make_template(origin.as_str(), &occurrences, &calcs))
        },
        None => None,
    }
}

/// What the step does next with a message.
#[derive(Debug, PartialEq)]
pub enum Next {
    /// Send this answer.
    Reply(Return),
    /// Render the template against `content`, and decide by `rendered`.
    Render { content: Json, trace_id: ID },
}

/// What a `Next` stands for.
pub enum NextModel {
    Reply(ReturnModel),
    Render { content: JsonModel, trace_id: ID },
}

impl View for Next {
    type V = NextModel;

    open spec fn view(&self) -> NextModel {
        match self {
            Next::Reply(answer) => NextModel::Reply(answer@),
            Next::Render { content, trace_id } => NextModel::Render {
                content: content@,
                trace_id: *trace_id,
            },
        }
    }
}

/// How a rendering ended.
#[derive(Debug, PartialEq)]
pub enum Rendered {
    /// The rendered text is a document; this is what it holds.
    Parsed(Option<Json>),
    /// The rendered text is no document.
    Unparsable,
    /// The template could not be rendered.
    Failed,
}

/// What the step does with `request`. Without parameters it has no
/// template and echoes the message. With a template, a success that holds
/// a value is to be rendered; a success without a value and a failure are
/// handed on as they are. The trace identifier is that of the request.
pub fn payload(request: Request, config: &Config) -> (next: Next)
    ensures
        next@ == (if config@.params is None {
            NextModel::Reply(
                ReturnModel {
                    payload: request@.payload,
                    attach: config@.default_attach,
                    trace_id: request@.trace_id,
                },
            )
        } else {
            match request@.payload {
                Ok(Some(content)) => NextModel::Render { content, trace_id: request@.trace_id },
                Ok(None) => NextModel::Reply(
                    ReturnModel {
                        payload: Ok(None),
                        attach: config@.default_attach,
                        trace_id: request@.trace_id,
                    },
                ),
                Err(content) => NextModel::Reply(
                    ReturnModel {
                        payload: Err(content),
                        attach: config@.default_attach,
                        trace_id: request@.trace_id,
                    },
                ),
            }
        }),
{
    let attach = copy_text(&config.default_attach);
    let trace_id = request.trace_id;
    if config.params.is_none() {
        return Next::Reply(Return { payload: request.payload, attach, trace_id });
    }
    match request.payload {
        Ok(Some(content)) => Next::Render { content, trace_id },
        Ok(None) => Next::Reply(Return { payload: Ok(None), attach, trace_id }),
        Err(content) => Next::Reply(Return { payload: Err(content), attach, trace_id }),
    }
}

/// What the step answers once the template has been rendered for the
/// message of trace `trace_id`: the document as a success; a failure
/// without a value where the template could not be rendered; and nothing
/// where the rendered text is no document.
pub fn rendered(outcome: Rendered, trace_id: ID, config: &Config) -> (answer: Option<Return>)
    ensures
        match outcome {
            Rendered::Parsed(data) => answer matches Some(message) && message@ == (ReturnModel {
                payload: Ok(json_model(data)),
                attach: config@.default_attach,
                trace_id: trace_id,
            }),
            Rendered::Unparsable => answer is None,
            Rendered::Failed => answer matches Some(message) && message@ == (ReturnModel {
                payload: Err(None),
                attach: config@.default_attach,
                trace_id: trace_id,
            }),
        },
{
    match outcome {
        Rendered::Parsed(data) => Some(
            Return { payload: Ok(data), attach: copy_text(&config.default_attach), trace_id },
        ),
        Rendered::Unparsable => None,
        Rendered::Failed => Some(
            Return { payload: Err(None), attach: copy_text(&config.default_attach), trace_id },
        ),
    }
}

/// Whether the step begins by rendering its template against an empty
/// object: a producer with parameters does.
pub fn opens(config: &Config) -> (renders: bool)
    ensures
        renders == (config@.params is Some && config@.producer == Some(true)),
{
    config.params.is_some() && match config.producer {
        Some(true) => true,
        _ => false,
    }
}

/// What a producer renders its template against before it has received
/// anything: an object without members.
pub fn opening_data() -> (data: Json)
    ensures
        data@ == JsonModel::Object(Seq::empty()),
{
    let data = Json::Object(Vec::new());
    proof {
        crate::json::lemma_view_of_parts(data);
        assert(data@->Object_0 =~= Seq::empty());
    }
    data
}

/// What a producer sends first, once its template has been rendered
/// against an object without members: the document as a success, under the
/// next trace identifier of the step's counter. Where there is no document,
/// nothing is sent and no identifier is taken.
pub fn opening(outcome: Rendered, config: &Config, counter: &mut TraceId) -> (first: Option<Return>)
    ensures
        match outcome {
            Rendered::Parsed(data) => {
                &&& final(counter).id == next_trace(old(counter).id)
                &&& first matches Some(message) && message@ == (ReturnModel {
                    payload: Ok(json_model(data)),
                    attach: config@.default_attach,
                    trace_id: final(counter).id,
                })
            },
            _ => first is None && final(counter).id == old(counter).id,
        },
{
    match outcome {
        Rendered::Parsed(data) => {
            let trace_id = counter.get_trace();
            Some(Return { payload: Ok(data), attach: copy_text(&config.default_attach), trace_id })
        },
        _ => None,
    }
}

} // verus!
