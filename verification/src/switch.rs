//! The routing step: it sends a message on to the attach target of the
//! first of its cases whose condition holds of the message.
//!
//! A case is a condition and an attach target. The condition is a template;
//! rendering it against a message's payload is the caller's work, and the
//! case holds where the rendering reads `true`.

use crate::co2_struct::copy_text;
use crate::co2_struct::json_model;
use crate::co2_struct::text_model;
use crate::handlebars_helpers::cleared_text;
use crate::handlebars_helpers::syntax_clear;
use crate::handlebars_helpers::wrapped;
use crate::json::items_model;
use crate::json::number_text;
use crate::json::write_number;
use crate::json::Json;
use crate::json::JsonModel;
use crate::modules::Config;
use crate::modules::PayloadModel;
use crate::modules::Request;
use crate::modules::Return;
use crate::modules::ReturnModel;
use crate::text::append_chars;
use crate::text::chars_of;
use crate::text::reads_as;
use crate::text::string_of;
use vstd::prelude::*;

verus! {

/// A condition, as a template, and the attach target that goes with it.
#[derive(Clone, Debug, PartialEq)]
pub struct Case {
    pub template: String,
    pub attach: String,
}

impl View for Case {
    type V = (Seq<char>, Seq<char>);

    open spec fn view(&self) -> (Seq<char>, Seq<char>) {
        (self.template@, self.attach@)
    }
}

/// What a list of cases stands for.
pub open spec fn cases_model(cases: Seq<Case>) -> Seq<(Seq<char>, Seq<char>)> {
    Seq::new(cases.len(), |i: int| cases[i]@)
}

/// What is wrong with a case of the step's parameters.
#[derive(PartialEq, Eq, Structural, Clone, Copy, Debug)]
pub enum SwitchError {
    /// The condition is not a text.
    ConditionNotText,
    /// The attach target is missing or is not a text.
    AttachNotText,
    /// The operator is not a text.
    OperatorNotText,
    /// The case has an operator and lacks an operand.
    OperandMissing,
    /// An operand is a list or an object.
    OperandNotScalar,
}

/// An operand as it is written in a condition: a text between double
/// quotes, as it is; a number as in a document; a truth value as its word;
/// the null value as `null`. A list or an object cannot be written in one.
pub open spec fn operand_text(item: JsonModel) -> Option<Seq<char>> {
    match item {
        JsonModel::Text(text) => Some(seq!['"'] + text + seq!['"']),
        JsonModel::Number(number) => Some(number_text(number)),
        JsonModel::Bool(b) => Some(
            if b {
                "true"@
            } else {
                "false"@
            },
        ),
        JsonModel::Null => Some("null"@),
        JsonModel::List(_) => None,
        JsonModel::Object(_) => None,
    }
}

/// An operand as it is written in a condition.
pub fn value_to_string(item: &Json) -> (result: Result<String, String>)
    ensures
        match result {
            Ok(text) => operand_text(item@) == Some(text@),
            Err(message) => operand_text(item@) is None && message@
                == "Cannot convert Array and Object to string."@,
        },
{
    match item {
        Json::Text(text) => {
            let mut out: Vec<char> = Vec::new();
            out.push('"');
            let inner = chars_of(text.as_str());
            append_chars(&mut out, &inner);
            out.push('"');
            assert(out@ =~= seq!['"'] + text@ + seq!['"']);
            Ok(string_of(&out))
        },
        Json::Number(number) => {
            let mut out: Vec<char> = Vec::new();
            write_number(number, &mut out);
            assert(out@ =~= number_text(number@));
            Ok(string_of(&out))
        },
        Json::Bool(b) => if *b {
            Ok("true".to_owned())
        } else {
            Ok("false".to_owned())
        },
        Json::Null => Ok("null".to_owned()),
        Json::List(_) => Err("Cannot convert Array and Object to string.".to_owned()),
        Json::Object(_) => Err("Cannot convert Array and Object to string.".to_owned()),
    }
}

/// The condition of a case that compares two operands: the operator, then
/// the operands without the braces of their expressions, with spaces between.
pub open spec fn comparison(operator: Seq<char>, left: Seq<char>, right: Seq<char>) -> Seq<char> {
    wrapped(operator + " "@ + cleared_text(left) + " "@ + cleared_text(right))
}

/// The case that an operator and two operands make, where the case is
/// complete.
pub open spec fn compared_case(case: JsonModel, operator: JsonModel) -> Result<
    Option<(Seq<char>, Seq<char>)>,
    SwitchError,
> {
    match (case.member("left"@), case.member("right"@)) {
        (None, _) => Err(SwitchError::OperandMissing),
        (Some(left), right) => match operand_text(left) {
            None => Err(SwitchError::OperandNotScalar),
            Some(left_text) => match right {
                None => Err(SwitchError::OperandMissing),
                Some(right) => match operand_text(right) {
                    None => Err(SwitchError::OperandNotScalar),
                    Some(right_text) => match case.member("attach"@) {
                        None => Err(SwitchError::AttachNotText),
                        Some(attach) => match attach.as_str() {
                            None => Err(SwitchError::AttachNotText),
                            Some(target) => match operator.as_str() {
                                None => Err(SwitchError::OperatorNotText),
                                Some(op) => Ok(
                                    Some((comparison(op, left_text, right_text), target)),
                                ),
                            },
                        },
                    },
                },
            },
        },
    }
}

/// The case that one item of the step's parameters stands for.
///
/// An item with a condition and an attach target is a case of that
/// condition. An item with an operator, two operands and an attach target
/// is a case of their comparison. An item that is no object, or has a
/// condition and no attach target, or has neither condition nor operator,
/// is no case and is passed over.
pub open spec fn case_of(case: JsonModel) -> Result<Option<(Seq<char>, Seq<char>)>, SwitchError> {
    match case.member("condition"@) {
        Some(condition) => match case.member("attach"@) {
            None => Ok(None),
            Some(attach) => match condition.as_str() {
                None => Err(SwitchError::ConditionNotText),
                Some(script) => match attach.as_str() {
                    None => Err(SwitchError::AttachNotText),
                    Some(target) => Ok(Some((wrapped(script), target))),
                },
            },
        },
        None => match case.member("operator"@) {
            None => Ok(None),
            Some(operator) => compared_case(case, operator),
        },
    }
}

/// The place of the case with the condition `template` among the first
/// `upto` of `cases`, if there is one.
pub open spec fn place_of(cases: Seq<(Seq<char>, Seq<char>)>, template: Seq<char>, upto: int) -> Option<
    int,
>
    decreases upto,
{
    if upto <= 0 || upto > cases.len() {
        None
    } else if cases[upto - 1].0 == template {
        Some(upto - 1)
    } else {
        place_of(cases, template, upto - 1)
    }
}

/// `cases` with one more case: a condition that is there already gets the
/// new attach target in its place, a new one goes to the end.
pub open spec fn with_case(cases: Seq<(Seq<char>, Seq<char>)>, case: (Seq<char>, Seq<char>)) -> Seq<
    (Seq<char>, Seq<char>),
> {
    match place_of(cases, case.0, cases.len() as int) {
        Some(at) => cases.update(at, case),
        None => cases.push(case),
    }
}

/// The cases that the first `upto` of `items` stand for, or what is wrong
/// with the first of them that is malformed.
pub open spec fn cases_upto(items: Seq<JsonModel>, upto: int) -> Result<
    Seq<(Seq<char>, Seq<char>)>,
    SwitchError,
>
    decreases upto,
{
    if upto <= 0 || upto > items.len() {
        Ok(Seq::empty())
    } else {
        match cases_upto(items, upto - 1) {
            Err(error) => Err(error),
            Ok(cases) => match case_of(items[upto - 1]) {
                Err(error) => Err(error),
                Ok(None) => Ok(cases),
                Ok(Some(case)) => Ok(with_case(cases, case)),
            },
        }
    }
}

/// The cases of a step with the given parameters. Parameters that are no
/// list give no cases at all, not even an empty list of them: such a step
/// answers nothing.
pub open spec fn cases_of(params: Option<JsonModel>) -> Result<
    Option<Seq<(Seq<char>, Seq<char>)>>,
    SwitchError,
> {
    match params {
        Some(JsonModel::List(items)) => match cases_upto(items, items.len() as int) {
            Ok(cases) => Ok(Some(cases)),
            Err(error) => Err(error),
        },
        _ => Ok(None),
    }
}

/// The text of the member `key` of `case`, where it is a text.
fn member_text(case: &Json, key: &str) -> (text: Option<String>)
    ensures
        text_model(text) == (match case@.member(key@) {
            Some(value) => value.as_str(),
            None => None,
        }),
{
    match case.get(key) {
        Some(value) => match value.as_str() {
            Some(text) => Some(text.to_owned()),
            None => None,
        },
        None => None,
    }
}

/// The operand `key` of `case`, as it is written in a condition.
fn operand(case: &Json, key: &str) -> (result: Result<String, SwitchError>)
    ensures
        match result {
            Ok(text) => case@.member(key@) matches Some(value) && operand_text(value) == Some(
                text@,
            ),
            Err(SwitchError::OperandMissing) => case@.member(key@) is None,
            Err(SwitchError::OperandNotScalar) => case@.member(key@) matches Some(value)
                && operand_text(value) is None,
            Err(_) => false,
        },
{
    match case.get(key) {
        None => Err(SwitchError::OperandMissing),
        Some(value) => match value_to_string(value) {
            Ok(text) => Ok(text),
            Err(_) => Err(SwitchError::OperandNotScalar),
        },
    }
}

/// The condition of a case that compares two operands.
fn compare(operator: &str, left: &str, right: &str) -> (template: String)
    ensures
        template@ == comparison(operator@, left@, right@),
{
    let left_clear = syntax_clear(left);
    let right_clear = syntax_clear(right);
    let space = chars_of(" ");
    let mut out = chars_of("{{");
    let op = chars_of(operator);
    let l = chars_of(left_clear.as_str());
    let r = chars_of(right_clear.as_str());
    let close = chars_of("}}");
    append_chars(&mut out, &op);
    append_chars(&mut out, &space);
    append_chars(&mut out, &l);
    append_chars(&mut out, &space);
    append_chars(&mut out, &r);
    append_chars(&mut out, &close);
    assert(out@ =~= comparison(operator@, left@, right@));
    string_of(&out)
}

/// The case that one item of the step's parameters stands for.
pub fn read_case(case: &Json) -> (result: Result<Option<Case>, SwitchError>)
    ensures
        match result {
            Ok(Some(found)) => case_of(case@) == Ok::<Option<(Seq<char>, Seq<char>)>, SwitchError>(
                Some(found@),
            ),
            Ok(None) => case_of(case@) == Ok::<Option<(Seq<char>, Seq<char>)>, SwitchError>(None),
            Err(error) => case_of(case@) == Err::<Option<(Seq<char>, Seq<char>)>, SwitchError>(
                error,
            ),
        },
{
    match case.get("condition") {
        Some(condition) => match case.get("attach") {
            None => Ok(None),
            Some(attach) => match condition.as_str() {
                None => Err(SwitchError::ConditionNotText),
                Some(script) => match attach.as_str() {
                    None => Err(SwitchError::AttachNotText),
                    Some(target) => {
                        let mut out = chars_of("{{");
                        let inner = chars_of(script);
                        let close = chars_of("}}");
                        append_chars(&mut out, &inner);
                        append_chars(&mut out, &close);
                        Ok(Some(Case { template: string_of(&out), attach: target.to_owned() }))
                    },
                },
            },
        },
        None => match case.get("operator") {
            None => Ok(None),
            Some(operator) => {
                let left = match operand(case, "left") {
                    Ok(text) => text,
                    Err(error) => {
                        return Err(error);
                    },
                };
                let right = match operand(case, "right") {
                    Ok(text) => text,
                    Err(error) => {
                        return Err(error);
                    },
                };
                let target = match member_text(case, "attach") {
                    Some(text) => text,
                    None => {
                        return Err(SwitchError::AttachNotText);
                    },
                };
                match operator.as_str() {
                    None => Err(SwitchError::OperatorNotText),
                    Some(op) => Ok(
                        Some(
                            Case {
                                template: compare(op, left.as_str(), right.as_str()),
                                attach: target,
                            },
                        ),
                    ),
                }
            },
        },
    }
}

/// Puts `case` among `cases`.
pub fn add_case(cases: &mut Vec<Case>, case: Case)
    ensures
        cases_model(final(cases)@) == with_case(cases_model(old(cases)@), case@),
{
    let ghost before = cases_model(cases@);
    let ghost added = case@;
    let mut i: usize = cases.len();
    while i > 0
        invariant
            i <= cases.len(),
            cases@ == old(cases)@,
            before == cases_model(cases@),
            added == case@,
            place_of(before, case@.0, before.len() as int) == place_of(before, case@.0, i as int),
        decreases i,
    {
        i -= 1;
        if cases[i].template == case.template {
            assert(before[i as int].0 == added.0);
            cases.set(i, case);
            assert(cases_model(cases@) =~= before.update(i as int, added));
            return ;
        }
    }
    cases.push(case);
    assert(cases_model(cases@) =~= before.push(added));
}

/// The cases of the step that is started with `config`.
pub fn read_cases(config: &Config) -> (result: Result<Option<Vec<Case>>, SwitchError>)
    ensures
        match result {
            Ok(Some(cases)) => cases_of(config@.params) == Ok::<
                Option<Seq<(Seq<char>, Seq<char>)>>,
                SwitchError,
            >(Some(cases_model(cases@))),
            Ok(None) => cases_of(config@.params) == Ok::<
                Option<Seq<(Seq<char>, Seq<char>)>>,
                SwitchError,
            >(None),
            Err(error) => cases_of(config@.params) == Err::<
                Option<Seq<(Seq<char>, Seq<char>)>>,
                SwitchError,
            >(error),
        },
{
    let items = match &config.params {
        Some(params) => match params.as_array() {
            Some(items) => items,
            None => {
                return Ok(None);
            },
        },
        None => {
            return Ok(None);
        },
    };
    let ghost models = items_model(items@);
    let mut cases: Vec<Case> = Vec::new();
    let mut i: usize = 0;
    assert(cases_model(cases@) =~= Seq::empty());
    while i < items.len()
        invariant
            i <= items.len(),
            models == items_model(items@),
            config@.params == Some(JsonModel::List(models)),
            cases_upto(models, i as int) == Ok::<Seq<(Seq<char>, Seq<char>)>, SwitchError>(
                cases_model(cases@),
            ),
        decreases items.len() - i,
    {
        assert(models[i as int] == items@[i as int]@);
        match read_case(&items[i]) {
            Err(error) => {
                proof {
                    assert(cases_upto(models, i + 1) == Err::<
                        Seq<(Seq<char>, Seq<char>)>,
                        SwitchError,
                    >(error));
                    lemma_error_stays(models, i + 1, models.len() as int);
                }
                return Err(error);
            },
            Ok(None) => {},
            Ok(Some(case)) => {
                add_case(&mut cases, case);
            },
        }
        i += 1;
    }
    Ok(Some(cases))
}

/// Once an item is malformed, the items after it change nothing.
pub proof fn lemma_error_stays(items: Seq<JsonModel>, at: int, upto: int)
    requires
        0 <= at <= upto <= items.len(),
        cases_upto(items, at) is Err,
    ensures
        cases_upto(items, upto) == cases_upto(items, at),
    decreases upto - at,
{
    if at < upto {
        lemma_error_stays(items, at, upto - 1);
    }
}

/// What the conditions are rendered against for a message: the value of a
/// success, the null value for a success without one, and nothing at all
/// for a failure, of which no condition holds.
pub open spec fn subject_of(payload: PayloadModel) -> Option<JsonModel> {
    match payload {
        Ok(Some(value)) => Some(value),
        Ok(None) => Some(JsonModel::Null),
        Err(_) => None,
    }
}

/// What the conditions are rendered against for `request`.
pub fn subject(request: &Request) -> (data: Option<Json>)
    ensures
        json_model(data) == subject_of(request@.payload),
{
    match &request.payload {
        Ok(Some(value)) => Some(value.duplicate()),
        Ok(None) => Some(Json::Null),
        Err(_) => None,
    }
}

/// The attach target of the first case, from place `from` on, whose
/// rendered condition reads `true`. A case without a rendering does not hold.
pub open spec fn picked_from(
    cases: Seq<(Seq<char>, Seq<char>)>,
    verdicts: Seq<Option<Seq<char>>>,
    from: int,
) -> Option<Seq<char>>
    decreases cases.len() - from,
{
    if from < 0 || from >= cases.len() {
        None
    } else if from < verdicts.len() && verdicts[from] == Some("true"@) {
        Some(cases[from].1)
    } else {
        picked_from(cases, verdicts, from + 1)
    }
}

/// What a list of renderings stands for.
pub open spec fn verdicts_model(verdicts: Seq<Option<String>>) -> Seq<Option<Seq<char>>> {
    Seq::new(verdicts.len(), |i: int| text_model(verdicts[i]))
}

/// What the step answers to `request`, given how the condition of each case
/// rendered against the request's payload: the same payload under the same
/// trace identifier, bound for the attach target of the first case that
/// holds, or else for the step's own.
pub fn switch(
    request: Request,
    config: &Config,
    cases: &Vec<Case>,
    verdicts: &Vec<Option<String>>,
) -> (answer: Return)
    ensures
        answer@ == (ReturnModel {
            payload: request@.payload,
            attach: match picked_from(cases_model(cases@), verdicts_model(verdicts@), 0) {
                Some(target) => Some(target),
                None => config@.default_attach,
            },
            trace_id: request@.trace_id,
        }),
{
    let mut i: usize = 0;
    while i < cases.len()
        invariant
            i <= cases.len(),
            picked_from(cases_model(cases@), verdicts_model(verdicts@), 0) == picked_from(
                cases_model(cases@),
                verdicts_model(verdicts@),
                i as int,
            ),
        decreases cases.len() - i,
    {
        let holds = if i < verdicts.len() {
            match &verdicts[i] {
                Some(text) => reads_as(text.as_str(), "true"),
                None => false,
            }
        } else {
            false
        };
        if holds {
            return Return {
                payload: request.payload,
                attach: Some(cases[i].attach.clone()),
                trace_id: request.trace_id,
            };
        }
        i += 1;
    }
    Return {
        payload: request.payload,
        attach: copy_text(&config.default_attach),
        trace_id: request.trace_id,
    }
}

} // verus!
