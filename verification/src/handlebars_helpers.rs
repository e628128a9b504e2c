//! The template helpers, and the rewrites between the two ways of writing
//! an expression in a text: `{{script}}` and `${script}`.

use crate::json::Json;
use crate::json::document_text;
use crate::json::same_value;
use crate::json::JsonModel;
use crate::scan::Capture;
use crate::scan::captures_model;
use crate::scan::captures_of;
use crate::scan::regex_captures;
use crate::text::append_chars;
use crate::text::chars_of;
use crate::text::concat_all;
use crate::text::concatenated;
use crate::text::has_char;
use crate::text::hexadecimal;
use crate::text::integer_within;
use crate::text::is_digit;
use crate::text::joined;
use crate::text::parse_integer;
use crate::text::push_hexadecimal;
use crate::text::replace_all;
use crate::text::replaced;
use crate::text::string_of;
use vstd::prelude::*;

verus! {

/// The regular expression for `{{script}}`; its group `script` takes what
/// stands between the braces.
pub open spec fn braces_pattern() -> Seq<char> {
    r"\{\{(?P<script>((.|\n)*?))}}"@
}

/// The regular expression for `${script}`; its group `script` takes what
/// stands between the braces.
pub open spec fn dollar_pattern() -> Seq<char> {
    r"\$\{(?P<script>((.|\n)*?))}"@
}

/// `script` written as an expression: `{{script}}`.
pub open spec fn wrapped(script: Seq<char>) -> Seq<char> {
    "{{"@ + script + "}}"@
}

/// The script of a capture: what its group took, or nothing.
pub open spec fn script_of(capture: (Seq<char>, Option<Seq<char>>)) -> Seq<char> {
    match capture.1 {
        Some(script) => script,
        None => Seq::empty(),
    }
}

/// The scripts of `captures`, in order.
pub open spec fn scripts_of(captures: Seq<(Seq<char>, Option<Seq<char>>)>) -> Seq<Seq<char>> {
    Seq::new(captures.len(), |i: int| script_of(captures[i]))
}

/// `text` after the first `upto` of `captures` have been rewritten, one
/// after the other: everywhere the matched text stands, its script takes
/// its place, written as an expression.
pub open spec fn transformed_upto(
    text: Seq<char>,
    captures: Seq<(Seq<char>, Option<Seq<char>>)>,
    upto: int,
) -> Seq<char>
    decreases upto,
{
    if upto <= 0 || upto > captures.len() {
        text
    } else {
        replaced(
            transformed_upto(text, captures, upto - 1),
            captures[upto - 1].0,
            wrapped(script_of(captures[upto - 1])),
        )
    }
}

/// `text` with every expression among `captures` rewritten as `{{script}}`.
pub open spec fn transformed(text: Seq<char>, captures: Seq<(Seq<char>, Option<Seq<char>>)>) -> Seq<
    char,
> {
    transformed_upto(text, captures, captures.len() as int)
}

/// The scripts of `captures` with a space between each two, or `text`
/// itself where there are none.
pub open spec fn cleared(text: Seq<char>, captures: Seq<(Seq<char>, Option<Seq<char>>)>) -> Seq<
    char,
> {
    if captures.len() == 0 {
        text
    } else {
        joined(scripts_of(captures), " "@)
    }
}

/// What becomes of `text` when the expressions that `found` holds are
/// rewritten; `text` itself where the search could not be made.
pub open spec fn transformed_by(
    text: Seq<char>,
    found: Option<Seq<(Seq<char>, Option<Seq<char>>)>>,
) -> Seq<char> {
    match found {
        Some(captures) => transformed(text, captures),
        None => text,
    }
}

/// What is left of `text` when only the scripts of the expressions that
/// `found` holds are kept; `text` itself where the search could not be made.
pub open spec fn cleared_by(
    text: Seq<char>,
    found: Option<Seq<(Seq<char>, Option<Seq<char>>)>>,
) -> Seq<char> {
    match found {
        Some(captures) => cleared(text, captures),
        None => text,
    }
}

/// The scripts of the `{{script}}` expressions of `text`, a space between
/// each two; `text` itself where it holds none.
pub open spec fn cleared_text(text: Seq<char>) -> Seq<char> {
    cleared_by(text, regex_captures(braces_pattern(), "script"@, text))
}

/// Rewriting is idempotent on what is written with braces already: where
/// each expression found is its own script between braces, the rewritten
/// text is the text itself.
pub proof fn lemma_transform_keeps_braces(
    text: Seq<char>,
    captures: Seq<(Seq<char>, Option<Seq<char>>)>,
    upto: int,
)
    requires
        0 <= upto <= captures.len(),
        forall|i: int|
            0 <= i < captures.len() ==> (#[trigger] captures[i]).0 == wrapped(
                script_of(captures[i]),
            ),
    ensures
        transformed_upto(text, captures, upto) == text,
        upto == captures.len() ==> transformed(text, captures) == text,
    decreases upto,
{
    if upto > 0 {
        lemma_transform_keeps_braces(text, captures, upto - 1);
        assert(captures[upto - 1].0 == wrapped(script_of(captures[upto - 1])));
        crate::text::lemma_replaced_by_itself(text, captures[upto - 1].0);
    }
}

/// `syntax` written as an expression: `{{syntax}}`.
pub fn syntax_wrapper(syntax: &str) -> (expression: String)
    ensures
        expression@ == wrapped(syntax@),
{
    let mut out = chars_of("{{");
    let inner = chars_of(syntax);
    let close = chars_of("}}");
    append_chars(&mut out, &inner);
    append_chars(&mut out, &close);
    string_of(&out)
}

/// The script of a capture.
pub fn capture_script(capture: &Capture) -> (script: Vec<char>)
    ensures
        script@ == script_of(capture@),
{
    match &capture.group {
        Some(script) => chars_of(script.as_str()),
        None => Vec::new(),
    }
}

/// Rewrites in `syntax` every expression among `captures` as `{{script}}`.
pub fn transform_captures(syntax: &str, captures: &Vec<Capture>) -> (out: String)
    ensures
        out@ == transformed(syntax@, captures_model(captures@)),
{
    let mut text = chars_of(syntax);
    let open = chars_of("{{");
    let close = chars_of("}}");
    let mut i: usize = 0;
    while i < captures.len()
        invariant
            i <= captures.len(),
            open@ == "{{"@,
            close@ == "}}"@,
            text@ == transformed_upto(syntax@, captures_model(captures@), i as int),
        decreases captures.len() - i,
    {
        let from = chars_of(captures[i].whole.as_str());
        let script = capture_script(&captures[i]);
        let mut to: Vec<char> = Vec::new();
        append_chars(&mut to, &open);
        append_chars(&mut to, &script);
        append_chars(&mut to, &close);
        assert(to@ =~= wrapped(script@));
        text = replace_all(&text, &from, &to);
        i += 1;
    }
    string_of(&text)
}

/// Keeps of `syntax` only the scripts of `captures`, a space between each
/// two; where there are none, `syntax` stays as it is.
pub fn clear_captures(syntax: &str, captures: &Vec<Capture>) -> (out: String)
    ensures
        out@ == cleared(syntax@, captures_model(captures@)),
{
    if captures.len() == 0 {
        return syntax.to_owned();
    }
    let space = chars_of(" ");
    let mut out: Vec<char> = Vec::new();
    let ghost scripts = scripts_of(captures_model(captures@));
    let mut i: usize = 0;
    while i < captures.len()
        invariant
            i <= captures.len(),
            space@ == " "@,
            scripts == scripts_of(captures_model(captures@)),
            out@ == joined(scripts.take(i as int), " "@),
        decreases captures.len() - i,
    {
        let script = capture_script(&captures[i]);
        let ghost seen = scripts.take(i + 1);
        assert(seen.drop_last() =~= scripts.take(i as int));
        assert(seen.last() == script@);
        if i > 0 {
            append_chars(&mut out, &space);
        }
        append_chars(&mut out, &script);
        i += 1;
    }
    assert(scripts.take(i as int) =~= scripts);
    string_of(&out)
}

/// Rewrites every `{{script}}` of `syntax` as `{{script}}`: what the
/// regular expression finds is put back as an expression of its script.
pub fn syntax_transform(syntax: &str) -> (out: String)
    ensures
        out@ == transformed_by(syntax@, regex_captures(braces_pattern(), "script"@, syntax@)),
{
    match captures_of(r"\{\{(?P<script>((.|\n)*?))}}", "script", syntax) {
        Some(captures) => transform_captures(syntax, &captures),
        None => syntax.to_owned(),
    }
}

/// Rewrites every `${script}` of `syntax` as `{{script}}`.
pub fn syntax_transform_new(syntax: &str) -> (out: String)
    ensures
        out@ == transformed_by(syntax@, regex_captures(dollar_pattern(), "script"@, syntax@)),
{
    match captures_of(r"\$\{(?P<script>((.|\n)*?))}", "script", syntax) {
        Some(captures) => transform_captures(syntax, &captures),
        None => syntax.to_owned(),
    }
}

/// The scripts of the `${script}` expressions of `syntax`, a space between
/// each two; `syntax` itself where it holds none.
pub fn syntax_clear_new(syntax: &str) -> (out: String)
    ensures
        out@ == cleared_by(syntax@, regex_captures(dollar_pattern(), "script"@, syntax@)),
{
    match captures_of(r"\$\{(?P<script>((.|\n)*?))}", "script", syntax) {
        Some(captures) => clear_captures(syntax, &captures),
        None => syntax.to_owned(),
    }
}

/// The scripts of the `{{script}}` expressions of `syntax`, a space between
/// each two; `syntax` itself where it holds none.
pub fn syntax_clear(syntax: &str) -> (out: String)
    ensures
        out@ == cleared_text(syntax@),
{
    match captures_of(r"\{\{(?P<script>((.|\n)*?))}}", "script", syntax) {
        Some(captures) => clear_captures(syntax, &captures),
        None => syntax.to_owned(),
    }
}

/// What the helper `resolve` writes for a value: a text between double
/// quotes, as it is; a truth value as its word; any other value in its
/// compact document text.
pub open spec fn resolved_text(value: JsonModel) -> Seq<char> {
    match value {
        JsonModel::Text(text) => seq!['"'] + text + seq!['"'],
        JsonModel::Bool(b) => if b {
            "true"@
        } else {
            "false"@
        },
        _ => document_text(value),
    }
}

/// The helper `resolve`: a value in the literal form that an expression
/// can take up again.
pub fn resolve(value: &Json) -> (out: String)
    ensures
        out@ == resolved_text(value@),
{
    match value {
        Json::Text(text) => {
            let mut out: Vec<char> = Vec::new();
            out.push('"');
            let inner = chars_of(text.as_str());
            append_chars(&mut out, &inner);
            out.push('"');
            assert(out@ =~= resolved_text(value@));
            string_of(&out)
        },
        Json::Bool(b) => if *b {
            "true".to_owned()
        } else {
            "false".to_owned()
        },
        _ => value.to_text(),
    }
}

/// The helper `concat`: the rendered parameters one after the other.
pub fn concat(parts: &Vec<String>) -> (out: String)
    ensures
        out@ == concatenated(parts.deep_view()),
{
    concat_all(parts)
}

/// The helper `to_string`: a value in its compact document text; a text
/// comes out quoted.
pub fn to_string(value: &Json) -> (out: String)
    ensures
        out@ == document_text(value@),
{
    value.to_text()
}

/// The helper `eq`: the word `true` where the two values are the same, the
/// word `false` where they are not.
pub fn eq(left: &Json, right: &Json) -> (out: String)
    ensures
        out@ == (if same_value(left@, right@) {
            "true"@
        } else {
            "false"@
        }),
{
    if left.same(right) {
        "true".to_owned()
    } else {
        "false".to_owned()
    }
}

/// The 64 bits of `v` read as a number without a sign.
pub open spec fn bits_of(v: i64) -> nat {
    if v < 0 {
        (v + 0x1_0000_0000_0000_0000) as nat
    } else {
        v as nat
    }
}

/// The helper `hex`: `0x` and the hexadecimal digits of the 64 bits of `v`.
pub fn hex(v: i64) -> (out: String)
    ensures
        out@ == "0x"@ + hexadecimal(bits_of(v)),
{
    let bits: u64 = if v < 0 {
        0xffff_ffff_ffff_ffffu64 - ((-(v + 1)) as u64)
    } else {
        v as u64
    };
    let mut out = chars_of("0x");
    push_hexadecimal(bits, &mut out);
    string_of(&out)
}

/// The helper `add`: the sum, where it is a 64-bit integer.
pub fn add_integers(a: i64, b: i64) -> (sum: Option<i64>)
    ensures
        sum == (if i64::MIN <= a + b <= i64::MAX {
            Some((a + b) as i64)
        } else {
            None
        }),
{
    a.checked_add(b)
}

/// The helper `subtract`: the difference, where it is a 64-bit integer.
pub fn subtract_integers(a: i64, b: i64) -> (difference: Option<i64>)
    ensures
        difference == (if i64::MIN <= a - b <= i64::MAX {
            Some((a - b) as i64)
        } else {
            None
        }),
{
    a.checked_sub(b)
}

/// The helper `multiply`: the product, where it is a 64-bit integer.
pub fn multiply_integers(a: i64, b: i64) -> (product: Option<i64>)
    ensures
        product == (if i64::MIN <= a * b <= i64::MAX {
            Some((a * b) as i64)
        } else {
            None
        }),
{
    a.checked_mul(b)
}

/// The quotient of `a` by `b`, cut off towards zero.
pub open spec fn quotient(a: int, b: int) -> int {
    if a >= 0 && b > 0 {
        a / b
    } else if a < 0 && b < 0 {
        (-a) / (-b)
    } else if a < 0 {
        -((-a) / b)
    } else {
        -(a / (-b))
    }
}

/// The helper `divide`: the quotient cut off towards zero, where the
/// divisor is not zero and the quotient is a 64-bit integer.
pub fn divide_integers(a: i64, b: i64) -> (result: Option<i64>)
    ensures
        result == (if b != 0 && i64::MIN <= quotient(a as int, b as int) <= i64::MAX {
            Some(quotient(a as int, b as int) as i64)
        } else {
            None
        }),
{
    a.checked_div(b)
}

/// A named value for the expression of the helper `calc`.
#[derive(Clone, Debug, PartialEq)]
pub struct Variable {
    pub name: String,
    pub value: String,
}

/// What a list of variables stands for.
pub open spec fn variables_model(variables: Seq<Variable>) -> Seq<(Seq<char>, Seq<char>)> {
    Seq::new(variables.len(), |i: int| (variables[i].name@, variables[i].value@))
}

/// `expr` after the first `upto` of `variables` have been put in, one after
/// the other: everywhere the name stands, the value takes its place.
pub open spec fn substituted_upto(
    expr: Seq<char>,
    variables: Seq<(Seq<char>, Seq<char>)>,
    upto: int,
) -> Seq<char>
    decreases upto,
{
    if upto <= 0 || upto > variables.len() {
        expr
    } else {
        replaced(
            substituted_upto(expr, variables, upto - 1),
            variables[upto - 1].0,
            variables[upto - 1].1,
        )
    }
}

/// `expr` with the values of all `variables` put in for their names.
pub open spec fn substituted(expr: Seq<char>, variables: Seq<(Seq<char>, Seq<char>)>) -> Seq<char> {
    substituted_upto(expr, variables, variables.len() as int)
}

/// Puts the values of `variables` into `expr`, in their order.
pub fn substitute(expr: &str, variables: &Vec<Variable>) -> (out: String)
    ensures
        out@ == substituted(expr@, variables_model(variables@)),
{
    let mut text = chars_of(expr);
    let mut i: usize = 0;
    while i < variables.len()
        invariant
            i <= variables.len(),
            text@ == substituted_upto(expr@, variables_model(variables@), i as int),
        decreases variables.len() - i,
    {
        let name = chars_of(variables[i].name.as_str());
        let value = chars_of(variables[i].value.as_str());
        text = replace_all(&text, &name, &value);
        i += 1;
    }
    string_of(&text)
}

/// Whether `c` may stand in an arithmetic expression: a digit, a point, one
/// of the four operators, a parenthesis or a blank.
pub open spec fn arithmetic_char(c: char) -> bool {
    is_digit(c) || c == '.' || c == '+' || c == '-' || c == '*' || c == '/' || c == '(' || c == ')'
        || c == ' '
}

/// Whether `expr` is made of numbers, the operators `+ - * /`, parentheses
/// and blanks alone. Two asterisks or two slashes in a row are operators of
/// their own and are not among these.
pub open spec fn is_arithmetic(expr: Seq<char>) -> bool {
    &&& forall|i: int| 0 <= i < expr.len() ==> arithmetic_char(#[trigger] expr[i])
    &&& forall|i: int|
        0 <= i < expr.len() - 1 ==> !(#[trigger] expr[i] == '*' && expr[i + 1] == '*') && !(expr[i]
            == '/' && expr[i + 1] == '/')
}

/// Whether `expr` is made of numbers, the operators `+ - * /`, parentheses
/// and blanks alone.
pub fn arithmetic(expr: &str) -> (plain: bool)
    ensures
        plain == is_arithmetic(expr@),
{
    let chars = chars_of(expr);
    let mut i: usize = 0;
    while i < chars.len()
        invariant
            i <= chars.len(),
            chars@ == expr@,
            forall|k: int| 0 <= k < i ==> arithmetic_char(#[trigger] chars@[k]),
            forall|k: int|
                0 <= k < i - 1 ==> !(#[trigger] chars@[k] == '*' && chars@[k + 1] == '*') && !(
                chars@[k] == '/' && chars@[k + 1] == '/'),
        decreases chars.len() - i,
    {
        let c = chars[i];
        let known = (c >= '0' && c <= '9') || c == '.' || c == '+' || c == '-' || c == '*' || c
            == '/' || c == '(' || c == ')' || c == ' ';
        if !known {
            assert(!arithmetic_char(chars@[i as int]));
            return false;
        }
        if i > 0 && ((c == '*' && chars[i - 1] == '*') || (c == '/' && chars[i - 1] == '/')) {
            assert(chars@[i - 1] == chars@[i as int]);
            assert(!is_arithmetic(expr@)) by {
                let k = i - 1;
                if is_arithmetic(expr@) {
                    assert(!(expr@[k] == '*' && expr@[k + 1] == '*') && !(expr@[k] == '/' && expr@[k
                        + 1] == '/'));
                }
            }
            return false;
        }
        i += 1;
    }
    true
}

/// What the calculator makes of the arithmetic expression `expr`: the text
/// of its value, or the text of its complaint.
pub uninterp spec fn calculated(expr: Seq<char>) -> Result<Seq<char>, Seq<char>>;

/// Evaluates `expr` with `rcalc_lib::parse::eval`, starting from a state
/// without variables. The value comes back as the calculator prints it, an
/// error as the calculator words it. Only plain arithmetic is handed to the
/// calculator: its other operators are left out, the percent sign among
/// them, on which it fails.
#[verifier::external_body]
pub(crate) fn evaluate(expr: &str) -> (outcome: Result<String, String>)
    requires
        is_arithmetic(expr@),
    ensures
        match outcome {
            Ok(value) => calculated(expr@) == Ok::<Seq<char>, Seq<char>>(value@),
            Err(complaint) => calculated(expr@) == Err::<Seq<char>, Seq<char>>(complaint@),
        },
{
    let mut state = rcalc_lib::parse::CalcState::new();
    match rcalc_lib::parse::eval(expr, &mut state) {
        Ok(value) => Ok(value.to_string()),
        Err(error) => Err(error.to_string()),
    }
}

/// What the helper `calc` says of an expression that holds more than
/// plain arithmetic.
pub open spec fn refusal() -> Seq<char> {
    "the expression holds more than numbers, + - * /, parentheses and blanks"@
}

/// What the helper `calc` makes of the full expression `expr`: what it
/// reads from the calculator's answer for plain arithmetic, and a refusal
/// for anything else.
pub open spec fn calc_of(expr: Seq<char>) -> Result<i64, CalcErrorModel> {
    if is_arithmetic(expr) {
        calc_result(calculated(expr))
    } else {
        Err(CalcErrorModel::Evaluation { message: refusal() })
    }
}

/// Why the helper `calc` has no result.
#[derive(Clone, Debug, PartialEq)]
pub enum CalcError {
    /// The calculator refused the expression.
    Evaluation { message: String },
    /// The value of the expression is not a 64-bit integer.
    NotAnInteger { value: String },
}

/// What a `CalcError` stands for.
pub enum CalcErrorModel {
    Evaluation { message: Seq<char> },
    NotAnInteger { value: Seq<char> },
}

/// What the result of the helper `calc` stands for.
pub open spec fn calc_model(result: Result<i64, CalcError>) -> Result<i64, CalcErrorModel> {
    match result {
        Ok(value) => Ok(value),
        Err(CalcError::Evaluation { message }) => Err(
            CalcErrorModel::Evaluation { message: message@ },
        ),
        Err(CalcError::NotAnInteger { value }) => Err(CalcErrorModel::NotAnInteger { value: value@ }),
    }
}

/// What the helper `calc` makes of the calculator's answer: the integer
/// that the printed value stands for, or the reason why there is none.
pub open spec fn calc_result(outcome: Result<Seq<char>, Seq<char>>) -> Result<i64, CalcErrorModel> {
    match outcome {
        Ok(value) => match integer_within(value, i64::MIN as int, i64::MAX as int) {
            Some(number) => Ok(number as i64),
            None => Err(CalcErrorModel::NotAnInteger { value }),
        },
        Err(message) => Err(CalcErrorModel::Evaluation { message }),
    }
}

/// The helper `calc`.
pub struct Calc;

/// The helper `to_number`.
pub struct ToNumber;

/// What the helper `to_number` makes of a literal.
#[derive(PartialEq, Eq, Structural, Clone, Copy, Debug)]
pub enum NumberLiteral {
    /// The literal has a point in it: it is to be read as a 32-bit fraction.
    Fraction,
    /// The literal stands for this 32-bit integer.
    Integer(i32),
    /// The literal has no point in it and stands for no 32-bit integer.
    Invalid,
}

/// What the helper `to_number` makes of `literal`.
pub open spec fn number_literal(literal: Seq<char>) -> NumberLiteral {
    if literal.contains('.') {
        NumberLiteral::Fraction
    } else {
        match integer_within(literal, i32::MIN as int, i32::MAX as int) {
            Some(number) => NumberLiteral::Integer(number as i32),
            None => NumberLiteral::Invalid,
        }
    }
}

impl Calc {
    /// Reads the calculator's answer as the result of the helper.
    pub fn read(outcome: Result<String, String>) -> (result: Result<i64, CalcError>)
        ensures
            calc_model(result) == calc_result(
                match outcome {
                    Ok(value) => Ok(value@),
                    Err(complaint) => Err(complaint@),
                },
            ),
    {
        match outcome {
            Ok(value) => {
                let chars = chars_of(value.as_str());
                match parse_integer(&chars, i64::MIN, i64::MAX) {
                    Some(number) => Ok(number),
                    None => Err(CalcError::NotAnInteger { value }),
                }
            },
            Err(message) => Err(CalcError::Evaluation { message }),
        }
    }

    /// The helper `calc`: puts the values of `variables` into `expr`, has
    /// the calculator evaluate what comes of it, and reads the answer as an
    /// integer. What comes of the substitution has to be plain arithmetic:
    /// anything else is refused as an expression that cannot be evaluated.
    pub fn call_inner(expr: &str, variables: &Vec<Variable>) -> (result: Result<i64, CalcError>)
        ensures
            calc_model(result) == calc_of(substituted(expr@, variables_model(variables@))),
    {
        let full = substitute(expr, variables);
        if arithmetic(full.as_str()) {
            Calc::read(evaluate(full.as_str()))
        } else {
            Err(
                CalcError::Evaluation {
                    message: "the expression holds more than numbers, + - * /, parentheses and blanks".to_owned(),
                },
            )
        }
    }
}

impl ToNumber {
    /// The helper `to_number`: tells a fraction from an integer by the
    /// point, and reads the integer.
    pub fn call_inner(literal: &str) -> (result: NumberLiteral)
        ensures
            result == number_literal(literal@),
    {
        let chars = chars_of(literal);
        if has_char(&chars, '.') {
            NumberLiteral::Fraction
        } else {
            match parse_integer(&chars, -2147483648, 2147483647) {
                Some(number) => NumberLiteral::Integer(number as i32),
                None => NumberLiteral::Invalid,
            }
        }
    }
}

} // verus!
