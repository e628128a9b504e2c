//! The calling step: for each message it makes one HTTP call, laid out by
//! its parameters and by what the message overrides, and answers with what
//! came back.
//!
//! Making the call is the caller's work; which call to make, and how what
//! came back is handed on, is decided here.

use crate::co2_struct::copy_text;
use crate::co2_struct::json_model;
use crate::co2_struct::text_model;
use crate::json::Json;
use crate::json::document_text;
use crate::json::JsonModel;
use crate::json::Member;
use crate::json::members_model;
use crate::json::merge_members;
use crate::json::merged;
use crate::json::Number;
use crate::json::NumberModel;
use crate::modules::ID;
use crate::modules::Request;
use crate::modules::Response;
use crate::modules::ResponseModel;
use vstd::prelude::*;

verus! {

/// The upper-case form of `text`.
pub uninterp spec fn uppercase(text: Seq<char>) -> Seq<char>;

/// `str::to_uppercase`: the text with each character in its upper-case
/// form, as the Unicode tables of the standard library give it.
#[verifier::external_body]
pub(crate) fn to_upper(text: &str) -> (upper: String)
    ensures
        upper@ == uppercase(text@),
{
    text.to_uppercase()
}

/// What an HTTP exchange carries besides its address: headers, a body and
/// a status code, each where there is one.
#[derive(Debug, PartialEq)]
pub struct ContentRequest {
    pub headers: Option<Vec<Member>>,
    pub body: Option<String>,
    pub status_code: Option<u16>,
}

/// What a `ContentRequest` stands for.
pub struct ContentModel {
    pub headers: Option<Seq<(Seq<char>, JsonModel)>>,
    pub body: Option<Seq<char>>,
    pub status_code: Option<u16>,
}

impl View for ContentRequest {
    type V = ContentModel;

    open spec fn view(&self) -> ContentModel {
        ContentModel {
            headers: match self.headers {
                Some(members) => Some(members_model(members@)),
                None => None,
            },
            body: text_model(self.body),
            status_code: self.status_code,
        }
    }
}

/// The member `key` of `value`, or the null value where it has none.
pub open spec fn member_or_null(value: JsonModel, key: Seq<char>) -> JsonModel {
    match value.member(key) {
        Some(found) => found,
        None => JsonModel::Null,
    }
}

/// The headers that `value` names: the members of its member `headers`,
/// where that is an object.
pub open spec fn headers_of(value: JsonModel) -> Option<Seq<(Seq<char>, JsonModel)>> {
    match value.member("headers"@) {
        Some(JsonModel::Object(members)) => Some(members),
        _ => None,
    }
}

/// The status code that `value` names: its member `status_code`, where
/// that is an unsigned integer, cut down to 16 bits.
pub open spec fn status_of(value: JsonModel) -> Option<u16> {
    match member_or_null(value, "status_code"@).as_u64() {
        Some(code) => Some((code % 0x1_0000) as u16),
        None => None,
    }
}

/// What `value` says of an HTTP exchange. The body is the document text of
/// the member `body`, so a text comes out quoted and a missing body reads
/// `null`.
pub open spec fn content_of(value: JsonModel) -> ContentModel {
    ContentModel {
        headers: headers_of(value),
        body: Some(document_text(member_or_null(value, "body"@))),
        status_code: status_of(value),
    }
}

/// A copy of `members`.
pub fn copy_members(members: &Vec<Member>) -> (copy: Vec<Member>)
    ensures
        members_model(copy@) == members_model(members@),
{
    let mut copy: Vec<Member> = Vec::new();
    let mut i: usize = 0;
    while i < members.len()
        invariant
            i <= members.len(),
            copy@.len() == i,
            forall|k: int|
                0 <= k < i ==> copy@[k].name@ == members@[k].name@ && copy@[k].value@
                    == members@[k].value@,
        decreases members.len() - i,
    {
        copy.push(Member { name: members[i].name.clone(), value: members[i].value.duplicate() });
        i += 1;
    }
    assert(members_model(copy@) =~= members_model(members@));
    copy
}

/// The three parts of what `value` says of an HTTP exchange.
pub fn read_content(value: &Json) -> (parts: (Option<Vec<Member>>, Option<String>, Option<u16>))
    ensures
        (ContentRequest { headers: parts.0, body: parts.1, status_code: parts.2 })@ == content_of(
            value@,
        ),
{
    let headers = match value.get("headers") {
        Some(found) => match found.as_object() {
            Some(members) => Some(copy_members(members)),
            None => None,
        },
        None => None,
    };
    let status_code = match value.get("status_code") {
        Some(found) => match found.as_u64() {
            Some(code) => Some((code % 0x1_0000) as u16),
            None => None,
        },
        None => None,
    };
    let body = match value.get("body") {
        Some(found) => found.to_text(),
        None => Json::Null.to_text(),
    };
    (headers, Some(body), status_code)
}

impl ContentRequest {
    /// Reads from `value` what it says of an HTTP exchange.
    pub fn from_value(value: Json) -> (content: ContentRequest)
        ensures
            content@ == content_of(value@),
    {
        let (headers, body, status_code) = read_content(&value);
        ContentRequest { headers, body, status_code }
    }
}

/// One header of a call.
#[derive(Clone, Debug, PartialEq)]
pub struct Header {
    pub name: String,
    pub value: String,
}

/// What a list of headers stands for.
pub open spec fn headers_model(headers: Seq<Header>) -> Seq<(Seq<char>, Seq<char>)> {
    Seq::new(headers.len(), |i: int| (headers[i].name@, headers[i].value@))
}

/// One HTTP call.
#[derive(Clone, Debug, PartialEq)]
pub struct Call {
    pub method: String,
    pub url: String,
    pub header: Vec<Header>,
    pub body: String,
}

/// What a `Call` stands for.
pub struct CallModel {
    pub method: Seq<char>,
    pub url: Seq<char>,
    pub header: Seq<(Seq<char>, Seq<char>)>,
    pub body: Seq<char>,
}

impl View for Call {
    type V = CallModel;

    open spec fn view(&self) -> CallModel {
        CallModel {
            method: self.method@,
            url: self.url@,
            header: headers_model(self.header@),
            body: self.body@,
        }
    }
}

/// The text of the member `key` of `value`, where it is a text.
pub open spec fn text_at(value: JsonModel, key: Seq<char>) -> Option<Seq<char>> {
    match value.member(key) {
        Some(found) => found.as_str(),
        None => None,
    }
}

/// The headers that the members of an object stand for: each member is a
/// header of its name; a value that is no text counts as the empty text.
pub open spec fn header_values(members: Seq<(Seq<char>, JsonModel)>) -> Seq<(Seq<char>, Seq<char>)> {
    Seq::new(
        members.len(),
        |i: int|
            (
                members[i].0,
                match members[i].1.as_str() {
                    Some(text) => text,
                    None => Seq::empty(),
                },
            ),
    )
}

/// The headers that the member `header` of `value` names, where it is an object.
pub open spec fn header_at(value: JsonModel) -> Option<Seq<(Seq<char>, Seq<char>)>> {
    match value.member("header"@) {
        Some(JsonModel::Object(members)) => Some(header_values(members)),
        _ => None,
    }
}

/// The call that `source` lays out over `base`: method, address, headers
/// and body are those that `source` names, and those of `base` where it
/// names none. A method is put in upper case.
pub open spec fn call_over(base: CallModel, source: JsonModel) -> CallModel {
    CallModel {
        method: match text_at(source, "method"@) {
            Some(method) => uppercase(method),
            None => base.method,
        },
        url: match text_at(source, "url"@) {
            Some(url) => url,
            None => base.url,
        },
        header: match header_at(source) {
            Some(header) => header,
            None => base.header,
        },
        body: match text_at(source, "body"@) {
            Some(body) => body,
            None => base.body,
        },
    }
}

/// The call of a step without parameters of its own: a `GET` to nowhere,
/// without headers or body.
pub open spec fn plain_call() -> CallModel {
    CallModel {
        method: "GET"@,
        url: Seq::empty(),
        header: Seq::empty(),
        body: Seq::empty(),
    }
}

/// The text of the member `key` of `value`, where it is a text.
pub fn read_text(value: &Json, key: &str) -> (text: Option<String>)
    ensures
        text_model(text) == text_at(value@, key@),
{
    match value.get(key) {
        Some(found) => match found.as_str() {
            Some(text) => Some(text.to_owned()),
            None => None,
        },
        None => None,
    }
}

/// The headers that the member `header` of `value` names.
pub fn read_header(value: &Json) -> (header: Option<Vec<Header>>)
    ensures
        match header {
            Some(found) => header_at(value@) == Some(headers_model(found@)),
            None => header_at(value@) is None,
        },
{
    let members = match value.get("header") {
        Some(found) => match found.as_object() {
            Some(members) => members,
            None => {
                return None;
            },
        },
        None => {
            return None;
        },
    };
    let mut header: Vec<Header> = Vec::new();
    let mut i: usize = 0;
    while i < members.len()
        invariant
            i <= members.len(),
            header@.len() == i,
            forall|k: int|
                0 <= k < i ==> (#[trigger] header@[k]).name@ == members@[k].name@ && header@[k].value@
                    == (match members@[k].value@.as_str() {
                    Some(text) => text,
                    None => Seq::empty(),
                }),
        decreases members.len() - i,
    {
        let value = match members[i].value.as_str() {
            Some(text) => text.to_owned(),
            None => String::new(),
        };
        header.push(Header { name: members[i].name.clone(), value });
        i += 1;
    }
    assert(headers_model(header@) =~= header_values(members_model(members@)));
    Some(header)
}

/// A copy of `headers`.
pub fn copy_headers(headers: &Vec<Header>) -> (copy: Vec<Header>)
    ensures
        headers_model(copy@) == headers_model(headers@),
{
    let mut copy: Vec<Header> = Vec::new();
    let mut i: usize = 0;
    while i < headers.len()
        invariant
            i <= headers.len(),
            copy@.len() == i,
            forall|k: int|
                0 <= k < i ==> (#[trigger] copy@[k]).name@ == headers@[k].name@ && copy@[k].value@
                    == headers@[k].value@,
        decreases headers.len() - i,
    {
        copy.push(Header { name: headers[i].name.clone(), value: headers[i].value.clone() });
        i += 1;
    }
    assert(headers_model(copy@) =~= headers_model(headers@));
    copy
}

impl Call {
    /// The call of a step without parameters of its own.
    pub fn plain() -> (call: Call)
        ensures
            call@ == plain_call(),
    {
        let call = Call {
            method: "GET".to_owned(),
            url: String::new(),
            header: Vec::new(),
            body: String::new(),
        };
        assert(headers_model(call.header@) =~= Seq::empty());
        call
    }

    /// The call that `source` lays out over this one.
    pub fn over(&self, source: &Json) -> (call: Call)
        ensures
            call@ == call_over(self@, source@),
    {
        let method = match read_text(source, "method") {
            Some(method) => to_upper(method.as_str()),
            None => self.method.clone(),
        };
        let url = match read_text(source, "url") {
            Some(url) => url,
            None => self.url.clone(),
        };
        let header = match read_header(source) {
            Some(header) => header,
            None => copy_headers(&self.header),
        };
        let body = match read_text(source, "body") {
            Some(body) => body,
            None => self.body.clone(),
        };
        Call { method, url, header, body }
    }
}

/// The call that the step makes for `message`, where it makes one: a
/// success that holds a value is answered by the call that the value lays
/// out over `standing`; any other message is passed over.
pub fn request(message: &Request, standing: &Call) -> (call: Option<Call>)
    ensures
        match call {
            Some(made) => message@.payload matches Ok(Some(content)) && made@ == call_over(
                standing@,
                content,
            ),
            None => !(message@.payload matches Ok(Some(_))),
        },
{
    match &message.payload {
        Ok(Some(content)) => Some(standing.over(content)),
        _ => None,
    }
}

/// The headers of a reply as members: each header is a member of its name
/// with its value as a text.
pub open spec fn header_members(headers: Seq<(Seq<char>, Seq<char>)>) -> Seq<(Seq<char>, JsonModel)> {
    Seq::new(headers.len(), |i: int| (headers[i].0, JsonModel::Text(headers[i].1)))
}

/// The object that stands for what came back from a call. Of the headers
/// of one name the last one counts.
pub open spec fn result_of(
    headers: Seq<(Seq<char>, Seq<char>)>,
    body: Option<Seq<char>>,
    status_code: u16,
) -> JsonModel {
    JsonModel::Object(
        seq![
            (
                "body"@,
                match body {
                    Some(text) => JsonModel::Text(text),
                    None => JsonModel::Null,
                },
            ),
            (
                "headers"@,
                JsonModel::Object(merged(header_members(headers))),
            ),
            ("status_code"@, JsonModel::Number(NumberModel::PosInt(status_code as u64))),
        ],
    )
}

/// The object that stands for a call that could not be made.
pub open spec fn failure_of(error: Seq<char>) -> JsonModel {
    JsonModel::Object(seq![("error"@, JsonModel::Text(error))])
}

/// The object that stands for what came back from a call.
pub fn result(headers: &Vec<Header>, body: Option<String>, status_code: u16) -> (value: Json)
    ensures
        value@ == result_of(headers_model(headers@), text_model(body), status_code),
{
    let mut inner: Vec<Member> = Vec::new();
    let mut i: usize = 0;
    while i < headers.len()
        invariant
            i <= headers.len(),
            inner@.len() == i,
            forall|k: int|
                0 <= k < i ==> (#[trigger] inner@[k]).name@ == headers@[k].name@ && inner@[k].value@
                    == JsonModel::Text(headers@[k].value@),
        decreases headers.len() - i,
    {
        inner.push(
            Member { name: headers[i].name.clone(), value: Json::Text(headers[i].value.clone()) },
        );
        i += 1;
    }
    assert(members_model(inner@) =~= header_members(headers_model(headers@)));
    let header_object = Json::Object(merge_members(inner));
    proof {
        crate::json::lemma_view_of_parts(header_object);
    }
    let mut members: Vec<Member> = Vec::new();
    members.push(
        Member {
            name: "body".to_owned(),
            value: match body {
                Some(text) => Json::Text(text),
                None => Json::Null,
            },
        },
    );
    members.push(Member { name: "headers".to_owned(), value: header_object });
    members.push(
        Member {
            name: "status_code".to_owned(),
            value: Json::Number(Number::PosInt(status_code as u64)),
        },
    );
    let value = Json::Object(members);
    proof {
        crate::json::lemma_view_of_parts(value);
        assert(value@->Object_0 =~= result_of(
            headers_model(headers@),
            text_model(body),
            status_code,
        )->Object_0);
    }
    value
}

/// The object that stands for a call that could not be made.
pub fn failure(error: String) -> (value: Json)
    ensures
        value@ == failure_of(error@),
{
    let mut members: Vec<Member> = Vec::new();
    members.push(Member { name: "error".to_owned(), value: Json::Text(error) });
    let value = Json::Object(members);
    proof {
        crate::json::lemma_view_of_parts(value);
        assert(value@->Object_0 =~= failure_of(error@)->Object_0);
    }
    value
}

/// The message with which step `id` answers `message` once its call has
/// come back as `value`: a success that holds `value`, bound for `attach`,
/// under the trace identifier of `message`.
pub fn answer(id: ID, message: &Request, value: Json, attach: &Option<String>) -> (response:
    Response)
    ensures
        response@ == (ResponseModel {
            payload: Ok(Some(value@)),
            attach: text_model(*attach),
            origin: id,
            trace_id: message@.trace_id,
        }),
{
    Response {
        payload: Ok(Some(value)),
        attach: copy_text(attach),
        origin: id,
        trace_id: message.trace_id,
    }
}

} // verus!
