//! The listening step: it turns each HTTP request that one of its routes
//! admits into a message, and the message that comes back under the same
//! trace identifier into the HTTP response.
//!
//! Listening and writing the response is the caller's work; where to
//! listen, which requests to admit, what to send on and what to answer is
//! decided here.

use crate::co2_struct::copy_text;
use crate::co2_struct::text_model;
use crate::json::items_model;
use crate::json::Json;
use crate::json::JsonModel;
use crate::json::Member;
use crate::json::members_model;
use crate::json::merge_members;
use crate::json::merged;
use crate::json::unique_names;
use crate::json::set_member;
use crate::json::with_member;
use crate::modules::ID;
use crate::modules::next_trace;
use crate::modules::Payload;
use crate::modules::payload_model;
use crate::modules::PayloadModel;
use crate::modules::Response;
use crate::modules::ResponseModel;
use crate::modules::TraceId;
use crate::request::content_of;
use crate::request::ContentModel;
use crate::request::Header;
use crate::request::read_content;
use crate::request::read_text;
use crate::request::text_at;
use crate::text::append_chars;
use crate::text::chars_of;
use crate::text::push_signed_decimal;
use crate::text::reads_as;
use crate::text::signed_decimal;
use crate::text::split;
use crate::text::split_at;
use crate::text::string_of;
use crate::text::texts_model;
use vstd::prelude::*;

verus! {

/// What an HTTP response is made of: headers, a body and a status code,
/// each where there is one.
#[derive(Debug, PartialEq)]
pub struct ContentResponse {
    pub headers: Option<Vec<Member>>,
    pub body: Option<String>,
    pub status_code: Option<u16>,
}

impl View for ContentResponse {
    type V = ContentModel;

    open spec fn view(&self) -> ContentModel {
        ContentModel {
            headers: match self.headers {
                Some(members) => Some(members_model(members@)),
                None => None,
            },
            body: text_model(self.body),
            status_code: self.status_code,
        }
    }
}

/// The response to a message: what the value of a success says of it;
/// nothing at all for a success without a value; and the status 500 alone
/// for a failure.
pub open spec fn content_for(payload: PayloadModel) -> ContentModel {
    match payload {
        Ok(Some(value)) => content_of(value),
        Ok(None) => ContentModel { headers: None, body: None, status_code: None },
        Err(_) => ContentModel { headers: None, body: None, status_code: Some(500) },
    }
}

impl ContentResponse {
    /// Reads from `value` what it says of an HTTP response.
    pub fn from_value(value: Json) -> (content: ContentResponse)
        ensures
            content@ == content_of(value@),
    {
        let (headers, body, status_code) = read_content(&value);
        ContentResponse { headers, body, status_code }
    }

    /// The response to a message with the payload `payload`.
    pub fn answering(payload: Payload) -> (content: ContentResponse)
        ensures
            content@ == content_for(payload_model(payload)),
    {
        match payload {
            Ok(Some(value)) => ContentResponse::from_value(value),
            Ok(None) => ContentResponse { headers: None, body: None, status_code: None },
            Err(_) => ContentResponse { headers: None, body: None, status_code: Some(500) },
        }
    }

    /// The status code of the response: its own, or else that of the route.
    pub fn status(&self, route_default: u16) -> (code: u16)
        ensures
            code == (match self@.status_code {
                Some(own) => own,
                None => route_default,
            }),
    {
        match self.status_code {
            Some(own) => own,
            None => route_default,
        }
    }

    /// The body of the response: its own, or else the empty text.
    pub fn body_text(&self) -> (body: String)
        ensures
            body@ == (match self@.body {
                Some(own) => own,
                None => Seq::empty(),
            }),
    {
        match &self.body {
            Some(own) => own.clone(),
            None => String::new(),
        }
    }
}

/// The address at which a step with the parameters `params` listens: the
/// address they name; or the local host at the port they name, as a number
/// or as a text; or the local host at port 8080. A port that is a number
/// and no signed integer gives no address.
pub open spec fn listen_address(params: JsonModel) -> Option<Seq<char>> {
    match text_at(params, "address"@) {
        Some(address) => Some(address),
        None => match params.member("port"@) {
            Some(JsonModel::Number(port)) => match port.as_i64() {
                Some(number) => Some("127.0.0.1:"@ + signed_decimal(number as int)),
                None => None,
            },
            Some(JsonModel::Text(port)) => Some("127.0.0.1:"@ + port),
            _ => Some("127.0.0.1:8080"@),
        },
    }
}

/// The address at which a step with the parameters `params` listens.
pub fn address(params: &Json) -> (result: Option<String>)
    ensures
        text_model(result) == listen_address(params@),
{
    match read_text(params, "address") {
        Some(address) => Some(address),
        None => match params.get("port") {
            Some(Json::Number(port)) => match Json::Number(port.duplicate()).as_i64() {
                Some(number) => {
                    let mut out = chars_of("127.0.0.1:");
                    push_signed_decimal(number, &mut out);
                    Some(string_of(&out))
                },
                None => None,
            },
            Some(Json::Text(port)) => {
                let mut out = chars_of("127.0.0.1:");
                let digits = chars_of(port.as_str());
                append_chars(&mut out, &digits);
                Some(string_of(&out))
            },
            _ => Some("127.0.0.1:8080".to_owned()),
        },
    }
}

/// One route: the path it serves, the method it admits (`ANY` for every
/// method), the status code of a response that names none, and where its
/// messages are bound for.
#[derive(Clone, Debug, PartialEq)]
pub struct Route {
    pub path: String,
    pub method: String,
    pub default_status_code: u16,
    pub attach: Option<String>,
}

/// What a `Route` stands for.
pub struct RouteModel {
    pub path: Seq<char>,
    pub method: Seq<char>,
    pub default_status_code: u16,
    pub attach: Option<Seq<char>>,
}

impl View for Route {
    type V = RouteModel;

    open spec fn view(&self) -> RouteModel {
        RouteModel {
            path: self.path@,
            method: self.method@,
            default_status_code: self.default_status_code,
            attach: text_model(self.attach),
        }
    }
}

/// What a list of routes stands for.
pub open spec fn routes_model(routes: Seq<Route>) -> Seq<RouteModel> {
    Seq::new(routes.len(), |i: int| routes[i]@)
}

/// The items that lay out the routes of a step with the parameters
/// `params`: the items of their member `routes`, where that is a list, and
/// else the parameters themselves as the only route.
pub open spec fn route_items(params: JsonModel) -> Seq<JsonModel> {
    match params.member("routes"@) {
        Some(JsonModel::List(items)) => items,
        _ => seq![params],
    }
}

/// The route that `item` lays out; none where it names no path.
pub open spec fn route_of(item: JsonModel) -> Option<RouteModel> {
    match text_at(item, "path"@) {
        None => None,
        Some(path) => Some(
            RouteModel {
                path: path,
                method: match text_at(item, "method"@) {
                    Some(method) => method,
                    None => "ANY"@,
                },
                default_status_code: match item.member("default_status_code"@) {
                    Some(code) => match code.as_u64() {
                        Some(number) => (number % 0x1_0000) as u16,
                        None => 200,
                    },
                    None => 200,
                },
                attach: text_at(item, "attach"@),
            },
        ),
    }
}

/// The routes that the first `upto` of `items` lay out; none where one of
/// them names no path.
pub open spec fn routes_upto(items: Seq<JsonModel>, upto: int) -> Option<Seq<RouteModel>>
    decreases upto,
{
    if upto <= 0 || upto > items.len() {
        Some(Seq::empty())
    } else {
        match (routes_upto(items, upto - 1), route_of(items[upto - 1])) {
            (Some(routes), Some(route)) => Some(routes.push(route)),
            _ => None,
        }
    }
}

/// The routes of a step with the parameters `params`.
pub open spec fn routes_of(params: JsonModel) -> Option<Seq<RouteModel>> {
    routes_upto(route_items(params), route_items(params).len() as int)
}

/// The route that `item` lays out.
pub fn read_route(item: &Json) -> (result: Option<Route>)
    ensures
        match result {
            Some(route) => route_of(item@) == Some(route@),
            None => route_of(item@) is None,
        },
{
    let path = match read_text(item, "path") {
        Some(path) => path,
        None => {
            return None;
        },
    };
    let method = match read_text(item, "method") {
        Some(method) => method,
        None => "ANY".to_owned(),
    };
    let default_status_code: u16 = match item.get("default_status_code") {
        Some(code) => match code.as_u64() {
            Some(number) => (number % 0x1_0000) as u16,
            None => 200,
        },
        None => 200,
    };
    Some(Route { path, method, default_status_code, attach: read_text(item, "attach") })
}

/// Once an item names no path, the items after it change nothing.
pub proof fn lemma_no_routes_stays(items: Seq<JsonModel>, at: int, upto: int)
    requires
        0 <= at <= upto <= items.len(),
        routes_upto(items, at) is None,
    ensures
        routes_upto(items, upto) is None,
    decreases upto - at,
{
    if at < upto {
        lemma_no_routes_stays(items, at, upto - 1);
    }
}

/// The routes that `items` lay out.
fn read_routes(items: &Vec<Json>) -> (result: Option<Vec<Route>>)
    ensures
        match result {
            Some(routes) => routes_upto(items_model(items@), items@.len() as int) == Some(
                routes_model(routes@),
            ),
            None => routes_upto(items_model(items@), items@.len() as int) is None,
        },
{
    let ghost models = items_model(items@);
    let mut routes: Vec<Route> = Vec::new();
    let mut i: usize = 0;
    assert(routes_model(routes@) =~= Seq::empty());
    while i < items.len()
        invariant
            i <= items.len(),
            models == items_model(items@),
            routes_upto(models, i as int) == Some(routes_model(routes@)),
        decreases items.len() - i,
    {
        let ghost before = routes_model(routes@);
        assert(models[i as int] == items@[i as int]@);
        match read_route(&items[i]) {
            Some(route) => {
                routes.push(route);
                assert(routes_model(routes@) =~= before.push(route@));
            },
            None => {
                proof {
                    assert(routes_upto(models, i + 1) is None);
                    lemma_no_routes_stays(models, i + 1, models.len() as int);
                }
                return None;
            },
        }
        i += 1;
    }
    Some(routes)
}

/// The routes of a step with the parameters `params`; none where one of
/// them names no path.
pub fn routes(params: &Json) -> (result: Option<Vec<Route>>)
    ensures
        match result {
            Some(found) => routes_of(params@) == Some(routes_model(found@)),
            None => routes_of(params@) is None,
        },
{
    let listed = match params.get("routes") {
        Some(found) => found.as_array(),
        None => None,
    };
    match listed {
        Some(items) => read_routes(items),
        None => {
            let mut items: Vec<Json> = Vec::new();
            items.push(params.duplicate());
            assert(items_model(items@) =~= route_items(params@));
            read_routes(&items)
        },
    }
}

/// What becomes of an HTTP request at a route.
#[derive(Clone, Debug, PartialEq)]
pub enum Admission {
    /// The route admits the request: it is handed on as a message.
    PassOn,
    /// The route does not admit the request: it is answered at once, with
    /// this status and this body, and no message is made of it.
    Refused { status: u16, body: String },
}

impl RouteModel {
    /// Whether the route admits a request of the method `method`: it admits
    /// every method where its own is `ANY`, and else its own alone.
    pub open spec fn admits(self, method: Seq<char>) -> bool {
        self.method == "ANY"@ || self.method == method
    }
}

impl Route {
    /// Whether the route admits a request of the method `method`.
    pub fn admits(&self, method: &str) -> (admitted: bool)
        ensures
            admitted == self@.admits(method@),
    {
        reads_as(self.method.as_str(), "ANY") || reads_as(self.method.as_str(), method)
    }

    /// What becomes of a request of the method `method` at this route: it
    /// is handed on where the route admits it, and answered with the status
    /// 404 and an empty body where it does not.
    pub fn admission(&self, method: &str) -> (verdict: Admission)
        ensures
            match verdict {
                Admission::PassOn => self@.admits(method@),
                Admission::Refused { status, body } => !self@.admits(method@) && status == 404
                    && body@ == Seq::<char>::empty(),
            },
    {
        if self.admits(method) {
            Admission::PassOn
        } else {
            Admission::Refused { status: 404, body: String::new() }
        }
    }
}

/// The member that one item of a query text stands for: what stands before
/// the first `=` is its name, and what stands between the first and the
/// second is its value; an item without `=` has the null value.
pub open spec fn query_member(item: Seq<char>) -> (Seq<char>, JsonModel) {
    let parts = split(item, '=');
    (
        parts[0],
        if parts.len() > 1 {
            JsonModel::Text(parts[1])
        } else {
            JsonModel::Null
        },
    )
}

/// The members that the first `upto` of `items` stand for: a name that
/// comes again takes the later value.
pub open spec fn query_upto(items: Seq<Seq<char>>, upto: int) -> Seq<(Seq<char>, JsonModel)>
    decreases upto,
{
    if upto <= 0 || upto > items.len() {
        Seq::empty()
    } else {
        with_member(query_upto(items, upto - 1), query_member(items[upto - 1]))
    }
}

/// The object that a query text stands for: its items are what the `&`s
/// cut it into.
pub open spec fn query_of(query: Seq<char>) -> JsonModel {
    JsonModel::Object(query_upto(split(query, '&'), split(query, '&').len() as int))
}

/// The members of a query text have their names apart.
pub proof fn lemma_query_unique(items: Seq<Seq<char>>, upto: int)
    requires
        0 <= upto <= items.len(),
    ensures
        unique_names(query_upto(items, upto)),
    decreases upto,
{
    if upto > 0 {
        lemma_query_unique(items, upto - 1);
        crate::json::lemma_with_member(query_upto(items, upto - 1), query_member(items[upto - 1]));
    }
}

/// The object that the query text `query` stands for; no two of its
/// members have the same name.
pub fn parse_query(query: &str) -> (value: Json)
    ensures
        value@ == query_of(query@),
        unique_names(value@->Object_0),
{
    proof {
        lemma_query_unique(split(query@, '&'), split(query@, '&').len() as int);
    }
    let text = chars_of(query);
    let items = split_at(&text, '&');
    let ghost models = texts_model(items@);
    let mut members: Vec<Member> = Vec::new();
    let mut i: usize = 0;
    assert(members_model(members@) =~= Seq::empty());
    while i < items.len()
        invariant
            i <= items.len(),
            models == texts_model(items@),
            members_model(members@) == query_upto(models, i as int),
        decreases items.len() - i,
    {
        assert(models[i as int] == items@[i as int]@);
        let parts = split_at(&items[i], '=');
        assert(texts_model(parts@)[0] == parts@[0]@);
        let name = string_of(&parts[0]);
        let value = if parts.len() > 1 {
            assert(texts_model(parts@)[1] == parts@[1]@);
            Json::Text(string_of(&parts[1]))
        } else {
            Json::Null
        };
        set_member(&mut members, Member { name, value });
        i += 1;
    }
    let value = Json::Object(members);
    proof {
        crate::json::lemma_view_of_parts(value);
    }
    value
}

/// What the step knows of one HTTP request.
#[derive(Debug, PartialEq)]
pub struct Inbound {
    pub headers: Vec<Member>,
    pub body: String,
    pub query_string: String,
    pub params: Vec<Member>,
    pub method: String,
    pub path: String,
    pub ip: String,
    pub is_ipv4: bool,
    pub is_ipv6: bool,
}

/// The payload that stands for an HTTP request. Of the headers of one
/// name, and of the parameters of one name, the last one counts.
pub open spec fn inbound_of(inbound: Inbound) -> JsonModel {
    JsonModel::Object(
        seq![
            ("headers"@, JsonModel::Object(merged(members_model(inbound.headers@)))),
            ("body"@, JsonModel::Text(inbound.body@)),
            ("query_string"@, query_of(inbound.query_string@)),
            ("params"@, JsonModel::Object(merged(members_model(inbound.params@)))),
            ("method"@, JsonModel::Text(inbound.method@)),
            ("path"@, JsonModel::Text(inbound.path@)),
            ("ip"@, JsonModel::Text(inbound.ip@)),
            ("is_ipv4"@, JsonModel::Bool(inbound.is_ipv4)),
            ("is_ipv6"@, JsonModel::Bool(inbound.is_ipv6)),
        ],
    )
}

/// The payload that stands for the HTTP request `inbound`.
pub fn inbound_payload(inbound: Inbound) -> (value: Json)
    ensures
        value@ == inbound_of(inbound),
{
    let query = parse_query(inbound.query_string.as_str());
    let headers = Json::Object(merge_members(inbound.headers));
    let params = Json::Object(merge_members(inbound.params));
    proof {
        crate::json::lemma_view_of_parts(headers);
        crate::json::lemma_view_of_parts(params);
    }
    let mut members: Vec<Member> = Vec::new();
    members.push(Member { name: "headers".to_owned(), value: headers });
    members.push(Member { name: "body".to_owned(), value: Json::Text(inbound.body) });
    members.push(Member { name: "query_string".to_owned(), value: query });
    members.push(Member { name: "params".to_owned(), value: params });
    members.push(Member { name: "method".to_owned(), value: Json::Text(inbound.method) });
    members.push(Member { name: "path".to_owned(), value: Json::Text(inbound.path) });
    members.push(Member { name: "ip".to_owned(), value: Json::Text(inbound.ip) });
    members.push(Member { name: "is_ipv4".to_owned(), value: Json::Bool(inbound.is_ipv4) });
    members.push(Member { name: "is_ipv6".to_owned(), value: Json::Bool(inbound.is_ipv6) });
    let value = Json::Object(members);
    proof {
        crate::json::lemma_view_of_parts(value);
        assert(value@->Object_0 =~= inbound_of(inbound)->Object_0);
    }
    value
}

/// The message with which step `id` hands on the HTTP request `inbound`
/// that `route` admitted: a success that holds the request's payload,
/// bound for the route's attach target, under the next trace identifier of
/// the step's counter.
pub fn http_server(
    id: ID,
    inbound: Inbound,
    route: &Route,
    counter: &mut TraceId,
) -> (response: Response)
    ensures
        final(counter).id == next_trace(old(counter).id),
        response@ == (ResponseModel {
            payload: Ok(Some(inbound_of(inbound))),
            attach: route@.attach,
            origin: id,
            trace_id: final(counter).id,
        }),
{
    let trace_id = counter.get_trace();
    Response {
        payload: Ok(Some(inbound_payload(inbound))),
        attach: copy_text(&route.attach),
        origin: id,
        trace_id,
    }
}

/// The headers among the first `upto` of `members` whose value is a text.
pub open spec fn text_headers_upto(members: Seq<(Seq<char>, JsonModel)>, upto: int) -> Seq<
    (Seq<char>, Seq<char>),
>
    decreases upto,
{
    if upto <= 0 || upto > members.len() {
        Seq::empty()
    } else {
        match members[upto - 1].1.as_str() {
            Some(text) => text_headers_upto(members, upto - 1).push((members[upto - 1].0, text)),
            None => text_headers_upto(members, upto - 1),
        }
    }
}

/// The headers of a response that can be written: those whose value is a text.
pub fn text_headers(members: &Vec<Member>) -> (headers: Vec<Header>)
    ensures
        crate::request::headers_model(headers@) == text_headers_upto(
            members_model(members@),
            members@.len() as int,
        ),
{
    let mut headers: Vec<Header> = Vec::new();
    let mut i: usize = 0;
    assert(crate::request::headers_model(headers@) =~= Seq::empty());
    while i < members.len()
        invariant
            i <= members.len(),
            crate::request::headers_model(headers@) == text_headers_upto(
                members_model(members@),
                i as int,
            ),
        decreases members.len() - i,
    {
        let ghost before = crate::request::headers_model(headers@);
        match members[i].value.as_str() {
            Some(text) => {
                headers.push(Header { name: members[i].name.clone(), value: text.to_owned() });
                assert(crate::request::headers_model(headers@) =~= before.push(
                    (members@[i as int].name@, text@),
                ));
            },
            None => {},
        }
        i += 1;
    }
    headers
}

/// The HTTP requests that wait for their message to come back, by trace
/// identifier.
#[derive(Debug, PartialEq)]
pub struct Waiting {
    pub traces: Vec<ID>,
}

impl View for Waiting {
    type V = Set<ID>;

    open spec fn view(&self) -> Set<ID> {
        Set::new(|trace: ID| self.traces@.contains(trace))
    }
}

impl Waiting {
    /// No request waits.
    pub fn new() -> (waiting: Waiting)
        ensures
            waiting@ == Set::<ID>::empty(),
    {
        let waiting = Waiting { traces: Vec::new() };
        assert(waiting@ =~= Set::<ID>::empty());
        waiting
    }

    /// The request of trace `trace` waits from now on.
    pub fn expect(&mut self, trace: ID)
        ensures
            final(self)@ == old(self)@.insert(trace),
    {
        self.traces.push(trace);
        assert forall|t: ID| self@.contains(t) == old(self)@.insert(trace).contains(t) by {
            if old(self).traces@.contains(t) {
                let k = choose|k: int| 0 <= k < old(self).traces@.len() && old(self).traces@[k] == t;
                assert(self.traces@[k] == t);
            }
            if t == trace {
                assert(self.traces@[self.traces@.len() - 1] == t);
            }
        }
        assert(self@ =~= old(self)@.insert(trace));
    }

    /// The message of trace `trace` has come back: tells whether a request
    /// waited for it, and lets it wait no longer.
    pub fn settle(&mut self, trace: ID) -> (waited: bool)
        ensures
            waited == old(self)@.contains(trace),
            final(self)@ == old(self)@.remove(trace),
    {
        let mut kept: Vec<ID> = Vec::new();
        let mut waited = false;
        let mut i: usize = 0;
        while i < self.traces.len()
            invariant
                i <= self.traces.len(),
                self.traces@ == old(self).traces@,
                waited == self.traces@.take(i as int).contains(trace),
                forall|t: ID|
                    kept@.contains(t) <==> (t != trace && self.traces@.take(i as int).contains(t)),
            decreases self.traces.len() - i,
        {
            let t = self.traces[i];
            let ghost seen = self.traces@.take(i as int);
            let ghost more = self.traces@.take(i + 1);
            let ghost before = kept@;
            assert(more =~= seen.push(t));
            if t == trace {
                waited = true;
            } else {
                kept.push(t);
            }
            proof {
                assert forall|u: ID| more.contains(u) <==> (seen.contains(u) || u == t) by {
                    if seen.contains(u) {
                        let k = choose|k: int| 0 <= k < seen.len() && seen[k] == u;
                        assert(more[k] == u);
                    }
                    if u == t {
                        assert(more[more.len() - 1] == u);
                    }
                }
                assert forall|u: ID| kept@.contains(u) <==> (before.contains(u) || (u == t && t
                    != trace)) by {
                    if before.contains(u) {
                        let k = choose|k: int| 0 <= k < before.len() && before[k] == u;
                        assert(kept@[k] == u);
                    }
                    if u == t && t != trace {
                        assert(kept@[kept@.len() - 1] == u);
                    }
                }
                assert forall|u: ID| kept@.contains(u) <==> (u != trace && more.contains(u)) by {
                    assert(before.contains(u) <==> (u != trace && seen.contains(u)));
                    assert(more.contains(u) <==> (seen.contains(u) || u == t));
                }
                assert(waited == more.contains(trace));
                assert(more == self.traces@.take((i + 1) as int));
            }
            i += 1;
        }
        assert(self.traces@.take(i as int) =~= self.traces@);
        self.traces = kept;
        assert(self@ =~= old(self)@.remove(trace));
        waited
    }
}

} // verus!
