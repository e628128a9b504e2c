use carbon::dispatcher::Burst;
use carbon::dispatcher::burst;
use carbon::dispatcher::Plan;
use carbon::http_server::address;
use carbon::http_server::ContentResponse;
use carbon::http_server::Inbound;
use carbon::http_server::inbound_payload;
use carbon::http_server::parse_query;
use carbon::http_server::read_route;
use carbon::http_server::routes;
use carbon::http_server::text_headers;
use carbon::http_server::Admission;
use carbon::http_server::Waiting;
use carbon::json::Json;
use carbon::json::Member;
use carbon::json::Number;
use carbon::modules::Config;
use carbon::modules::Request;
use carbon::modules::TraceId;
use carbon::request::answer;
use carbon::request::Call;
use carbon::request::ContentRequest;
use carbon::request::failure;
use carbon::request::Header;
use carbon::request::read_header;
use carbon::request::result;

fn to_json(value: &serde_json::Value) -> Json {
    match value {
        serde_json::Value::Null => Json::Null,
        serde_json::Value::Bool(b) => Json::Bool(*b),
        serde_json::Value::Number(n) => {
            if let Some(u) = n.as_u64() {
                Json::Number(Number::PosInt(u))
            } else if let Some(i) = n.as_i64() {
                Json::Number(Number::NegInt(i))
            } else {
                Json::Number(Number::Float(n.to_string()))
            }
        }
        serde_json::Value::String(s) => Json::Text(s.clone()),
        serde_json::Value::Array(items) => Json::List(items.iter().map(to_json).collect()),
        serde_json::Value::Object(members) => Json::Object(
            members
                .iter()
                .map(|(name, value)| Member { name: name.clone(), value: to_json(value) })
                .collect(),
        ),
    }
}

fn j(text: &str) -> Json {
    to_json(&serde_json::from_str::<serde_json::Value>(text).unwrap())
}

fn config(params: Option<Json>) -> Config {
    Config { reference: "test".to_string(), params, producer: Some(true), default_attach: None }
}

fn headers(call: &Call) -> Vec<(String, String)> {
    call.header.iter().map(|h| (h.name.clone(), h.value.clone())).collect()
}

fn pair(name: &str, value: &str) -> (String, String) {
    (name.to_string(), value.to_string())
}

#[test]
fn test() {
    let config = config(Some(j("{\"number_of_dispatch\": 10, \"spawn_rate\": 1, \"spawn_interval\": 1000}")));
    let attach = config.default_attach.clone();
    let plan = carbon::dispatcher::plan(config);
    assert_eq!(plan.number_of_dispatch, 10);
    assert_eq!(plan.spawn_rate, 1);
    assert_eq!(plan.spawn_interval, 1000);
    let mut counter = TraceId::new();
    let mut total = 0;
    let mut limit = 0;
    while let Some(next) = burst(&plan, total) {
        assert_eq!(next, Burst { sends: 1, traces: 1 });
        let response = carbon::dispatcher::dispatcher(0, &plan, &attach, &mut counter);
        limit = limit + 1;
        total += 1;
        assert_eq!(response.trace_id, limit);
        assert_eq!(response.origin, 0);
        assert!(matches!(response.payload, Ok(Some(Json::Text(text))) if text.is_empty()));
    }
    assert_eq!(limit, 10);
}

#[test]
fn dispatcher_plan_has_its_defaults() {
    let bare = carbon::dispatcher::plan(config(None));
    assert!(bare.payload.same(&Json::Text(String::new())));
    assert_eq!((bare.number_of_dispatch, bare.spawn_rate, bare.spawn_interval), (1, 1, 0));
    let odd = carbon::dispatcher::plan(config(Some(j(
        "{\"payload\": {\"a\": 1}, \"number_of_dispatch\": \"ten\", \"spawn_rate\": 2.5, \"spawn_interval\": \"soon\"}",
    ))));
    assert!(odd.payload.same(&j("{\"a\": 1}")));
    assert_eq!((odd.number_of_dispatch, odd.spawn_rate, odd.spawn_interval), (1, 1, 1));
    let negative = carbon::dispatcher::plan(config(Some(j(
        "{\"number_of_dispatch\": -3, \"spawn_rate\": -4, \"spawn_interval\": -1}",
    ))));
    assert_eq!(
        (negative.number_of_dispatch, negative.spawn_rate, negative.spawn_interval),
        (-3, -4, u64::MAX)
    );
    let text = carbon::dispatcher::plan(config(Some(j("\"not an object\""))));
    assert_eq!((text.number_of_dispatch, text.spawn_rate, text.spawn_interval), (1, 1, 0));
}

#[test]
fn bursts_send_what_is_left_to_send() {
    let plan = |number: i64, rate: i64| Plan {
        payload: Json::Null,
        number_of_dispatch: number,
        spawn_rate: rate,
        spawn_interval: 0,
    };
    assert_eq!(burst(&plan(10, 3), 0), Some(Burst { sends: 3, traces: 3 }));
    assert_eq!(burst(&plan(10, 3), 9), Some(Burst { sends: 1, traces: 2 }));
    assert_eq!(burst(&plan(10, 3), 7), Some(Burst { sends: 3, traces: 3 }));
    assert_eq!(burst(&plan(10, 3), 10), None);
    assert_eq!(burst(&plan(10, 3), 11), None);
    assert_eq!(burst(&plan(10, 0), 0), Some(Burst { sends: 0, traces: 0 }));
    assert_eq!(burst(&plan(10, -1), 0), Some(Burst { sends: 0, traces: 0 }));
    assert_eq!(burst(&plan(0, 5), 0), None);
    assert_eq!(burst(&plan(-1, 5), 0), None);
    assert_eq!(
        burst(&plan(i64::MAX, i64::MAX), i64::MIN),
        Some(Burst { sends: i64::MAX as u64, traces: i64::MAX as u64 })
    );
    assert_eq!(burst(&plan(2, i64::MAX), -2), Some(Burst { sends: 4, traces: 5 }));
}

#[test]
fn content_is_read_from_a_value() {
    let content = ContentRequest::from_value(j(
        "{\"headers\": {\"x-test\": \"success\", \"n\": 1}, \"status_code\": 201, \"body\": \"OK!\"}",
    ));
    assert_eq!(content.status_code, Some(201));
    assert_eq!(content.body, Some("\"OK!\"".to_string()));
    assert_eq!(
        Json::Object(content.headers.unwrap()).to_text(),
        "{\"n\":1,\"x-test\":\"success\"}"
    );
    let bare = ContentRequest::from_value(j("{}"));
    assert!(bare.headers.is_none());
    assert_eq!(bare.status_code, None);
    assert_eq!(bare.body, Some("null".to_string()));
    let odd = ContentRequest::from_value(j(
        "{\"headers\": [1], \"status_code\": -1, \"body\": {\"a\": [1, \"b\"]}}",
    ));
    assert!(odd.headers.is_none());
    assert_eq!(odd.status_code, None);
    assert_eq!(odd.body, Some("{\"a\":[1,\"b\"]}".to_string()));
    assert_eq!(ContentRequest::from_value(j("{\"status_code\": 65536}")).status_code, Some(0));
    assert_eq!(ContentRequest::from_value(j("{\"status_code\": 65739}")).status_code, Some(203));
    assert_eq!(ContentRequest::from_value(j("{\"status_code\": \"200\"}")).status_code, None);
    assert_eq!(ContentRequest::from_value(j("[1]")).body, Some("null".to_string()));
}

#[test]
fn test_not_producer() {
    let params = j("{\"url\": \"http://127.0.0.1:10011/test\", \"method\": \"GET\"}");
    let standing = Call::plain().over(&params);
    assert_eq!(standing.url, "http://127.0.0.1:10011/test");
    let message = Request {
        origin: 1,
        trace_id: 1,
        payload: Ok(Some(j("{\"url\": \"http://127.0.0.1:10011/other\"}"))),
    };
    let call = carbon::request::request(&message, &standing).unwrap();
    assert_eq!(call.method, "GET");
    assert_eq!(call.url, "http://127.0.0.1:10011/other");
    assert_eq!(call.body, "");
    assert!(call.header.is_empty());
    let came_back = result(
        &vec![Header { name: "x-test".to_string(), value: "success".to_string() }],
        Some("OK!".to_string()),
        201,
    );
    let res = answer(0, &message, came_back, &None);
    let payload = res.payload.ok().unwrap().unwrap();
    let headers = payload.get("headers").unwrap();
    let status_code = payload.get("status_code").unwrap().as_i64();
    let body = payload.get("body").unwrap().as_str();
    let x_test = headers.get("x-test").unwrap().as_str();

    assert_eq!(body.unwrap(), "OK!");
    assert_eq!(status_code.unwrap(), 201);
    assert_eq!(x_test.unwrap(), "success");
    assert_eq!(res.trace_id, 1);
    assert_eq!(res.origin, 0);
    assert_eq!(res.attach, None);
}

#[test]
fn call_has_its_defaults_and_its_overrides() {
    let plain = Call::plain();
    assert_eq!(plain.method, "GET");
    assert_eq!(plain.url, "");
    assert_eq!(plain.body, "");
    assert!(plain.header.is_empty());
    let standing = plain.over(&j(
        "{\"method\": \"post\", \"url\": \"http://a/\", \"header\": {\"x\": \"1\", \"y\": 2}, \"body\": \"b\"}",
    ));
    assert_eq!(standing.method, "POST");
    assert_eq!(standing.url, "http://a/");
    assert_eq!(standing.body, "b");
    assert_eq!(headers(&standing), vec![pair("x", "1"), pair("y", "")]);
    let kept = standing.over(&j("{\"method\": 1, \"url\": null, \"header\": [], \"body\": {}}"));
    assert_eq!(kept.method, "POST");
    assert_eq!(kept.url, "http://a/");
    assert_eq!(kept.body, "b");
    assert_eq!(headers(&kept), vec![pair("x", "1"), pair("y", "")]);
    let changed = standing.over(&j("{\"method\": \"put\", \"header\": {}, \"body\": \"\"}"));
    assert_eq!(changed.method, "PUT");
    assert_eq!(changed.url, "http://a/");
    assert_eq!(changed.body, "");
    assert!(changed.header.is_empty());
    let other = standing.over(&j("\"no object\""));
    assert_eq!(other.method, "POST");
    assert_eq!(Call::plain().over(&j("{\"method\": \"straße\"}")).method, "STRASSE");
}

#[test]
fn request_answers_only_a_value() {
    let standing = Call::plain();
    let with = |payload| Request { origin: 0, payload, trace_id: 0 };
    assert!(carbon::request::request(&with(Ok(None)), &standing).is_none());
    assert!(carbon::request::request(&with(Err(None)), &standing).is_none());
    assert!(carbon::request::request(&with(Err(Some(j("{}")))), &standing).is_none());
    assert!(carbon::request::request(&with(Ok(Some(j("1")))), &standing).is_some());
}

#[test]
fn request_results_are_objects() {
    let came_back = result(
        &vec![
            Header { name: "a".to_string(), value: "1".to_string() },
            Header { name: "b".to_string(), value: "".to_string() },
        ],
        None,
        404,
    );
    assert_eq!(
        came_back.to_text(),
        "{\"body\":null,\"headers\":{\"a\":\"1\",\"b\":\"\"},\"status_code\":404}"
    );
    assert_eq!(failure("refused".to_string()).to_text(), "{\"error\":\"refused\"}");
    assert!(read_header(&j("{\"header\": 1}")).is_none());
    assert!(read_header(&j("{}")).is_none());
    let attach = Some("next".to_string());
    let asked = |trace_id| Request { origin: 9, payload: Ok(Some(Json::Null)), trace_id };
    let first = answer(3, &asked(42), Json::Null, &attach);
    let second = answer(3, &asked(7), Json::Bool(true), &attach);
    assert_eq!((first.trace_id, second.trace_id), (42, 7));
    assert_eq!((first.origin, second.origin), (3, 3));
    assert_eq!(second.attach, attach);
    assert!(matches!(second.payload, Ok(Some(Json::Bool(true)))));
    let twice = result(
        &vec![
            Header { name: "a".to_string(), value: "1".to_string() },
            Header { name: "b".to_string(), value: "2".to_string() },
            Header { name: "a".to_string(), value: "3".to_string() },
        ],
        None,
        200,
    );
    assert_eq!(twice.get("headers").unwrap().as_object().unwrap().len(), 2);
    assert_eq!(twice.get("headers").unwrap().get("a").unwrap().as_str(), Some("3"));
}

#[test]
fn test_index_ok() {
    let params = j("{\"path\": \"/my-path/{name}/{other}\", \"address\": \"127.0.0.1:9301\"}");
    assert_eq!(address(&params), Some("127.0.0.1:9301".to_string()));
    let found = routes(&params).unwrap();
    assert_eq!(found.len(), 1);
    assert_eq!(found[0].path, "/my-path/{name}/{other}");
    let query = parse_query("item=1&case=bar");
    assert_eq!(query.to_text(), "{\"case\":\"bar\",\"item\":\"1\"}");
    assert_eq!(query.as_object().unwrap()[0].name, "item");
    let inbound = Inbound {
        headers: vec![],
        body: "my: {}".to_string(),
        query_string: "item=1&case=bar".to_string(),
        params: vec![
            Member { name: "name".to_string(), value: Json::Text("foo".to_string()) },
            Member { name: "other".to_string(), value: Json::Text("fux".to_string()) },
        ],
        method: "POST".to_string(),
        path: "/my-path/foo/fux".to_string(),
        ip: "127.0.0.1".to_string(),
        is_ipv4: true,
        is_ipv6: false,
    };
    let payload = inbound_payload(inbound);
    let name = payload.get("params").unwrap().get("name").unwrap().as_str().unwrap().to_string();
    let other = payload.get("params").unwrap().get("other").unwrap().as_str().unwrap().to_string();
    let case = payload.get("query_string").unwrap().get("case").unwrap().as_str().unwrap().to_string();
    let body = payload.get("body").unwrap().as_str().unwrap().to_string();
    assert_eq!(body.replace("{}", &format!("{}-baz-{}-{}", name, other, case)), "my: foo-baz-fux-bar");
}

#[test]
fn test_port() {
    assert_eq!(address(&j("{\"path\": \"/\", \"port\": 9302}")), Some("127.0.0.1:9302".to_string()));
    assert_eq!(address(&j("{\"path\": \"/\", \"port\": \"9302\"}")), Some("127.0.0.1:9302".to_string()));
    assert_eq!(address(&j("{\"path\": \"/\"}")), Some("127.0.0.1:8080".to_string()));
    assert_eq!(address(&j("{\"port\": true}")), Some("127.0.0.1:8080".to_string()));
    assert_eq!(address(&j("{\"port\": -1}")), Some("127.0.0.1:-1".to_string()));
    assert_eq!(address(&j("{\"port\": 80.5}")), None);
    assert_eq!(address(&j("{\"port\": 18446744073709551615}")), None);
    assert_eq!(
        address(&j("{\"address\": \"0.0.0.0:1\", \"port\": 2}")),
        Some("0.0.0.0:1".to_string())
    );
    assert_eq!(address(&j("{\"address\": 5, \"port\": 2}")), Some("127.0.0.1:2".to_string()));
}

#[test]
fn test_custom_status_code() {
    let content = ContentResponse::from_value(j("{\"status_code\": 203}"));
    assert_eq!(content.status(200), 203);
    assert_eq!(ContentResponse::from_value(j("{}")).status(200), 200);
    assert_eq!(ContentResponse::from_value(j("{}")).status(418), 418);
}

#[test]
fn test_method_not_found() {
    let route = read_route(&j("{\"path\": \"/\", \"method\": \"PUT\", \"port\": 9304}")).unwrap();
    assert!(!route.admits("POST"));
    assert!(!route.admits("put"));
    assert!(route.admits("PUT"));
    assert_eq!(route.admission("POST"), Admission::Refused { status: 404, body: String::new() });
    assert_eq!(route.admission("PUT"), Admission::PassOn);
}

#[test]
fn test_method_any() {
    let route = read_route(&j("{\"path\": \"/\", \"method\": \"ANY\", \"port\": 9305}")).unwrap();
    assert!(route.admits("POST"));
    assert!(route.admits("GET"));
    assert_eq!(route.admission("POST"), Admission::PassOn);
    let unnamed = read_route(&j("{\"path\": \"/\"}")).unwrap();
    assert_eq!(unnamed.method, "ANY");
    assert!(unnamed.admits("DELETE"));
}

#[test]
fn test_multiple_paths() {
    let params = j(
        "{\"routes\": [{\"path\": \"/foo/fux\", \"default_status_code\": 203, \"method\": \"POST\"}, {\"path\": \"/bar/foo\", \"default_status_code\": 202, \"method\": \"POST\"}, {\"path\": \"/bar/xxx\", \"default_status_code\": 400, \"method\": \"GET\", \"attach\": \"errors\"}, {\"path\": \"/any\", \"default_status_code\": 600000, \"method\": \"ANY\"}], \"port\": 9307}",
    );
    let found = routes(&params).unwrap();
    let table: Vec<(String, String, u16, Option<String>)> = found
        .iter()
        .map(|r| (r.path.clone(), r.method.clone(), r.default_status_code, r.attach.clone()))
        .collect();
    assert_eq!(
        table,
        vec![
            ("/foo/fux".to_string(), "POST".to_string(), 203, None),
            ("/bar/foo".to_string(), "POST".to_string(), 202, None),
            ("/bar/xxx".to_string(), "GET".to_string(), 400, Some("errors".to_string())),
            ("/any".to_string(), "ANY".to_string(), (600000u64 % 65536) as u16, None),
        ]
    );
    let answered = ContentResponse::answering(Ok(Some(j("{}"))));
    assert_eq!(answered.status(found[0].default_status_code), 203);
    assert_eq!(answered.status(found[1].default_status_code), 202);
    assert_eq!(answered.status(found[2].default_status_code), 400);
    assert!(routes(&j("{\"routes\": [{\"path\": \"/a\"}, {\"method\": \"GET\"}]}")).is_none());
    assert!(routes(&j("{\"port\": 1}")).is_none());
    assert!(routes(&j("{\"routes\": []}")).unwrap().is_empty());
    assert_eq!(routes(&j("{\"routes\": {}, \"path\": \"/own\"}")).unwrap()[0].path, "/own");
}

#[test]
fn test_ip() {
    let inbound = Inbound {
        headers: vec![Member { name: "host".to_string(), value: Json::Text("h".to_string()) }],
        body: "".to_string(),
        query_string: "".to_string(),
        params: vec![],
        method: "GET".to_string(),
        path: "/".to_string(),
        ip: "127.0.0.1".to_string(),
        is_ipv4: true,
        is_ipv6: false,
    };
    let mut counter = TraceId::new();
    let route = read_route(&j("{\"path\": \"/\", \"method\": \"ANY\", \"attach\": \"next\"}")).unwrap();
    let response = carbon::http_server::http_server(5, inbound, &route, &mut counter);
    assert_eq!(response.origin, 5);
    assert_eq!(response.trace_id, 1);
    assert_eq!(response.attach, Some("next".to_string()));
    let payload = response.payload.ok().unwrap().unwrap();
    assert_eq!(payload.get("ip").unwrap().as_str(), Some("127.0.0.1"));
    assert_eq!(
        payload.to_text(),
        "{\"body\":\"\",\"headers\":{\"host\":\"h\"},\"ip\":\"127.0.0.1\",\"is_ipv4\":true,\"is_ipv6\":false,\"method\":\"GET\",\"params\":{},\"path\":\"/\",\"query_string\":{\"\":null}}"
    );
}

#[test]
fn query_text_is_cut_at_ampersands_and_equal_signs() {
    assert_eq!(parse_query("").to_text(), "{\"\":null}");
    assert_eq!(parse_query("a").to_text(), "{\"a\":null}");
    assert_eq!(parse_query("a=").to_text(), "{\"a\":\"\"}");
    assert_eq!(parse_query("a=1=2").to_text(), "{\"a\":\"1\"}");
    assert_eq!(parse_query("=1").to_text(), "{\"\":\"1\"}");
    assert_eq!(parse_query("a=1&b=2&a=3").to_text(), "{\"a\":\"3\",\"b\":\"2\"}");
    assert_eq!(parse_query("a&&b").to_text(), "{\"\":null,\"a\":null,\"b\":null}");
    let names: Vec<String> =
        parse_query("b&a&b=1").as_object().unwrap().iter().map(|m| m.name.clone()).collect();
    assert_eq!(names, vec!["b", "a"]);
    assert_eq!(parse_query("a=é&b=%20").to_text(), "{\"a\":\"é\",\"b\":\"%20\"}");
    for query in ["", "a", "a=1&b", "x=1=2&&y="] {
        let items: Vec<&str> = query.split("&").collect();
        let mut expected = serde_json::Map::new();
        for item in items {
            let parts: Vec<&str> = item.split("=").collect();
            match parts.get(1) {
                Some(value) => expected
                    .insert(parts[0].to_string(), serde_json::Value::from(value.to_string())),
                None => expected.insert(parts[0].to_string(), serde_json::Value::Null),
            };
        }
        let parsed: serde_json::Value = serde_json::from_str(&parse_query(query).to_text()).unwrap();
        assert_eq!(parsed, serde_json::Value::from(expected));
    }
}

#[test]
fn response_goes_by_the_message_that_came_back() {
    let value = ContentResponse::answering(Ok(Some(j(
        "{\"headers\": {\"a\": \"1\", \"b\": 2, \"c\": \"3\"}, \"body\": \"text\", \"status_code\": 201}",
    ))));
    assert_eq!(value.status(200), 201);
    assert_eq!(value.body_text(), "\"text\"");
    let written: Vec<(String, String)> = text_headers(value.headers.as_ref().unwrap())
        .into_iter()
        .map(|h| (h.name, h.value))
        .collect();
    assert_eq!(written, vec![pair("a", "1"), pair("c", "3")]);
    let empty = ContentResponse::answering(Ok(None));
    assert!(empty.headers.is_none() && empty.body.is_none() && empty.status_code.is_none());
    assert_eq!(empty.status(200), 200);
    assert_eq!(empty.body_text(), "");
    let failed = ContentResponse::answering(Err(Some(j("\"why\""))));
    assert!(failed.headers.is_none() && failed.body.is_none());
    assert_eq!(failed.status(200), 500);
}

#[test]
fn waiting_requests_are_settled_once() {
    let mut waiting = Waiting::new();
    assert!(!waiting.settle(1));
    waiting.expect(1);
    waiting.expect(2);
    waiting.expect(1);
    assert!(waiting.settle(1));
    assert!(!waiting.settle(1));
    assert!(waiting.settle(2));
    assert!(!waiting.settle(2));
    assert!(waiting.traces.is_empty());
}

#[test]
fn test_multiple_requests() {
    let route = read_route(&j("{\"path\": \"/\", \"method\": \"ANY\", \"port\": 9306, \"body\": \"test\"}")).unwrap();
    let mut counter = TraceId::new();
    let mut waiting = Waiting::new();
    let mut sent = Vec::new();
    for _ in 0..1000 {
        let inbound = Inbound {
            headers: vec![],
            body: "test".to_string(),
            query_string: "".to_string(),
            params: vec![],
            method: "POST".to_string(),
            path: "/".to_string(),
            ip: "127.0.0.1".to_string(),
            is_ipv4: true,
            is_ipv6: false,
        };
        let response = carbon::http_server::http_server(0, inbound, &route, &mut counter);
        waiting.expect(response.trace_id);
        sent.push(response);
    }
    assert_eq!(waiting.traces.len(), 1000);
    for (count, response) in sent.into_iter().enumerate() {
        assert_eq!(response.trace_id as usize, count + 1);
        assert!(waiting.settle(response.trace_id));
        let content = ContentResponse::answering(response.payload);
        assert_eq!(content.status(route.default_status_code), 200);
        assert_eq!(content.body_text(), "\"test\"");
    }
    assert!(waiting.traces.is_empty());
}
