use carbon::co2_struct::Co2;
use carbon::co2_struct::Module;
use carbon::co2_struct::Payload;
use carbon::co2_struct::Step;
use carbon::cyml_import::cyml_to_yaml;
use carbon::cyml_import::Format;
use carbon::cyml_import::import_source;
use carbon::cyml_import::ImportError;
use carbon::cyml_import::prepare;
use carbon::cyml_import::quote_blocks;
use carbon::cyml_import::render;
use carbon::cyml_import::source_format;
use carbon::json::Json;
use carbon::json::Number;
use carbon::scan::Capture;

fn number(n: u64) -> Json {
    Json::Number(Number::PosInt(n))
}

fn text(t: &str) -> Json {
    Json::Text(t.to_string())
}

fn step(module: Option<&str>) -> Step {
    Step {
        module: module.map(|m| m.to_string()),
        params: None,
        payload: None,
        reference: None,
        producer: None,
        attach: None,
    }
}

fn config(pipeline: Vec<Step>) -> Co2 {
    Co2 {
        version: Some("test".to_string()),
        modules: Some(vec![Module { name: "payload".to_string(), source: "payload".to_string() }]),
        pipeline,
    }
}

fn shape(step: &Step) -> String {
    format!(
        "use={:?} params={} payload={} ref={:?} producer={:?} attach={:?}",
        step.module,
        match &step.params {
            Some(p) => p.to_text(),
            None => "-".to_string(),
        },
        match &step.payload {
            Some(_) => "some",
            None => "-",
        },
        step.reference,
        step.producer,
        step.attach
    )
}

fn shapes(config: &Co2) -> Vec<String> {
    config.pipeline.iter().map(shape).collect()
}

fn copy(step: &Step) -> Step {
    Step {
        module: step.module.clone(),
        params: step.params.as_ref().map(|p| p.duplicate()),
        payload: step.payload.as_ref().map(|p| Payload {
            request: p.request.as_ref().map(|r| r.duplicate()),
            response: p.response.as_ref().map(|r| r.duplicate()),
        }),
        reference: step.reference.clone(),
        producer: step.producer,
        attach: step.attach.clone(),
    }
}

#[test]
fn import_file_yml() {
    let raw = "version: test\npipeline: []\n".to_string();
    let yaml = match import_source("test/example.yml", raw.clone()) {
        Ok(yaml) => yaml,
        Err(_) => panic!("a yml file is a configuration document"),
    };
    assert_eq!(yaml, raw);
    let document: serde_yaml::Value = serde_yaml::from_str(&yaml).unwrap();
    assert_eq!(document["version"].as_str(), Some("test"));
}

#[test]
fn import_file_cyml() {
    let raw = "version: test\npipeline:\n  - params: {{ eq name \"assis\" }}\n".to_string();
    let yaml = match import_source("test/example.cyml", raw) {
        Ok(yaml) => yaml,
        Err(_) => panic!("a cyml file is a configuration document"),
    };
    assert_eq!(yaml, "version: test\npipeline:\n  - params: \"{{ eq name \\\"assis\\\" }}\"\n");
    let document: serde_yaml::Value = serde_yaml::from_str(&yaml).unwrap();
    assert_eq!(document["version"].as_str(), Some("test"));
    assert_eq!(document["pipeline"][0]["params"].as_str(), Some("{{ eq name \"assis\" }}"));
}

#[test]
fn import_file_other_format() {
    assert!(match import_source("test/example.xxx", "version: test\n".to_string()) {
        Ok(_) => false,
        Err(_) => true,
    })
}

#[test]
fn import_tells_the_two_refusals_apart() {
    assert!(matches!(
        import_source("test/example", String::new()),
        Err(ImportError::MissingExtension)
    ));
    match import_source("test/example.xxx", String::new()) {
        Err(ImportError::UnknownExtension { extension }) => assert_eq!(extension, "xxx"),
        _ => panic!("an unknown extension is refused by its name"),
    }
    assert!(matches!(import_source("example.yaml", "a: 1".to_string()), Ok(yaml) if yaml == "a: 1"));
}

#[test]
fn format_goes_by_the_extension() {
    assert!(matches!(source_format(Some("yml")), Ok(Format::Yaml)));
    assert!(matches!(source_format(Some("yaml")), Ok(Format::Yaml)));
    assert!(matches!(source_format(Some("cyml")), Ok(Format::Cyml)));
    assert!(matches!(source_format(Some("YML")), Err(ImportError::UnknownExtension { .. })));
    assert!(matches!(source_format(Some("")), Err(ImportError::UnknownExtension { .. })));
    assert!(matches!(source_format(None), Err(ImportError::MissingExtension)));
}

#[test]
fn prepare_leaves_yaml_alone_and_quotes_the_dialect() {
    let raw = "a: {{ x }}".to_string();
    assert!(matches!(prepare(Some("yml"), raw.clone()), Ok(yaml) if yaml == "a: {{ x }}"));
    assert!(matches!(prepare(Some("cyml"), raw.clone()), Ok(yaml) if yaml == "a: \"{{ x }}\""));
    assert!(matches!(prepare(None, raw), Err(ImportError::MissingExtension)));
}

#[test]
fn cyml_quotes_an_expression() {
    assert_eq!(cyml_to_yaml("a: {{ x }}\n".to_string()), "a: \"{{ x }}\"\n");
}

#[test]
fn cyml_leaves_plain_text_alone() {
    assert_eq!(cyml_to_yaml("a: b\nc: { d: e }\n".to_string()), "a: b\nc: { d: e }\n");
    assert_eq!(cyml_to_yaml(String::new()), "");
    assert_eq!(cyml_to_yaml("a: {{ never closed\n".to_string()), "a: {{ never closed\n");
}

#[test]
fn cyml_quotes_a_repeated_expression_once_each_time() {
    assert_eq!(
        cyml_to_yaml("a: {{ x }}\nb: {{ x }}\nc: {{ y }}\n".to_string()),
        "a: \"{{ x }}\"\nb: \"{{ x }}\"\nc: \"{{ y }}\"\n"
    );
}

#[test]
fn cyml_escapes_the_quotes_inside() {
    assert_eq!(
        cyml_to_yaml("a: {{ calc \"1 + n\" n=n }}".to_string()),
        "a: \"{{ calc \\\"1 + n\\\" n=n }}\""
    );
}

#[test]
fn cyml_takes_an_expression_over_several_lines() {
    assert_eq!(cyml_to_yaml("a: {{ x\n  y }} z".to_string()), "a: \"{{ x\n  y }}\" z");
}

#[test]
fn cyml_ends_an_expression_at_the_first_closing_braces() {
    assert_eq!(cyml_to_yaml("{{a}}}} {{b}}".to_string()), "\"{{a}}\"}} \"{{b}}\"");
}

#[test]
fn cyml_quotes_every_block_where_it_stands() {
    let gaps = ["a: ", "\nb: {x: 1, y: {z: 2}}\nc: ", "\nd: ", " and ", "\n"];
    let inners = [" x ", " eq n \"1\" ", " x ", "y\nz"];
    let mut written = String::from(gaps[0]);
    let mut quoted = String::from(gaps[0]);
    for (inner, gap) in inners.iter().zip(gaps[1..].iter()) {
        written.push_str(&format!("{{{{{}}}}}{}", inner, gap));
        quoted.push_str(&format!("\"{{{{{}}}}}\"{}", inner.replace("\"", "\\\""), gap));
    }
    assert_eq!(
        written,
        "a: {{ x }}\nb: {x: 1, y: {z: 2}}\nc: {{ eq n \"1\" }}\nd: {{ x }} and {{y\nz}}\n"
    );
    assert_eq!(
        quoted,
        "a: \"{{ x }}\"\nb: {x: 1, y: {z: 2}}\nc: \"{{ eq n \\\"1\\\" }}\"\nd: \"{{ x }}\" and \"{{y\nz}}\"\n"
    );
    assert_eq!(cyml_to_yaml(written), quoted);
}

#[test]
fn cyml_quotes_blocks_whose_scripts_hold_single_braces() {
    assert_eq!(
        cyml_to_yaml("a: {x: {{ f{1}g \"h\" }}, y: {{ {k} }} }\nb: {{ f{1}g \"h\" }}\n".to_string()),
        "a: {x: \"{{ f{1}g \\\"h\\\" }}\", y: \"{{ {k} }}\" }\nb: \"{{ f{1}g \\\"h\\\" }}\"\n"
    );
}

#[test]
fn cyml_leaves_an_unclosed_block_behind_the_last_one() {
    assert_eq!(
        cyml_to_yaml("a: {{x}} b: {{ never closed }".to_string()),
        "a: \"{{x}}\" b: {{ never closed }"
    );
}

#[test]
fn cyml_quotes_twice_a_block_that_is_another_one_escaped() {
    assert_eq!(
        cyml_to_yaml("{{a\"b}} {{a\\\"b}}".to_string()),
        "\"\"{{a\\\\\"b}}\"\" \"{{a\\\\\"b}}\""
    );
}

#[test]
fn quote_blocks_goes_by_the_blocks_it_is_given() {
    let block = |t: &str| Capture { whole: t.to_string(), group: Some(t.to_string()) };
    assert_eq!(quote_blocks("a b a", &vec![block("a"), block("a")]), "\"a\" b \"a\"");
    assert_eq!(quote_blocks("a b a", &vec![block("b"), block("a")]), "\"a\" \"b\" \"a\"");
    assert_eq!(quote_blocks("a b a", &vec![]), "a b a");
    assert_eq!(quote_blocks("x\"y", &vec![block("x\"y")]), "\"x\\\"y\"");
    let none = Capture { whole: "a".to_string(), group: None };
    assert_eq!(quote_blocks("ab", &vec![none]), "\"\"a\"\"b\"\"");
}

#[test]
fn render_unfolds_request_and_response_around_a_module() {
    let mut raw = step(Some("A"));
    raw.params = Some(number(1));
    raw.payload = Some(Payload { request: Some(text("R")), response: Some(text("S")) });
    raw.reference = Some("a".to_string());
    raw.producer = Some(true);
    raw.attach = Some("b".to_string());
    let normal = render(config(vec![raw])).ok().unwrap();
    assert_eq!(
        shapes(&normal),
        vec![
            "use=Some(\"payload\") params={\"request\":\"R\"} payload=- ref=Some(\"a\") producer=Some(true) attach=None",
            "use=Some(\"A\") params=1 payload=- ref=None producer=None attach=None",
            "use=Some(\"payload\") params={\"response\":\"S\"} payload=- ref=None producer=None attach=Some(\"b\")",
        ]
    );
    assert_eq!(normal.version, Some("test".to_string()));
    assert_eq!(normal.modules.as_ref().unwrap().len(), 1);
}

#[test]
fn render_unfolds_a_request_alone() {
    let mut raw = step(Some("A"));
    raw.payload = Some(Payload { request: Some(text("R")), response: None });
    raw.reference = Some("a".to_string());
    raw.producer = Some(false);
    raw.attach = Some("b".to_string());
    let normal = render(config(vec![raw])).ok().unwrap();
    assert_eq!(
        shapes(&normal),
        vec![
            "use=Some(\"payload\") params={\"request\":\"R\"} payload=- ref=Some(\"a\") producer=Some(false) attach=None",
            "use=Some(\"A\") params=- payload=- ref=None producer=None attach=Some(\"b\")",
        ]
    );
}

#[test]
fn render_unfolds_a_response_alone() {
    let mut raw = step(Some("A"));
    raw.payload = Some(Payload { request: None, response: Some(text("S")) });
    raw.reference = Some("a".to_string());
    raw.producer = Some(true);
    raw.attach = Some("b".to_string());
    let normal = render(config(vec![raw])).ok().unwrap();
    assert_eq!(
        shapes(&normal),
        vec![
            "use=Some(\"A\") params=- payload=- ref=None producer=None attach=None",
            "use=Some(\"payload\") params={\"response\":\"S\"} payload=- ref=None producer=None attach=Some(\"b\")",
        ]
    );
}

#[test]
fn render_keeps_the_simple_shapes() {
    let mut explicit = step(Some("payload"));
    explicit.params = Some(number(1));
    explicit.payload = Some(Payload { request: Some(text("R")), response: None });
    explicit.reference = Some("first".to_string());
    let mut bare = step(None);
    bare.params = Some(number(2));
    bare.attach = Some("first".to_string());
    let mut inline = step(None);
    inline.params = Some(number(3));
    inline.payload = Some(Payload { request: Some(text("R")), response: Some(text("S")) });
    let mut plain = step(Some("A"));
    plain.params = Some(number(4));
    plain.producer = Some(true);
    let mut hollow = step(Some("A"));
    hollow.params = Some(Json::Object(vec![carbon::json::Member { name: "k".to_string(), value: number(1) }]));
    hollow.payload = Some(Payload { request: None, response: None });
    hollow.reference = Some("r".to_string());
    hollow.attach = Some("t".to_string());
    let normal = render(config(vec![explicit, bare, inline, plain, hollow])).ok().unwrap();
    assert_eq!(
        shapes(&normal),
        vec![
            "use=Some(\"payload\") params=1 payload=- ref=Some(\"first\") producer=None attach=None",
            "use=Some(\"payload\") params=2 payload=- ref=None producer=None attach=Some(\"first\")",
            "use=Some(\"payload\") params={\"request\":\"R\",\"response\":\"S\"} payload=- ref=None producer=None attach=None",
            "use=Some(\"A\") params=4 payload=- ref=None producer=Some(true) attach=None",
            "use=Some(\"A\") params={\"k\":1} payload=- ref=Some(\"r\") producer=None attach=Some(\"t\")",
        ]
    );
}

#[test]
fn render_loses_no_step() {
    let mut hollow = step(Some("A"));
    hollow.payload = Some(Payload { request: None, response: None });
    let normal = render(config(vec![hollow])).ok().unwrap();
    assert_eq!(
        shapes(&normal),
        vec!["use=Some(\"A\") params=- payload=- ref=None producer=None attach=None"]
    );
    let mut bare = step(None);
    bare.payload = Some(Payload { request: None, response: None });
    let normal = render(config(vec![bare, step(None), step(Some("payload"))])).ok().unwrap();
    assert_eq!(normal.pipeline.len(), 3);
}

#[test]
fn render_of_nothing_is_nothing() {
    let normal = render(config(vec![])).ok().unwrap();
    assert!(normal.pipeline.is_empty());
}

#[test]
fn render_twice_is_render_once() {
    let mut around = step(Some("A"));
    around.payload = Some(Payload { request: Some(text("R")), response: Some(text("S")) });
    around.reference = Some("a".to_string());
    let mut inline = step(None);
    inline.payload = Some(Payload { request: None, response: Some(number(7)) });
    let mut explicit = step(Some("payload"));
    explicit.payload = Some(Payload { request: Some(text("R")), response: None });
    let once = render(config(vec![around, inline, explicit, step(None), step(Some("B"))]))
        .ok()
        .unwrap();
    let again = Co2 {
        version: once.version.clone(),
        modules: None,
        pipeline: once.pipeline.iter().map(copy).collect(),
    };
    let twice = render(again).ok().unwrap();
    assert_eq!(shapes(&twice), shapes(&once));
    assert_eq!(once.pipeline.len(), 7);
    assert!(twice.pipeline.iter().all(|s| s.payload.is_none() && s.module.is_some()));
}
