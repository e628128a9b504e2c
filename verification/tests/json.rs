use carbon::json::find_member;
use carbon::json::Json;
use carbon::json::Member;
use carbon::json::Number;
use carbon::json::set_member;
use carbon::modules::Config;

fn to_json(value: &serde_json::Value) -> Json {
    match value {
        serde_json::Value::Null => Json::Null,
        serde_json::Value::Bool(b) => Json::Bool(*b),
        serde_json::Value::Number(n) => {
            if let Some(u) = n.as_u64() {
                Json::Number(Number::PosInt(u))
            } else if let Some(i) = n.as_i64() {
                Json::Number(Number::NegInt(i))
            } else {
                Json::Number(Number::Float(n.to_string()))
            }
        }
        serde_json::Value::String(s) => Json::Text(s.clone()),
        serde_json::Value::Array(items) => Json::List(items.iter().map(to_json).collect()),
        serde_json::Value::Object(members) => Json::Object(
            members
                .iter()
                .map(|(name, value)| Member { name: name.clone(), value: to_json(value) })
                .collect(),
        ),
    }
}

fn j(text: &str) -> Json {
    to_json(&serde_json::from_str::<serde_json::Value>(text).unwrap())
}

fn same_text_as_serde(text: &str) {
    let value: serde_json::Value = serde_json::from_str(text).unwrap();
    assert_eq!(to_json(&value).to_text(), value.to_string());
}

#[test]
fn text_of_scalars() {
    assert_eq!(Json::Null.to_text(), "null");
    assert_eq!(Json::Bool(true).to_text(), "true");
    assert_eq!(Json::Bool(false).to_text(), "false");
    assert_eq!(Json::Number(Number::PosInt(0)).to_text(), "0");
    assert_eq!(Json::Number(Number::PosInt(u64::MAX)).to_text(), "18446744073709551615");
    assert_eq!(Json::Number(Number::NegInt(-1)).to_text(), "-1");
    assert_eq!(Json::Number(Number::NegInt(i64::MIN)).to_text(), "-9223372036854775808");
    assert_eq!(Json::Number(Number::Float("2.5".to_string())).to_text(), "2.5");
    assert_eq!(Json::Text("plain".to_string()).to_text(), "\"plain\"");
}

#[test]
fn text_escapes_as_a_document_does() {
    let text = Json::Text("a\"b\\c\nd\te\rf\u{8}g\u{c}h\u{1}i\u{1f}j\u{7f}k/é".to_string());
    assert_eq!(
        text.to_text(),
        "\"a\\\"b\\\\c\\nd\\te\\rf\\bg\\fh\\u0001i\\u001fj\u{7f}k/é\""
    );
    let value = serde_json::Value::String("a\"b\\c\nd\te\rf\u{8}g\u{c}h\u{1}i\u{1f}j\u{7f}k/é".to_string());
    assert_eq!(text.to_text(), value.to_string());
}

#[test]
fn text_of_lists_and_objects_agrees_with_serde() {
    same_text_as_serde("[]");
    same_text_as_serde("{}");
    same_text_as_serde("[1]");
    same_text_as_serde("[1,-2,3.5,\"four\",null,true,[],{}]");
    same_text_as_serde("{\"a\":{\"b\":[{\"c\":\"d\\\"e\"}]},\"z\":-7}");
    same_text_as_serde("{\"value\":\"{{ products.0.price }}\"}");
}

#[test]
fn same_compares_deeply() {
    assert!(j("{\"a\":[1,2,{\"b\":null}]}").same(&j("{\"a\":[1,2,{\"b\":null}]}")));
    assert!(!j("{\"a\":[1,2,{\"b\":null}]}").same(&j("{\"a\":[1,2,{\"b\":false}]}")));
    assert!(!j("[1,2]").same(&j("[1,2,3]")));
    assert!(!j("1").same(&j("\"1\"")));
    assert!(!j("1").same(&j("-1")));
    assert!(j("\"x\"").same(&j("\"x\"")));
    assert!(!j("{\"a\":1}").same(&j("{\"b\":1}")));
    assert!(Json::Null.same(&Json::Null));
}

#[test]
fn same_does_not_go_by_the_order_of_members() {
    let member = |name: &str, value: Json| Member { name: name.to_string(), value };
    let one = Json::Object(vec![member("a", j("1")), member("b", j("[2,{\"c\":3,\"d\":4}]"))]);
    let two = Json::Object(vec![
        member("b", Json::List(vec![j("2"), Json::Object(vec![member("d", j("4")), member("c", j("3"))])])),
        member("a", j("1")),
    ]);
    assert!(one.same(&two));
    assert!(two.same(&one));
    let twice = Json::Object(vec![member("a", j("9")), member("b", j("[2,{\"c\":3,\"d\":4}]")), member("a", j("1"))]);
    assert!(twice.same(&one));
    assert!(one.same(&twice));
    let other = Json::Object(vec![member("a", j("1")), member("b", j("[{\"c\":3,\"d\":4},2]"))]);
    assert!(!one.same(&other));
    let more = Json::Object(vec![member("a", j("1")), member("b", j("[2,{\"c\":3,\"d\":4}]")), member("e", Json::Null)]);
    assert!(!one.same(&more));
    assert!(!more.same(&one));
    assert!(Json::Number(Number::PosInt(5)).same(&Json::Number(Number::NegInt(5))));
    assert!(!Json::Number(Number::PosInt(5)).same(&Json::Number(Number::NegInt(-5))));
    assert!(!Json::Number(Number::PosInt(5)).same(&Json::Number(Number::Float("5.0".to_string()))));
    for text in ["{\"b\":1,\"a\":[1,2]}", "[{\"x\":null},{\"y\":{\"z\":true}}]", "2.5", "\"t\""] {
        let left: serde_json::Value = serde_json::from_str(text).unwrap();
        for other in ["{\"a\":[1,2],\"b\":1}", "{\"a\":[2,1],\"b\":1}", "[{\"x\":null},{\"y\":{\"z\":true}}]", "2.5", "2.50", "\"t\"", "null"] {
            let right: serde_json::Value = serde_json::from_str(other).unwrap();
            assert_eq!(to_json(&left).same(&to_json(&right)), left == right);
        }
    }
}

#[test]
fn duplicate_is_the_same_value() {
    let value = j("{\"a\":[1,-2,3.5,\"x\",{\"b\":[true,null]}]}");
    let copy = value.duplicate();
    assert!(copy.same(&value));
    assert_eq!(copy.to_text(), value.to_text());
}

#[test]
fn get_finds_the_last_member_of_a_name() {
    let value = j("{\"a\":1,\"b\":\"two\"}");
    assert!(value.get("a").unwrap().same(&j("1")));
    assert_eq!(value.get("b").unwrap().as_str(), Some("two"));
    assert!(value.get("c").is_none());
    assert!(j("[1]").get("a").is_none());
    let members = vec![
        Member { name: "k".to_string(), value: Json::Bool(true) },
        Member { name: "k".to_string(), value: Json::Bool(false) },
    ];
    assert!(find_member(&members, "k").unwrap().same(&Json::Bool(false)));
    assert_eq!(Json::Object(members).to_text(), "{\"k\":false}");
    let merged = carbon::json::merge_members(vec![
        Member { name: "b".to_string(), value: j("1") },
        Member { name: "a".to_string(), value: j("2") },
        Member { name: "b".to_string(), value: j("3") },
    ]);
    let names: Vec<String> = merged.iter().map(|m| m.name.clone()).collect();
    assert_eq!(names, vec!["b", "a"]);
    assert!(merged[0].value.same(&j("3")));
}

#[test]
fn numbers_read_as_integers_where_they_fit() {
    assert_eq!(j("5").as_u64(), Some(5));
    assert_eq!(j("5").as_i64(), Some(5));
    assert_eq!(j("-5").as_u64(), None);
    assert_eq!(j("-5").as_i64(), Some(-5));
    assert_eq!(j("18446744073709551615").as_u64(), Some(u64::MAX));
    assert_eq!(j("18446744073709551615").as_i64(), None);
    assert_eq!(j("9223372036854775807").as_i64(), Some(i64::MAX));
    assert_eq!(j("2.5").as_i64(), None);
    assert_eq!(j("2.5").as_u64(), None);
    assert_eq!(j("\"5\"").as_u64(), None);
}

#[test]
fn kinds_are_told_apart() {
    assert!(j("{}").as_object().is_some());
    assert!(j("[]").as_object().is_none());
    assert!(j("[]").as_array().is_some());
    assert!(j("{}").as_array().is_none());
    assert!(j("\"\"").as_str().is_some());
    assert!(j("null").as_str().is_none());
}

#[test]
fn set_member_overwrites_in_place() {
    let mut members: Vec<Member> = Vec::new();
    set_member(&mut members, Member { name: "a".to_string(), value: j("1") });
    set_member(&mut members, Member { name: "b".to_string(), value: j("2") });
    set_member(&mut members, Member { name: "a".to_string(), value: j("3") });
    assert_eq!(Json::Object(members).to_text(), "{\"a\":3,\"b\":2}");
}

#[test]
fn params_object_and_string() {
    let config = |params: Option<Json>| Config {
        reference: "test".to_string(),
        params,
        producer: None,
        default_attach: None,
    };
    let members = config(Some(j("{\"a\":1,\"b\":[2]}"))).get_params_object();
    assert_eq!(Json::Object(members).to_text(), "{\"a\":1,\"b\":[2]}");
    assert!(config(Some(j("[1]"))).get_params_object().is_empty());
    assert!(config(None).get_params_object().is_empty());
    assert_eq!(config(Some(j("\"text\""))).get_params_string(), "text");
    assert_eq!(config(Some(j("1"))).get_params_string(), "");
    assert_eq!(config(None).get_params_string(), "");
}
