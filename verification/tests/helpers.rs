use carbon::handlebars_helpers::add_integers;
use carbon::handlebars_helpers::Calc;
use carbon::handlebars_helpers::CalcError;
use carbon::handlebars_helpers::clear_captures;
use carbon::handlebars_helpers::divide_integers;
use carbon::handlebars_helpers::eq;
use carbon::handlebars_helpers::hex;
use carbon::handlebars_helpers::multiply_integers;
use carbon::handlebars_helpers::NumberLiteral;
use carbon::handlebars_helpers::resolve;
use carbon::handlebars_helpers::substitute;
use carbon::handlebars_helpers::subtract_integers;
use carbon::handlebars_helpers::syntax_clear;
use carbon::handlebars_helpers::syntax_clear_new;
use carbon::handlebars_helpers::syntax_transform;
use carbon::handlebars_helpers::syntax_transform_new;
use carbon::handlebars_helpers::syntax_wrapper;
use carbon::handlebars_helpers::to_string;
use carbon::handlebars_helpers::ToNumber;
use carbon::handlebars_helpers::transform_captures;
use carbon::handlebars_helpers::Variable;
use carbon::json::Json;
use carbon::json::Number;
use carbon::scan::Capture;

fn variable(name: &str, value: &str) -> Variable {
    Variable { name: name.to_string(), value: value.to_string() }
}

fn text(t: &str) -> Json {
    Json::Text(t.to_string())
}

#[test]
fn test_syntax_transform() {
    assert_eq!(syntax_transform("{{ item }}"), "{{ item }}".to_string());
}

#[test]
fn test_syntax_transform_between() {
    assert_eq!(
        syntax_transform("{{ a }} between {{ b }}"),
        "{{ a }} between {{ b }}".to_string()
    );
}

#[test]
fn equal_match_string() {
    let result = eq(&text("assis"), &text("assis"));
    assert_eq!(&result, &"true".to_string());
}

#[test]
fn eq_does_not_go_by_the_order_of_members() {
    let member = |name: &str, value: Json| carbon::json::Member { name: name.to_string(), value };
    let one = Json::Object(vec![member("a", Json::Bool(true)), member("b", Json::Null)]);
    let two = Json::Object(vec![member("b", Json::Null), member("a", Json::Bool(true))]);
    let three = Json::Object(vec![member("b", Json::Null), member("a", Json::Bool(false))]);
    assert_eq!(eq(&one, &two), "true");
    assert_eq!(eq(&one, &three), "false");
}

#[test]
fn eq_tells_values_apart() {
    assert_eq!(eq(&text("assis"), &text("assi")), "false");
    assert_eq!(eq(&text("1"), &Json::Number(Number::PosInt(1))), "false");
    assert_eq!(eq(&Json::Number(Number::PosInt(1)), &Json::Number(Number::PosInt(1))), "true");
    assert_eq!(eq(&Json::Null, &Json::Null), "true");
    assert_eq!(eq(&Json::Bool(true), &Json::Bool(false)), "false");
}

#[test]
fn transform_new_turns_dollar_expressions_into_braces() {
    assert_eq!(syntax_transform_new("${ a } and ${b}"), "{{ a }} and {{b}}");
    assert_eq!(syntax_transform_new("no expression"), "no expression");
    assert_eq!(syntax_transform_new("${a\nb}"), "{{a\nb}}");
    assert_eq!(syntax_transform_new("{{ a }}"), "{{ a }}");
}

#[test]
fn transform_is_the_same_when_done_again() {
    let once = syntax_transform_new("x ${ a } y ${ b } z ${ a }");
    assert_eq!(once, "x {{ a }} y {{ b }} z {{ a }}");
    assert_eq!(syntax_transform_new(&once), once);
    assert_eq!(syntax_transform(&once), once);
}

#[test]
fn clear_keeps_the_scripts() {
    assert_eq!(syntax_clear("{{num}}"), "num");
    assert_eq!(syntax_clear("\"{{num}}\""), "num");
    assert_eq!(syntax_clear("{{ a }} x {{ b }}"), " a   b ");
    assert_eq!(syntax_clear("plain"), "plain");
    assert_eq!(syntax_clear("\"1\""), "\"1\"");
    assert_eq!(syntax_clear(""), "");
    assert_eq!(syntax_clear("{{}}"), "");
}

#[test]
fn clear_new_keeps_the_scripts() {
    assert_eq!(syntax_clear_new("${a}-${b}"), "a b");
    assert_eq!(syntax_clear_new("{{a}}"), "{{a}}");
    assert_eq!(syntax_clear_new("${ x }"), " x ");
}

#[test]
fn wrapper_puts_braces_around() {
    assert_eq!(syntax_wrapper("x"), "{{x}}");
    assert_eq!(syntax_wrapper(""), "{{}}");
    assert_eq!(syntax_wrapper(" eq a 1 "), "{{ eq a 1 }}");
}

#[test]
fn captures_are_taken_as_given() {
    let capture = |whole: &str, group: Option<&str>| Capture {
        whole: whole.to_string(),
        group: group.map(|g| g.to_string()),
    };
    assert_eq!(
        transform_captures("<a> <b> <a>", &vec![capture("<a>", Some("a")), capture("<b>", None)]),
        "{{a}} {{}} {{a}}"
    );
    assert_eq!(clear_captures("anything", &vec![capture("x", Some("a")), capture("y", Some("b"))]), "a b");
    assert_eq!(clear_captures("anything", &vec![capture("x", None)]), "");
    assert_eq!(clear_captures("anything", &vec![]), "anything");
}

#[test]
fn resolve_writes_literals() {
    assert_eq!(resolve(&text("a")), "\"a\"");
    assert_eq!(resolve(&text("a\"b")), "\"a\"b\"");
    assert_eq!(resolve(&Json::Bool(true)), "true");
    assert_eq!(resolve(&Json::Bool(false)), "false");
    assert_eq!(resolve(&Json::Number(Number::PosInt(5))), "5");
    assert_eq!(resolve(&Json::Number(Number::NegInt(-5))), "-5");
    assert_eq!(resolve(&Json::Number(Number::Float("2.5".to_string()))), "2.5");
    assert_eq!(resolve(&Json::Null), "null");
    assert_eq!(resolve(&Json::List(vec![text("x"), Json::Null])), "[\"x\",null]");
}

#[test]
fn to_string_writes_document_text() {
    assert_eq!(to_string(&text("a\"b")), "\"a\\\"b\"");
    assert_eq!(to_string(&Json::Number(Number::PosInt(1))), "1");
    assert_eq!(to_string(&Json::Bool(true)), "true");
}

#[test]
fn concat_joins_without_separator() {
    assert_eq!(carbon::handlebars_helpers::concat(&vec!["a".to_string(), "".to_string(), "bc".to_string()]), "abc");
    assert_eq!(carbon::handlebars_helpers::concat(&vec![]), "");
}

#[test]
fn hex_writes_lower_case_digits() {
    assert_eq!(hex(0), "0x0");
    assert_eq!(hex(255), "0xff");
    assert_eq!(hex(4096), "0x1000");
    assert_eq!(hex(-1), "0xffffffffffffffff");
    for v in [1i64, 15, 16, 48879, i64::MAX, i64::MIN, -2, -255] {
        assert_eq!(hex(v), format!("0x{:x}", v));
    }
}

#[test]
fn arithmetic_is_checked() {
    assert_eq!(add_integers(2, 3), Some(5));
    assert_eq!(add_integers(i64::MAX, 1), None);
    assert_eq!(subtract_integers(2, 3), Some(-1));
    assert_eq!(subtract_integers(i64::MIN, 1), None);
    assert_eq!(multiply_integers(-4, 5), Some(-20));
    assert_eq!(multiply_integers(i64::MAX, 2), None);
    assert_eq!(divide_integers(7, 2), Some(3));
    assert_eq!(divide_integers(-7, 2), Some(-3));
    assert_eq!(divide_integers(7, -2), Some(-3));
    assert_eq!(divide_integers(-7, -2), Some(3));
    assert_eq!(divide_integers(0, 5), Some(0));
    assert_eq!(divide_integers(1, 0), None);
    assert_eq!(divide_integers(i64::MIN, -1), None);
}

#[test]
fn substitute_goes_in_the_order_given() {
    assert_eq!(substitute("a + b", &vec![variable("a", "1"), variable("b", "2")]), "1 + 2");
    assert_eq!(substitute("ab", &vec![variable("a", "b"), variable("b", "c")]), "cc");
    assert_eq!(substitute("ab", &vec![variable("b", "c"), variable("a", "b")]), "bc");
    assert_eq!(substitute("aaa", &vec![variable("aa", "b")]), "ba");
    assert_eq!(substitute("ab", &vec![variable("", "-")]), "-a-b-");
    assert_eq!(substitute("x", &vec![]), "x");
}

#[test]
fn calc_evaluates_arithmetic() {
    assert!(matches!(Calc::call_inner("1 + 2", &vec![]), Ok(3)));
    assert!(matches!(Calc::call_inner("(2 + 3) * 4", &vec![]), Ok(20)));
    assert!(matches!(Calc::call_inner("n * n", &vec![variable("n", "12")]), Ok(144)));
    assert!(matches!(Calc::call_inner("0 - 5", &vec![]), Ok(-5)));
}

#[test]
fn calc_cuts_a_quotient_down_to_eight() {
    let variables = vec![variable("number", "10"), variable("price", "2.5")];
    assert!(matches!(
        Calc::call_inner("((1.99 + 0.01) * number) / price", &variables),
        Ok(8)
    ));
}

#[test]
fn calc_names_its_failures() {
    assert!(matches!(Calc::call_inner("1 +", &vec![]), Err(CalcError::Evaluation { .. })));
    assert!(matches!(Calc::call_inner("nothing", &vec![]), Err(CalcError::Evaluation { .. })));
    match Calc::call_inner("0.5 + 0.25", &vec![]) {
        Err(CalcError::NotAnInteger { value }) => assert_eq!(value, "0.75"),
        _ => panic!("a fraction is no integer"),
    }
}

#[test]
fn calc_reads_the_answer() {
    assert!(matches!(Calc::read(Ok("42".to_string())), Ok(42)));
    assert!(matches!(Calc::read(Ok("-7".to_string())), Ok(-7)));
    assert!(matches!(Calc::read(Ok("+7".to_string())), Ok(7)));
    assert!(matches!(Calc::read(Ok("9223372036854775807".to_string())), Ok(i64::MAX)));
    assert!(matches!(Calc::read(Ok("-9223372036854775808".to_string())), Ok(i64::MIN)));
    assert!(matches!(
        Calc::read(Ok("9223372036854775808".to_string())),
        Err(CalcError::NotAnInteger { .. })
    ));
    assert!(matches!(Calc::read(Ok("8.0".to_string())), Err(CalcError::NotAnInteger { .. })));
    assert!(matches!(Calc::read(Ok("".to_string())), Err(CalcError::NotAnInteger { .. })));
    match Calc::read(Err("no".to_string())) {
        Err(CalcError::Evaluation { message }) => assert_eq!(message, "no"),
        _ => panic!("a complaint stays a complaint"),
    }
}

#[test]
fn to_number_goes_by_the_point() {
    assert_eq!(ToNumber::call_inner("3.5"), NumberLiteral::Fraction);
    assert_eq!(ToNumber::call_inner("."), NumberLiteral::Fraction);
    assert_eq!(ToNumber::call_inner("42"), NumberLiteral::Integer(42));
    assert_eq!(ToNumber::call_inner("-42"), NumberLiteral::Integer(-42));
    assert_eq!(ToNumber::call_inner("+7"), NumberLiteral::Integer(7));
    assert_eq!(ToNumber::call_inner("007"), NumberLiteral::Integer(7));
    assert_eq!(ToNumber::call_inner("2147483647"), NumberLiteral::Integer(i32::MAX));
    assert_eq!(ToNumber::call_inner("-2147483648"), NumberLiteral::Integer(i32::MIN));
    assert_eq!(ToNumber::call_inner("2147483648"), NumberLiteral::Invalid);
    assert_eq!(ToNumber::call_inner("abc"), NumberLiteral::Invalid);
    assert_eq!(ToNumber::call_inner(""), NumberLiteral::Invalid);
    assert_eq!(ToNumber::call_inner("-"), NumberLiteral::Invalid);
    assert_eq!(ToNumber::call_inner(" 1"), NumberLiteral::Invalid);
    for literal in ["0", "-0", "+0", "12", "-3", "99999999999", "1e3", "٣"] {
        let expected = match literal.parse::<i32>() {
            Ok(n) => NumberLiteral::Integer(n),
            Err(_) => NumberLiteral::Invalid,
        };
        assert_eq!(ToNumber::call_inner(literal), expected);
    }
}

#[test]
fn calc_refuses_what_is_not_plain_arithmetic() {
    let refused = |expr: &str| match Calc::call_inner(expr, &vec![]) {
        Err(CalcError::Evaluation { message }) => {
            message == "the expression holds more than numbers, + - * /, parentheses and blanks"
        }
        _ => false,
    };
    for expr in ["%", "%+", "1%", "5 % 2", "2 ** 3", "2**3", "7 // 2", "7//2", "sqrt(4)", "1e3", "0x10", "1 & 2", "2!", "a", "1\t+\t2", "1,5", "1 # one"] {
        assert!(refused(expr), "{}", expr);
    }
    for expr in ["2 * * 3", "7 / / 2", "1 +", "", " ", "()", ")(", "1.", ".", "..", "1 2", "-", "+", "*", "/", "1/0", "1/0.0", "(1", "1)"] {
        assert!(!refused(expr), "{}", expr);
    }
    assert!(carbon::handlebars_helpers::arithmetic("((1.99 + 0.01) * 10) / 2.5"));
    assert!(!carbon::handlebars_helpers::arithmetic("((1.99 + 0.01) * number) / price"));
    assert!(matches!(
        Calc::call_inner("1/0", &vec![]),
        Err(CalcError::Evaluation { .. })
    ));
    assert!(matches!(Calc::call_inner("-3 * (2 - 5)", &vec![]), Ok(9)));
    assert!(matches!(Calc::call_inner("2(3)", &vec![]), Ok(6)));
}

#[test]
fn calc_answers_every_short_expression() {
    let alphabet: Vec<char> = "01.+-*/() ".chars().collect();
    let mut texts: Vec<String> = vec![String::new()];
    let mut from = 0;
    for _ in 0..4 {
        let upto = texts.len();
        for i in from..upto {
            for c in alphabet.iter() {
                let mut longer = texts[i].clone();
                longer.push(*c);
                texts.push(longer);
            }
        }
        from = upto;
    }
    assert_eq!(texts.len(), 11111);
    let mut values = 0;
    for text in texts.iter() {
        if let Ok(_) = Calc::call_inner(text, &vec![]) {
            values += 1;
        }
    }
    assert!(values > 0);
}

#[test]
fn calc_answers_numbers_beyond_all_bounds() {
    let nines = "9".repeat(400);
    let long = format!("{}.5 * {}.5 * 1.5", nines, nines);
    assert!(matches!(Calc::call_inner(&long, &vec![]), Err(CalcError::NotAnInteger { .. })));
    let tiny = format!("1 / 0.{}1 / 0.{}1", "0".repeat(300), "0".repeat(300));
    assert!(Calc::call_inner(&tiny, &vec![]).is_err());
    let whole = format!("{} * {}", nines, nines);
    assert!(matches!(Calc::call_inner(&whole, &vec![]), Err(CalcError::NotAnInteger { .. })));
    let deep = format!("{}1{}", "(".repeat(2000), ")".repeat(2000));
    assert!(matches!(Calc::call_inner(&deep, &vec![]), Ok(1)));
    let chain = format!("1{}", " + 1".repeat(2000));
    assert!(matches!(Calc::call_inner(&chain, &vec![]), Ok(2001)));
    let cancel = format!("1{}", "/(.1+.2-.3)".repeat(40));
    assert!(Calc::call_inner(&cancel, &vec![]).is_err());
}
