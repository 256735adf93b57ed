use mock_http_connector::handler::with::json::JsonEq;
use mock_http_connector::{Error, Json, Number};

fn doc(text: &str) -> Json {
    Json::parse(text).unwrap()
}

#[test]
fn json_eq() {
    let list = "[1, 2, 3, \"text\"]";
    let object = "{\"a\": 1, \"b\": 2, \"c\": \"text\"}";
    let nested = "{\"a\": { \"b\": [1, 2], \"c\": \"text\"}, \"d\": [3, 4, 5]}";
    let cases: Vec<(&str, &str, bool)> = vec![
        // Null
        ("null", "null", true),
        ("null", "false", false),
        ("null", "1", false),
        ("null", "\"text\"", false),
        ("null", "[]", false),
        ("null", "{}", false),
        // Bool
        ("true", "null", false),
        ("true", "true", true),
        ("true", "false", false),
        ("true", "1", false),
        ("true", "\"text\"", false),
        ("true", "[]", false),
        ("true", "{}", false),
        // Number
        ("1", "null", false),
        ("1", "true", false),
        ("1", "1", true),
        ("1", "2", false),
        ("1", "\"text\"", false),
        ("1", "[]", false),
        ("1", "{}", false),
        // String
        ("\"text\"", "null", false),
        ("\"text\"", "false", false),
        ("\"text\"", "1", false),
        ("\"text\"", "\"text\"", true),
        ("\"text\"", "\"other text\"", false),
        ("\"text\"", "[]", false),
        ("\"text\"", "{}", false),
        // Array
        (list, "null", false),
        (list, "false", false),
        (list, "1", false),
        (list, "\"text\"", false),
        (list, list, true),
        ("[1, \"text\"]", list, true),
        (list, "[1, \"text\"]", false),
        (list, "[]", false),
        (list, "{}", false),
        // Object
        (object, "null", false),
        (object, "false", false),
        (object, "1", false),
        (object, "\"text\"", false),
        (object, "[]", false),
        (object, "{}", false),
        (object, object, true),
        (object, "{\"a\": 1, \"c\": \"text\"}", false),
        ("{\"a\": 1, \"c\": \"text\"}", object, true),
        // Nested
        (nested, nested, true),
        (nested, "{\"a\": { \"b\": [1], \"c\": \"text\"}, \"d\": [3, 4, 5]}", false),
        (nested, "{\"a\": { \"b\": [1, 2]}, \"d\": [3, 4, 5]}", false),
        (nested, "{\"a\": [1, 2], \"d\": [3, 4, 5]}", false),
        (nested, "{\"a\": { \"b\": [1, 2], \"c\": \"text\"}, \"d\": [3, 5]}", false),
        (
            "{\"a\": { \"b\": [1, 2]}, \"d\": [3, 4, 5]}",
            "{\"a\": { \"b\": [1, 2], \"c\": \"text\"}, \"d\": [3, 5]}",
            false,
        ),
        ("{\"a\": { \"b\": [1, 2], \"c\": \"text\"}, \"d\": [3, 5]}", nested, true),
        ("{\"a\": { \"b\": [1, 2]}, \"d\": [3, 4, 5]}", nested, true),
        ("{\"a\": { \"b\": [1], \"c\": \"text\"}, \"d\": [3, 4, 5]}", nested, true),
        ("{\"a\": { \"b\": [1, 2], \"c\": \"text\"}}", nested, true),
    ];
    for (a, b, expected) in cases {
        assert_eq!(doc(a).json_eq(&doc(b)), expected, "{} in {}", a, b);
    }
}

#[test]
fn containment_goes_one_way() {
    let small = doc("{\"a\":1}");
    let large = doc("{\"a\":1,\"b\":2}");
    assert!(small.is_contained_in(&large));
    assert!(!large.is_contained_in(&small));
}

#[test]
fn exact_equality_goes_both_ways() {
    let a = doc("{\"a\":1,\"b\":[true,null]}");
    let b = doc("{\"b\":[true,null],\"a\":1}");
    let c = doc("{\"a\":1,\"b\":[null,true]}");
    assert!(a.equals(&b));
    assert!(b.equals(&a));
    assert!(!a.equals(&c));
    assert!(!c.equals(&a));
}

#[test]
fn parse_gives_the_parts_of_a_document() {
    let parsed = doc("{\"n\": 3, \"m\": -4, \"x\": 1.5, \"s\": \"t\", \"l\": [true, null]}");
    let built = Json::Object(vec![
        ("l".to_string(), Json::Array(vec![Json::Bool(true), Json::Null])),
        ("m".to_string(), Json::Number(Number::NegInt(-4))),
        ("n".to_string(), Json::Number(Number::PosInt(3))),
        ("s".to_string(), Json::String("t".to_string())),
        ("x".to_string(), Json::Number(Number::Float("1.5".to_string()))),
    ]);
    assert_eq!(parsed, built);
    assert!(parsed.equals(&built));
}

#[test]
fn parse_refuses_what_is_no_json() {
    assert!(matches!(Json::parse("{\"a\":"), Err(Error::Json(_))));
    assert!(matches!(Json::parse(""), Err(Error::Json(_))));
}

#[test]
fn first_member_with_a_key_counts() {
    let twice = Json::Object(vec![
        ("a".to_string(), Json::Number(Number::PosInt(1))),
        ("a".to_string(), Json::Number(Number::PosInt(2))),
    ]);
    assert!(twice.equals(&doc("{\"a\":1}")));
    assert!(!twice.equals(&doc("{\"a\":2}")));
    assert!(doc("{\"a\":1}").is_contained_in(&twice));
    assert_eq!(twice.to_text(), "{\"a\":1}");
}

#[test]
fn numbers_of_different_kinds_differ() {
    assert!(!doc("1").equals(&doc("1.0")));
    assert!(doc("1.0").equals(&doc("1.0")));
    assert!(!doc("-1").equals(&doc("1")));
    assert!(doc("0.0").equals(&doc("-0.0")));
    assert!(Number::PosInt(7).equals(&Number::PosInt(7)));
    assert!(!Number::PosInt(7).equals(&Number::NegInt(-7)));
}

#[test]
fn zero_keeps_its_sign_in_text() {
    assert_eq!(doc("-0.0").to_text(), "-0.0");
    assert_eq!(doc("0.0").to_text(), "0.0");
    assert!(doc("[-0.0]").is_contained_in(&doc("[1, 0.0]")));
}

#[test]
fn to_text_writes_json() {
    assert_eq!(doc("{ \"value\" : 3 }").to_text(), "{\"value\":3}");
    assert_eq!(doc("[1, 2.5, \"a\", null, true, -3]").to_text(), "[1,2.5,\"a\",null,true,-3]");
    let written = doc("{\"b\": {\"c\": [1, {\"d\": \"e\"}]}, \"a\": 10}").to_text();
    assert!(doc(&written).equals(&doc("{\"a\": 10, \"b\": {\"c\": [1, {\"d\": \"e\"}]}}")));
}

#[test]
fn without_repeats_keeps_the_first_member_of_each_key() {
    let number = |n: u64| Json::Number(Number::PosInt(n));
    let twice = Json::Array(vec![Json::Object(vec![
        ("b".to_string(), number(1)),
        ("a".to_string(), Json::Object(vec![
            ("x".to_string(), Json::Null),
            ("x".to_string(), Json::Bool(true)),
        ])),
        ("b".to_string(), number(2)),
        ("a".to_string(), number(3)),
        ("c".to_string(), number(4)),
    ])]);
    let once = Json::Array(vec![Json::Object(vec![
        ("b".to_string(), number(1)),
        ("a".to_string(), Json::Object(vec![("x".to_string(), Json::Null)])),
        ("c".to_string(), number(4)),
    ])]);
    assert_eq!(twice.without_repeats(), once);
    assert_eq!(once.without_repeats(), once);
    assert!(twice.equals(&once));
    assert_eq!(twice.to_text(), "[{\"a\":{\"x\":null},\"b\":1,\"c\":4}]");
    assert_eq!(twice.to_pretty_text(), once.to_pretty_text());
    assert_eq!(doc("{\"a\": [1]}").to_pretty_text(), "{\n  \"a\": [\n    1\n  ]\n}");
}

#[test]
fn exact_equality_is_that_of_serde_json() {
    let texts = [
        "null", "true", "false", "0", "-0", "0.0", "-0.0", "1", "1.0", "-1", "1e2", "100",
        "100.0", "18446744073709551615", "-9223372036854775808", "1.5", "\"a\"", "\"\"",
        "[]", "[1]", "[1, 2]", "[2, 1]", "[[1], {}]", "{}", "{\"a\": 1}", "{\"a\": 1.0}",
        "{\"a\": 1, \"b\": [true]}", "{\"b\": [true], \"a\": 1}", "{\"a\": {\"a\": null}}",
    ];
    for a in texts {
        for b in texts {
            let left: serde_json::Value = serde_json::from_str(a).unwrap();
            let right: serde_json::Value = serde_json::from_str(b).unwrap();
            assert_eq!(doc(a).equals(&doc(b)), left == right, "{} and {}", a, b);
        }
    }
}
