use mikrozen::{not_found, response, Decimal, Input, Number, Output, Router, RouterInput, Value};
use rust_decimal::prelude::FromPrimitive;

fn field<'a>(out: &'a Value, key: &str) -> &'a Value {
    match out {
        Value::Object(fields) => {
            for (k, v) in fields {
                if k == key {
                    return v;
                }
            }
            panic!("no field {}", key)
        }
        _ => panic!("not an object"),
    }
}

fn text(s: &str) -> Value {
    Value::String(s.to_string())
}

fn hello(args: Input) -> Output {
    let name = args.get_str("name");
    response(vec![
        ("message".to_string(), Value::String(format!("Hello, {}", name))),
        ("success".to_string(), Value::Bool(true)),
    ])
}

fn hello_router() -> Router<fn(RouterInput) -> Value> {
    Router::new(vec![("hello".to_string(), hello as fn(RouterInput) -> Value)])
}

fn float_to_decimal(n: Number) -> Option<Decimal> {
    let f = match n {
        Number::PosInt(u) => u as f64,
        Number::NegInt(i) => i as f64,
        Number::Float(bits) => f64::from_bits(bits),
    };
    rust_decimal::Decimal::from_f64(f).map(|d| Decimal { mantissa: d.mantissa(), scale: d.scale() })
}

#[test]
fn test_hello_route() {
    let map = vec![("name".to_string(), text("World"))];
    let input = RouterInput::new(map);
    let out = hello_router().dispatch("hello", input);
    assert_eq!(field(&out, "message"), &text("Hello, World"));
    assert_eq!(field(&out, "success"), &Value::Bool(true));
}

#[test]
fn test_missing_route() {
    let input = RouterInput::new(Vec::new());
    let out = hello_router().dispatch("missing", input);
    assert_eq!(field(&out, "success"), &Value::Bool(false));
    match field(&out, "error") {
        Value::String(s) => assert!(s.contains("Route not found")),
        _ => panic!("error is not a string"),
    }
}

#[test]
fn missing_route_response_is_exact() {
    let out = hello_router().dispatch("missing", RouterInput::new(Vec::new()));
    let expected = Value::Object(vec![
        ("error".to_string(), text("Route not found: missing")),
        ("success".to_string(), Value::Bool(false)),
    ]);
    assert_eq!(out, expected);
    assert_eq!(not_found("missing"), expected);
}

#[test]
fn hello_route_output_is_exact() {
    let out = hello_router().dispatch("hello", RouterInput::new(vec![("name".to_string(), text("World"))]));
    let expected = Value::Object(vec![
        ("message".to_string(), text("Hello, World")),
        ("success".to_string(), Value::Bool(true)),
    ]);
    assert_eq!(out, expected);
}

#[test]
fn route_match_is_case_sensitive_and_whole() {
    for key in ["Hello", "hell", "hello ", ""] {
        let out = hello_router().dispatch(key, RouterInput::new(Vec::new()));
        assert_eq!(field(&out, "error"), &text(&format!("Route not found: {}", key)));
        assert_eq!(field(&out, "success"), &Value::Bool(false));
    }
}

fn bye(_args: Input) -> Output {
    response(vec![("bye".to_string(), Value::Bool(true))])
}

#[test]
fn each_route_reaches_its_own_handler() {
    let router = Router::new(vec![
        ("hello".to_string(), hello as fn(RouterInput) -> Value),
        ("bye".to_string(), bye as fn(RouterInput) -> Value),
    ]);
    assert_eq!(router.find("hello"), Some(0));
    assert_eq!(router.find("bye"), Some(1));
    assert_eq!(router.find("nope"), None);
    let out = router.dispatch("bye", RouterInput::new(Vec::new()));
    assert_eq!(out, bye(RouterInput::new(Vec::new())));
}

#[test]
fn dispatch_twice_gives_equal_outputs() {
    let make = || RouterInput::new(vec![("name".to_string(), text("Ada"))]);
    let router = hello_router();
    assert_eq!(router.dispatch("hello", make()), router.dispatch("hello", make()));
    assert_eq!(router.dispatch("other", make()), router.dispatch("other", make()));
}

#[test]
fn type_mismatch_gives_defaults() {
    let input = RouterInput::new(vec![("name".to_string(), text("World"))]);
    assert_eq!(input.get_i64("name"), 0);
    assert!(!input.get_bool("name"));
    assert_eq!(input.get_str("name"), "World");
    assert!(input.get_array("name").is_empty());
    assert!(input.get_object("name").is_empty());
}

#[test]
fn absent_key_gives_defaults() {
    let input = RouterInput::new(vec![("name".to_string(), text("World"))]);
    assert_eq!(input.get_i64("age"), 0);
    assert!(!input.get_bool("age"));
    assert_eq!(input.get_str("age"), "");
    assert!(input.get_array("age").is_empty());
    assert!(input.get_object("age").is_empty());
    assert!(input.get_value("age").is_none());
    assert!(!input.has("age"));
    assert_eq!(input.get_decimal("age", float_to_decimal), Decimal { mantissa: 0, scale: 0 });
}

#[test]
fn typed_fields_are_read() {
    let input = RouterInput::new(vec![
        ("n".to_string(), Value::Number(Number::NegInt(-42))),
        ("p".to_string(), Value::Number(Number::PosInt(7))),
        ("big".to_string(), Value::Number(Number::PosInt(u64::MAX))),
        ("f".to_string(), Value::Number(Number::Float(1.5f64.to_bits()))),
        ("b".to_string(), Value::Bool(true)),
        ("a".to_string(), Value::Array(vec![Value::Null, Value::Bool(false)])),
        ("o".to_string(), Value::Object(vec![("k".to_string(), text("v"))])),
        ("z".to_string(), Value::Null),
    ]);
    assert_eq!(input.get_i64("n"), -42);
    assert_eq!(input.get_i64("p"), 7);
    assert_eq!(input.get_i64("big"), 0);
    assert_eq!(input.get_i64("f"), 0);
    assert!(input.get_bool("b"));
    assert_eq!(input.get_array("a"), &[Value::Null, Value::Bool(false)][..]);
    assert_eq!(input.get_object("o").len(), 1);
    assert_eq!(input.get_object("o")[0].0, "k");
    assert_eq!(input.get_object("o")[0].1, text("v"));
    assert!(input.has("z"));
    assert_eq!(input.get_value("z"), Some(&Value::Null));
    assert_eq!(input.get_str("z"), "");
    assert_eq!(input.raw().len(), 8);
}

#[test]
fn i64_boundaries() {
    let input = RouterInput::new(vec![
        ("max".to_string(), Value::Number(Number::PosInt(i64::MAX as u64))),
        ("over".to_string(), Value::Number(Number::PosInt(i64::MAX as u64 + 1))),
        ("min".to_string(), Value::Number(Number::NegInt(i64::MIN))),
    ]);
    assert_eq!(input.get_i64("max"), i64::MAX);
    assert_eq!(input.get_i64("over"), 0);
    assert_eq!(input.get_i64("min"), i64::MIN);
}

#[test]
fn decimal_from_string_field() {
    let input = RouterInput::new(vec![
        ("price".to_string(), text("12.50")),
        ("neg".to_string(), text("-3")),
        ("bad".to_string(), text("twelve")),
        ("flag".to_string(), Value::Bool(true)),
    ]);
    assert_eq!(input.get_decimal("price", float_to_decimal), Decimal { mantissa: 1250, scale: 2 });
    assert_eq!(input.get_decimal("neg", float_to_decimal), Decimal { mantissa: -3, scale: 0 });
    assert_eq!(input.get_decimal("bad", float_to_decimal), Decimal { mantissa: 0, scale: 0 });
    assert_eq!(input.get_decimal("flag", float_to_decimal), Decimal { mantissa: 0, scale: 0 });
}

#[test]
fn decimal_from_number_field() {
    let input = RouterInput::new(vec![
        ("price".to_string(), Value::Number(Number::Float(100.0f64.to_bits()))),
        ("count".to_string(), Value::Number(Number::PosInt(5))),
        ("inf".to_string(), Value::Number(Number::Float(f64::INFINITY.to_bits()))),
    ]);
    let price = input.get_decimal("price", float_to_decimal);
    assert_eq!(rust_decimal::Decimal::from_i128_with_scale(price.mantissa, price.scale).to_string(), "100");
    assert_eq!(input.get_decimal("count", float_to_decimal), Decimal { mantissa: 5, scale: 0 });
    assert_eq!(input.get_decimal("inf", float_to_decimal), Decimal { mantissa: 0, scale: 0 });
}

#[test]
fn parse_decimal_reads_literals() {
    assert_eq!(mikrozen::decimal::parse_decimal("0.001"), Decimal { mantissa: 1, scale: 3 });
    assert_eq!(mikrozen::decimal::parse_decimal(""), Decimal { mantissa: 0, scale: 0 });
    assert_eq!(Decimal::zero(), Decimal { mantissa: 0, scale: 0 });
}

#[test]
fn response_keeps_fields_in_order() {
    let out = response(vec![("b".to_string(), Value::Bool(true)), ("a".to_string(), Value::Null)]);
    assert_eq!(out, Value::Object(vec![("b".to_string(), Value::Bool(true)), ("a".to_string(), Value::Null)]));
}

#[test]
fn value_conversions() {
    assert_eq!(Value::Number(Number::PosInt(3)).as_i64(), Some(3));
    assert_eq!(Value::Bool(true).as_i64(), None);
    assert_eq!(Value::Bool(true).as_bool(), Some(true));
    assert_eq!(text("x").as_str(), Some("x"));
    assert_eq!(Value::Null.as_array(), None);
    assert_eq!(Value::Array(Vec::new()).as_array().map(|a| a.len()), Some(0));
    assert_eq!(Value::Object(Vec::new()).as_object().map(|o| o.len()), Some(0));
    assert_eq!(Number::NegInt(-1).as_i64(), Some(-1));
}
