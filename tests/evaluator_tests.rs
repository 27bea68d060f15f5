use dbug::evaluator::{condition_holds, evaluate_expression};
use dbug::variables::{Variable, VariableInspector, VariableValue};

fn inspector() -> VariableInspector {
    let mut v = VariableInspector::new();
    v.register_variable(Variable::new("x", "i64", VariableValue::Integer(4), 0, true));
    v.register_variable(Variable::new("name", "String", VariableValue::String("bob".to_string()), 0, false));
    v.register_variable(Variable::new("flag", "bool", VariableValue::Boolean(false), 0, false));
    v.register_variable(Variable::new(
        "arr",
        "Vec<i64>",
        VariableValue::new_vec(vec![VariableValue::Integer(10), VariableValue::Integer(20)], 4),
        0,
        false,
    ));
    v.register_variable(Variable::new(
        "p",
        "Person",
        VariableValue::Struct(vec![
            ("age".to_string(), VariableValue::Integer(30)),
            (
                "home".to_string(),
                VariableValue::Struct(vec![("city".to_string(), VariableValue::String("Oslo".to_string()))]),
            ),
        ]),
        0,
        false,
    ));
    v
}

fn eval(e: &str) -> Option<String> {
    evaluate_expression(e, &inspector())
}

#[test]
fn arithmetic() {
    assert_eq!(eval("x + 1").as_deref(), Some("5"));
    assert_eq!(eval("x * 3 - 2").as_deref(), Some("10"));
    assert_eq!(eval("10 - 3 - 2").as_deref(), Some("5"));
    assert_eq!(eval("x / 2").as_deref(), Some("2"));
    assert_eq!(eval("x * -2").as_deref(), Some("-8"));
    assert_eq!(eval("x / 0").as_deref(), Some("[Division by zero]"));
    assert_eq!(eval("x / 3"), None);
    assert_eq!(eval("9223372036854775807 + 1"), None);
}

#[test]
fn comparisons_and_logic() {
    assert_eq!(eval("x > 3").as_deref(), Some("true"));
    assert_eq!(eval("x <= 3").as_deref(), Some("false"));
    assert_eq!(eval("x == 4 && flag").as_deref(), Some("false"));
    assert_eq!(eval("x == 4 || flag").as_deref(), Some("true"));
    assert_eq!(eval("name == \"bob\"").as_deref(), Some("true"));
    assert_eq!(eval("name < \"carl\"").as_deref(), Some("true"));
}

#[test]
fn member_and_index_access() {
    assert_eq!(eval("p.age").as_deref(), Some("30"));
    assert_eq!(eval("p.home.city").as_deref(), Some("\"Oslo\""));
    assert_eq!(eval("p.nothing"), None);
    assert_eq!(eval("arr[1]").as_deref(), Some("20"));
    assert_eq!(eval("arr[5]").as_deref(), Some("[Index out of range]"));
}

#[test]
fn unparseable_yields_none() {
    assert_eq!(eval("what is this"), None);
    assert_eq!(eval(""), None);
}

#[test]
fn truthiness() {
    let v = inspector();
    assert!(condition_holds("x", &v));
    assert!(!condition_holds("flag", &v));
    assert!(condition_holds("name", &v));
    assert!(condition_holds("arr", &v));
    assert!(condition_holds("x - 3", &v));
    assert!(!condition_holds("x - 4", &v));
    assert!(!condition_holds("garbage ((", &v));
}

#[test]
fn ordering_only_for_numbers_and_strings() {
    let mut v = inspector();
    v.register_variable(Variable::new("f", "f64", VariableValue::Float("10.5".to_string()), 0, false));
    assert_eq!(evaluate_expression("f < 9", &v), None);
    assert_eq!(evaluate_expression("f != 3", &v).as_deref(), Some("true"));
    assert_eq!(evaluate_expression("name > \"al\"", &v).as_deref(), Some("true"));
}

#[test]
fn named_values_use_truthiness() {
    let mut v = inspector();
    v.register_variable(Variable::new("none", "Option<i64>", VariableValue::Option(None), 0, false));
    v.register_variable(Variable::new("empty", "String", VariableValue::String(String::new()), 0, false));
    assert!(condition_holds("p.home.city", &v));
    assert!(condition_holds("p.home", &v));
    assert!(condition_holds("arr[0]", &v));
    assert!(!condition_holds("arr[9]", &v));
    assert!(!condition_holds("none", &v));
    assert!(!condition_holds("empty", &v));
    assert!(condition_holds("\"text\"", &v));
    assert!(!condition_holds("\"\"", &v));
}
