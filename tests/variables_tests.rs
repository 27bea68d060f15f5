use dbug::variables::{ChangeStatus, Variable, VariableInspector, VariableValue};

#[test]
fn scalar_rendering() {
    assert_eq!(VariableValue::Integer(-42).to_string(), "-42");
    assert_eq!(VariableValue::Integer(i64::MIN).to_string(), "-9223372036854775808");
    assert_eq!(VariableValue::Boolean(true).to_string(), "true");
    assert_eq!(VariableValue::String("hi".to_string()).to_string(), "\"hi\"");
    assert_eq!(VariableValue::Char('z').to_string(), "'z'");
    assert_eq!(VariableValue::Float("2.5".to_string()).to_string(), "2.5");
    assert_eq!(VariableValue::Null.to_string(), "null");
    assert_eq!(VariableValue::Option(None).to_string(), "None");
    assert_eq!(
        VariableValue::Reference(Box::new(VariableValue::Integer(1))).to_string(),
        "&1"
    );
}

#[test]
fn nested_rendering_is_cut_at_depth() {
    let v = VariableValue::Array(vec![VariableValue::Array(vec![VariableValue::Array(vec![
        VariableValue::Array(vec![VariableValue::Integer(1), VariableValue::Integer(2)]),
    ])])]);
    assert_eq!(v.to_string(), "[[[[...(2)]]]]");
    let s = VariableValue::Struct(vec![("a".to_string(), VariableValue::Integer(1))]);
    assert_eq!(s.to_string(), "{a: 1}");
}

#[test]
fn long_vec_is_cut() {
    let elems: Vec<VariableValue> = (0..13).map(VariableValue::Integer).collect();
    let v = VariableValue::new_vec(elems, 16);
    assert_eq!(
        v.to_string(),
        "Vec (len: 13, capacity: 16) [0, 1, 2, 3, 4, 5, 6, 7, 8, 9, ... (3 more)]"
    );
    let short: Vec<VariableValue> = (0..12).map(VariableValue::Integer).collect();
    let w = VariableValue::new_vec(short, 12);
    assert_eq!(
        w.to_string(),
        "Vec (len: 12, capacity: 12) [0, 1, 2, 3, 4, 5, 6, 7, 8, 9, 10, 11]"
    );
}

#[test]
fn map_and_complex_rendering() {
    let m = VariableValue::new_hashmap(
        vec![(VariableValue::String("k".to_string()), VariableValue::Integer(1))],
        3,
    );
    assert_eq!(m.to_string(), "HashMap (size: 1, capacity: 3) {\"k\": 1}");
    let c = VariableValue::new_complex(
        "Rc",
        "strong=1",
        vec![("v".to_string(), VariableValue::Integer(2))],
        Some(vec![VariableValue::Boolean(false)]),
    );
    assert_eq!(c.to_string(), "Rc{ strong=1 } {v: 2} [false]");
}

#[test]
fn registry_updates_and_change_tracking() {
    let mut v = VariableInspector::new();
    v.register_variable(Variable::new("a", "i64", VariableValue::Integer(1), 0, false));
    v.register_variable(Variable::new("b", "i64", VariableValue::Integer(2), 0, true));
    // an immutable variable set to an equal value stays as it is
    v.update_variable("a", VariableValue::Integer(1)).unwrap();
    assert_eq!(v.get_variable("a").unwrap().change_status, ChangeStatus::New);
    v.update_variable("b", VariableValue::Integer(3)).unwrap();
    let b = v.get_variable("b").unwrap();
    assert_eq!(b.change_status, ChangeStatus::Modified);
    assert!(matches!(b.previous_value, Some(VariableValue::Integer(2))));
    let err = v.update_variable("zzz", VariableValue::Null).unwrap_err();
    assert_eq!(err, "Variable zzz not found");
    let changed = v.get_changed_variables();
    assert_eq!(changed.len(), 1);
    assert_eq!(changed[0].name, "b");
    assert!(v.get_changed_variables().is_empty());
    v.reset_change_status();
    assert!(!v.get_variable("b").unwrap().has_changed());
}

#[test]
fn scopes() {
    let mut v = VariableInspector::new();
    v.enter_scope();
    v.register_variable(Variable::new("inner", "i64", VariableValue::Integer(1), 1, false));
    v.register_variable(Variable::new("outer", "i64", VariableValue::Integer(1), 0, false));
    v.exit_scope();
    assert!(v.get_variable("inner").is_none());
    assert!(v.get_variable("outer").is_some());
    v.exit_scope();
    assert_eq!(v.get_all_variables().len(), 0);
}
