use dbug::runtime::DebuggerRuntime;
use dbug::variables::{Variable, VariableValue};
use dbug::visualizer::{builtin_visualization, string_visualization, TypeVisualizer, VisualizerKind};

#[test]
fn string_view_lists_special_characters() {
    let s = "a\tb\u{e9}".to_string();
    assert_eq!(
        string_visualization(&s),
        "String (length: 5)\nContents: \"a\tb\u{e9}\"\nSpecial characters:\n  [1]: '\\u{9}' (Unicode: U+0009)\n  [3]: '\\u{e9}' (Unicode: U+00E9)"
    );
    assert_eq!(string_visualization(&String::new()), "String (length: 0)");
    assert_eq!(string_visualization(&"ok".to_string()), "String (length: 2)\nContents: \"ok\"");
}

#[test]
fn builtin_views() {
    let v = VariableValue::new_vec(vec![VariableValue::Integer(1)], 2);
    assert_eq!(
        builtin_visualization(VisualizerKind::VecView, &v).unwrap(),
        "Vec<_> (length: 1, capacity: 2)\nContents:\n  [0]: 1"
    );
    assert!(builtin_visualization(VisualizerKind::OptionView, &v).is_none());
    let o = VariableValue::Option(Some(Box::new(VariableValue::Boolean(true))));
    assert_eq!(builtin_visualization(VisualizerKind::OptionView, &o).unwrap(), "Some(true)");
    let r = VariableValue::new_complex(
        "Result",
        "Err",
        vec![("Err".to_string(), VariableValue::String("bad".to_string()))],
        None,
    );
    assert_eq!(builtin_visualization(VisualizerKind::ResultView, &r).unwrap(), "Err(\"bad\")");
    let m = VariableValue::new_hashmap(vec![(VariableValue::Integer(1), VariableValue::Char('x'))], 4);
    assert_eq!(
        builtin_visualization(VisualizerKind::HashMapView, &m).unwrap(),
        "HashMap (size: 1, capacity: 4)\nEntries:\n  0: 1 => 'x'"
    );
}

#[test]
fn composite_views() {
    let tv = TypeVisualizer::with_default_visualizers();
    assert!(tv.has_visualizer("Vec"));
    assert!(!tv.has_visualizer("Point"));
    let p = Variable::new(
        "p",
        "Point",
        VariableValue::Struct(vec![
            ("x".to_string(), VariableValue::Integer(1)),
            ("y".to_string(), VariableValue::Integer(2)),
        ]),
        0,
        false,
    );
    assert_eq!(tv.create_composite_visualization("Point", &p, 0), "Point {\n  x: 1\n  y: 2\n}");
    assert_eq!(tv.create_composite_visualization("Point", &p, 6), "Point... (max depth reached)");
    let n = Variable::new("n", "u8", VariableValue::Integer(7), 0, false);
    assert_eq!(tv.create_composite_visualization("u8", &n, 0), "u8 = 7");
    let mut empty = TypeVisualizer::new();
    assert!(!empty.has_visualizer("Vec"));
    empty.register_visualizer("Stack", VisualizerKind::VecView);
    assert!(empty.has_visualizer("Stack"));
}

#[test]
fn runtime_visualizes_variables() {
    let mut rt = DebuggerRuntime::new();
    rt.register_variable(Variable::new("s", "String", VariableValue::String("hi".to_string()), 0, false));
    rt.register_variable(Variable::new("k", "i32", VariableValue::Integer(3), 0, false));
    rt.register_variable(Variable::new("bad", "Vec", VariableValue::Integer(3), 0, false));
    assert_eq!(rt.visualize_variable("s").unwrap(), "String (length: 2)\nContents: \"hi\"");
    assert_eq!(rt.visualize_variable("k").unwrap(), "i32 = 3");
    assert!(rt.visualize_variable("bad").is_none());
    assert!(rt.visualize_variable("missing").is_none());
    rt.register_type_visualizer("i32", VisualizerKind::OptionView);
    assert!(rt.visualize_variable("k").is_none());
}
