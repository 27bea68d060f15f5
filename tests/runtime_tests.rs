use dbug::breakpoints::{BreakpointConditionMode, HitCountCondition};
use dbug::errors::DbugError;
use dbug::flow_control::{ExecutionState, FlowControl};
use dbug::runtime::DebuggerRuntime;
use dbug::variables::{Variable, VariableValue};

fn int_var(name: &str, v: i64) -> Variable {
    Variable::new(name, "i64", VariableValue::Integer(v), 0, true)
}

#[test]
fn unconditional_breakpoint_breaks_every_time() {
    let mut rt = DebuggerRuntime::new();
    let id = rt.add_breakpoint("a.rs", 10, 0);
    assert!(rt.should_break_at("a.rs", 10, 0));
    assert!(rt.should_break_at("a.rs", 10, 0));
    assert!(rt.should_break_at("a.rs", 10, 0));
    assert_eq!(rt.find_breakpoint_by_id(id).unwrap().hit_count, 3);
    assert!(!rt.should_break_at("a.rs", 11, 0));
    assert!(!rt.should_break_at("b.rs", 10, 0));
}

#[test]
fn breakpoint_ids_strictly_increase() {
    let mut rt = DebuggerRuntime::new();
    let a = rt.add_breakpoint("a.rs", 1, 0);
    let b = rt.add_conditional_breakpoint("a.rs", 2, 0, "x > 1");
    let c = rt.add_hit_count_breakpoint("a.rs", 3, 0, "bogus");
    let d = rt.add_hit_count_breakpoint("a.rs", 4, 0, "= 2").unwrap();
    assert_eq!(a, 1);
    assert_eq!(b, 2);
    assert!(matches!(c, Err(DbugError::CliError(_))));
    assert_eq!(d, 4);
    assert!(a < b && b < d);
    assert_eq!(rt.list_breakpoints().len(), 3);
    assert!(rt.remove_breakpoint(b));
    let e = rt.add_breakpoint("a.rs", 5, 0);
    assert_eq!(e, 5);
    assert!(!rt.remove_breakpoint(b));
}

#[test]
fn hit_count_equals_three_triggers_only_on_third_reach() {
    let mut rt = DebuggerRuntime::new();
    let id = rt.add_hit_count_breakpoint("a.rs", 7, 0, "= 3").unwrap();
    let results: Vec<bool> = (0..5).map(|_| rt.should_break_at("a.rs", 7, 0)).collect();
    assert_eq!(results, vec![false, false, true, false, false]);
    assert_eq!(rt.find_breakpoint_by_id(id).unwrap().hit_count, 5);
}

#[test]
fn hit_count_multiple_of_two_triggers_on_even_reaches() {
    let mut rt = DebuggerRuntime::new();
    rt.add_hit_count_breakpoint("a.rs", 7, 0, "% 2").unwrap();
    let results: Vec<bool> = (0..6).map(|_| rt.should_break_at("a.rs", 7, 0)).collect();
    assert_eq!(results, vec![false, true, false, true, false, true]);
}

#[test]
fn hit_count_greater_than() {
    let mut rt = DebuggerRuntime::new();
    rt.add_hit_count_breakpoint("a.rs", 7, 0, "> 2").unwrap();
    let results: Vec<bool> = (0..4).map(|_| rt.should_break_at("a.rs", 7, 0)).collect();
    assert_eq!(results, vec![false, false, true, true]);
}

#[test]
fn combined_condition_needs_both() {
    let mut rt = DebuggerRuntime::new();
    rt.register_variable(int_var("x", 0));
    rt.add_combined_breakpoint("a.rs", 3, 0, "x > 5", "% 2").unwrap();
    // reach 1: count odd, x small
    assert!(!rt.should_break_at("a.rs", 3, 0));
    // reach 2: count even, x small
    assert!(!rt.should_break_at("a.rs", 3, 0));
    rt.update_variable("x", VariableValue::Integer(9)).unwrap();
    // reach 3: count odd, x large
    assert!(!rt.should_break_at("a.rs", 3, 0));
    // reach 4: both hold
    assert!(rt.should_break_at("a.rs", 3, 0));
}

#[test]
fn conditional_breakpoint_uses_variables() {
    let mut rt = DebuggerRuntime::new();
    rt.register_variable(int_var("count", 3));
    rt.add_conditional_breakpoint("m.rs", 1, 0, "count == 3");
    assert!(rt.should_break_at("m.rs", 1, 0));
    rt.update_variable("count", VariableValue::Integer(4)).unwrap();
    assert!(!rt.should_break_at("m.rs", 1, 0));
}

#[test]
fn ill_formed_condition_does_not_break() {
    let mut rt = DebuggerRuntime::new();
    rt.add_conditional_breakpoint("m.rs", 1, 0, "((( nonsense");
    assert!(!rt.should_break_at("m.rs", 1, 0));
}

#[test]
fn disabled_breakpoint_counts_but_does_not_break() {
    let mut rt = DebuggerRuntime::new();
    let id = rt.add_breakpoint("a.rs", 1, 0);
    assert!(rt.toggle_breakpoint(id, false));
    assert!(!rt.should_break_at("a.rs", 1, 0));
    assert_eq!(rt.find_breakpoint_by_id(id).unwrap().hit_count, 1);
    rt.clear_disabled_breakpoints();
    assert!(rt.list_breakpoints().is_empty());
}

#[test]
fn watch_expression_tracks_changes() {
    let mut rt = DebuggerRuntime::new();
    rt.register_variable(int_var("x", 4));
    let id = rt.add_watch("x + 1");
    let values = rt.update_watches();
    assert_eq!(values, vec!["5".to_string()]);
    rt.reset_change_tracking();
    assert!(!rt.list_watches()[0].has_changed());
    rt.update_variable("x", VariableValue::Integer(5)).unwrap();
    let values = rt.update_watches();
    assert_eq!(values, vec!["6".to_string()]);
    let w = &rt.list_watches()[0];
    assert_eq!(w.id, id);
    assert!(w.has_changed());
    assert_eq!(w.change_count, 2);
    assert!(rt.remove_watch(id));
    assert!(!rt.remove_watch(id));
}

#[test]
fn watch_keeps_change_flag_until_acknowledged() {
    let mut rt = DebuggerRuntime::new();
    rt.register_variable(int_var("x", 1));
    rt.add_watch("x");
    rt.update_watches();
    rt.update_watches();
    assert!(rt.list_watches()[0].has_changed());
    assert_eq!(rt.list_watches()[0].change_count, 1);
}

#[test]
fn flow_through_runtime() {
    let mut rt = DebuggerRuntime::new();
    rt.start();
    assert_eq!(rt.get_execution_state(), ExecutionState::Running);
    rt.enter_function("main", "main.rs", 1);
    rt.continue_execution(FlowControl::StepOver);
    rt.update_execution_point("main.rs", 2, 4, "main");
    assert_eq!(rt.get_execution_state(), ExecutionState::Paused);
    let p = rt.get_current_point().unwrap();
    assert_eq!(p.stack_depth, 1);
    assert_eq!(p.line, 2);
    rt.stop();
    assert_eq!(rt.get_execution_state(), ExecutionState::NotRunning);
    assert!(rt.get_current_point().is_none());
}

#[test]
fn scoped_variables_leave_with_their_function() {
    let mut rt = DebuggerRuntime::new();
    rt.register_variable(int_var("g", 1));
    rt.enter_function("f", "f.rs", 1);
    rt.register_variable(Variable::new("local", "i64", VariableValue::Integer(2), 1, false));
    assert_eq!(rt.get_variables().len(), 2);
    rt.exit_function();
    assert_eq!(rt.get_variables().len(), 1);
    assert!(rt.get_variable("local").is_none());
    assert!(rt.get_variable("g").is_some());
}

#[test]
fn breakpoint_builders() {
    let b = dbug::breakpoints::Breakpoint::new("f.rs", 2, 3, 9)
        .with_combined_condition("a > 1", HitCountCondition::Equals(2));
    assert!(matches!(b.condition_mode, BreakpointConditionMode::Combined { .. }));
    assert!(b.is_at_location("f.rs", 2));
    assert!(!b.is_at_location("f.rs", 3));
    assert!(b.time_since_last_hit().is_none());
}

#[test]
fn condition_on_member_string_is_true() {
    let mut rt = DebuggerRuntime::new();
    rt.register_variable(Variable::new(
        "p",
        "Person",
        VariableValue::Struct(vec![("name".to_string(), VariableValue::String("bob".to_string()))]),
        0,
        false,
    ));
    rt.add_combined_breakpoint("a.rs", 5, 0, "p.name", "1").unwrap();
    assert!(rt.should_break_at("a.rs", 5, 0));
}

#[test]
fn invalid_hit_count_message() {
    let mut rt = DebuggerRuntime::new();
    match rt.add_hit_count_breakpoint("a.rs", 1, 0, "often") {
        Err(DbugError::CliError(m)) => assert_eq!(m, "Invalid hit count expression: often"),
        _ => panic!("expected an error"),
    }
}
