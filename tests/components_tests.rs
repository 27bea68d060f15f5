use dbug::breakpoints::{Breakpoint, HitCountCondition, WatchExpression};
use dbug::channel::{
    async_point_function_name, expression_result_message, flow_for_response, point_function_name,
    DebuggerMessage, DebuggerResponse,
};
use dbug::dispatch::handle_message;
use dbug::flow_control::{
    flow_control_code, get_flow_control, BreakpointManager, CallStack, DebuggerState, ExecutionPoint,
    ExecutionState, FlowControl, FlowController, StackFrame,
};
use dbug::variables::{create_detailed_visualization, Variable, VariableInspector, VariableValue};

#[test]
fn hit_count_condition_parsing() {
    assert_eq!(HitCountCondition::from_string("= 3"), Some(HitCountCondition::Equals(3)));
    assert_eq!(HitCountCondition::from_string("  >7 "), Some(HitCountCondition::GreaterThan(7)));
    assert_eq!(HitCountCondition::from_string("%2"), Some(HitCountCondition::Multiple(2)));
    assert_eq!(HitCountCondition::from_string("5"), Some(HitCountCondition::Equals(5)));
    assert_eq!(HitCountCondition::from_string("+5"), Some(HitCountCondition::Equals(5)));
    assert_eq!(HitCountCondition::from_string("= -1"), None);
    assert_eq!(HitCountCondition::from_string("4294967296"), None);
    assert_eq!(HitCountCondition::from_string(""), None);
    assert!(HitCountCondition::Multiple(3).is_met(6));
    assert!(!HitCountCondition::Multiple(0).is_met(0));
    assert!(HitCountCondition::GreaterThan(1).is_met(2));
}

#[test]
fn detailed_view_of_a_vector() {
    let elems: Vec<VariableValue> = (0..12).map(VariableValue::Integer).collect();
    let v = Variable::new("v", "Vec<i64>", VariableValue::new_vec(elems, 16), 0, false);
    let text = create_detailed_visualization(&v);
    assert!(text.starts_with("v: Vec<i64> = Vec (len: 12, capacity: 16) ["));
    assert!(text.contains("\n  Length: 12\n  Capacity: 16\n  Elements:\n    [0]: 0"));
    assert!(text.contains("\n    [9]: 9\n    ... and 2 more elements"));
    assert!(!text.contains("[10]: 10"));
}

#[test]
fn detailed_view_of_option_and_struct() {
    let mut insp = VariableInspector::new();
    insp.register_variable(Variable::new(
        "o",
        "Option<i64>",
        VariableValue::Option(Some(Box::new(VariableValue::Integer(3)))),
        0,
        false,
    ));
    insp.register_variable(Variable::new(
        "s",
        "S",
        VariableValue::Struct(vec![("a".to_string(), VariableValue::Boolean(true))]),
        0,
        false,
    ));
    assert_eq!(
        insp.visualize_variable("o").unwrap(),
        "o: Option<i64> = Some(3)\n  Contains value:\n    3"
    );
    assert_eq!(insp.visualize_variable("s").unwrap(), "s: S = {a: true}\n  Fields:\n    a: true");
    assert!(insp.visualize_variable("none").is_none());
}

#[test]
fn call_stack_and_flow_controller() {
    let mut fc = FlowController::new();
    assert_eq!(fc.get_state(), ExecutionState::NotRunning);
    assert_eq!(fc.get_next_action(), FlowControl::Stop);
    fc.start();
    fc.enter_function("main", "main.rs", 1);
    fc.add_variable_to_current_frame("x");
    fc.resume(FlowControl::StepInto);
    fc.enter_function("helper", "lib.rs", 10);
    assert_eq!(fc.get_state(), ExecutionState::Paused);
    assert_eq!(fc.get_current_point().unwrap().stack_depth, 2);
    fc.resume(FlowControl::StepOut);
    let frame = fc.exit_function().unwrap();
    assert_eq!(frame.function, "helper");
    assert_eq!(fc.get_state(), ExecutionState::Paused);
    assert_eq!(fc.get_next_action(), FlowControl::Continue);
    let p = fc.get_current_point().unwrap();
    assert_eq!(p.function, "main");
    assert_eq!(p.stack_depth, 1);
    assert_eq!(fc.get_call_stack().current_frame().unwrap().variables, vec!["x".to_string()]);
    fc.exit_function();
    assert!(fc.exit_function().is_none());
    fc.complete();
    assert_eq!(fc.get_state(), ExecutionState::Completed);
    fc.error();
    assert_eq!(fc.get_state(), ExecutionState::Error);
    fc.pause();
    assert_eq!(fc.get_state(), ExecutionState::Paused);

    let mut cs = CallStack::new();
    cs.push_frame(StackFrame::new("f", "f.rs", 1));
    cs.current_frame_mut().unwrap().add_variable("y");
    assert_eq!(cs.depth(), 1);
    assert_eq!(cs.get_frames()[0].variables.len(), 1);
    cs.clear();
    assert!(cs.pop_frame().is_none());
    let pt = ExecutionPoint::new("a.rs", 1, 2, "f", 0);
    fc.update_execution_point(pt);
    assert_eq!(fc.get_current_point().unwrap().column, 2);
}

#[test]
fn flow_codes_round_trip() {
    for c in [FlowControl::Continue, FlowControl::StepOver, FlowControl::StepInto, FlowControl::StepOut] {
        assert_eq!(get_flow_control(flow_control_code(c)), c);
    }
    assert_eq!(flow_control_code(FlowControl::Stop), 0);
    assert_eq!(get_flow_control(42), FlowControl::Continue);
}

#[test]
fn breakpoint_manager_handles_async_reaches() {
    let mut m = BreakpointManager::new();
    m.add(Breakpoint::new("t.rs", 4, 2, 1).with_hit_count_condition(HitCountCondition::Equals(2)));
    assert!(m.get_breakpoint_by_location("t.rs:4:2").is_some());
    assert!(m.get_breakpoint_by_location("t.rs:4:3").is_none());
    let vars = VariableInspector::new();
    assert!(!m.handle_async_breakpoint("t.rs", 4, 2, 9, "task_fn", &vars));
    assert_eq!(m.get_state(), DebuggerState::Stopped);
    assert!(m.handle_async_breakpoint("t.rs", 4, 2, 9, "task_fn", &vars));
    assert_eq!(m.get_state(), DebuggerState::Paused);
    let pos = m.get_position().unwrap();
    assert_eq!(pos.async_task_id, Some(9));
    assert_eq!(pos.function, "task_fn");
    assert_eq!(m.get_breakpoint_by_location("t.rs:4:2").unwrap().hit_count, 2);
    m.get_breakpoint_by_location_mut("t.rs:4:2").unwrap().enabled = false;
    assert!(!m.handle_async_breakpoint("t.rs", 4, 2, 9, "task_fn", &vars));
    assert_eq!(m.get_breakpoint_by_location("t.rs:4:2").unwrap().hit_count, 2);
}

#[test]
fn controller_handles_batches() {
    let mut m = BreakpointManager::new();
    m.add(Breakpoint::new("job.rs", 3, 0, 1));
    let vars = VariableInspector::new();
    let batch = DebuggerMessage::BatchedMessages(vec![
        DebuggerMessage::FunctionEntered { function: "f".into(), file: "a.rs".into(), line: 7 },
        DebuggerMessage::BatchedMessages(vec![DebuggerMessage::FunctionExited { function: "f".into() }]),
        DebuggerMessage::AsyncBreakPoint { file: "src/job.rs".into(), line: 3, column: 0, task_id: 5 },
        DebuggerMessage::AsyncBreakPoint { file: "job.rs".into(), line: 3, column: 0, task_id: 5 },
    ]);
    let logs = handle_message(&mut m, batch, &vars);
    assert_eq!(
        logs,
        vec![
            "[DBUG] Function entered: f at a.rs:7".to_string(),
            "[DBUG] Function exited: f".to_string()
        ]
    );
    assert_eq!(m.get_state(), DebuggerState::Paused);
    assert_eq!(m.get_position().unwrap().function, "async_function_in_job");
}

#[test]
fn responses_and_names() {
    assert_eq!(flow_for_response(&DebuggerResponse::StepOut), Some(FlowControl::StepOut));
    assert_eq!(flow_for_response(&DebuggerResponse::Continue), None);
    assert_eq!(point_function_name("src/main.rs"), "function_in_main");
    assert_eq!(async_point_function_name("/tmp/x/worker.rs"), "async_function_in_worker");
    assert_eq!(point_function_name(""), "function_in_unknown");
    let mut vars = VariableInspector::new();
    vars.register_variable(Variable::new("n", "i64", VariableValue::Integer(6), 0, false));
    match expression_result_message("n * 7", &vars) {
        DebuggerMessage::ExpressionResult { expression, result } => {
            assert_eq!(expression, "n * 7");
            assert_eq!(result, "42");
        }
        _ => panic!("expected a result"),
    }
    match expression_result_message("n +", &vars) {
        DebuggerMessage::ExpressionResult { result, .. } => {
            assert_eq!(result, "Could not evaluate expression: n +")
        }
        _ => panic!("expected a result"),
    }
}

#[test]
fn watch_expression_unit() {
    let mut w = WatchExpression::new("x", 3);
    let vars = VariableInspector::new();
    assert_eq!(w.evaluate(&vars), "[Evaluation failed]");
    assert!(w.has_changed());
    w.acknowledge_change();
    w.update_value("[Evaluation failed]");
    assert!(!w.has_changed());
    w.toggle(false);
    assert_eq!(w.evaluate(&vars), "[Watch disabled]");
    assert!(w.time_since_change().is_some());
}
