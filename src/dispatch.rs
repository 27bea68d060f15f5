//! The controller's handling of the events that arrive from the target.
use vstd::prelude::*;
use vstd::string::StringExecFns;
use crate::channel::{async_point_function_name, stem_or_unknown, DebuggerMessage};
use crate::flow_control::{async_step, BreakpointManager};
use crate::text::{nat_text, push_nat};
use crate::variables::VariableInspector;

verus! {

/// The events that `m` carries, batches opened, in order.
pub open spec fn flatten(m: DebuggerMessage) -> Seq<DebuggerMessage>
    decreases m, 0int,
{
    match m {
        DebuggerMessage::BatchedMessages(v) => flatten_seq(v@),
        _ => seq![m],
    }
}

/// The events that the messages of `s` carry, in order.
pub open spec fn flatten_seq(s: Seq<DebuggerMessage>) -> Seq<DebuggerMessage>
    decreases s, s.len(),
{
    if s.len() == 0 {
        Seq::empty()
    } else {
        flatten_seq(s.subrange(0, s.len() - 1)) + flatten(s[s.len() - 1])
    }
}


/// Appends the events that `m` carries to `out`, batches opened, in order.
pub fn flatten_into(m: DebuggerMessage, out: &mut Vec<DebuggerMessage>)
    ensures
        final(out)@ == old(out)@ + flatten(m),
    decreases m,
{
    let ghost whole = m;
    match m {
        DebuggerMessage::BatchedMessages(v) => {
            let ghost all = v@;
            let ghost start = out@;
            let n = v.len();
            let mut rest = v;
            let mut i: usize = 0;
            while rest.len() > 0
                invariant
                    n == all.len(),
                    rest@.len() + i == n,
                    rest@ == all.subrange(i as int, n as int),
                    out@ == start + flatten_seq(all.subrange(0, i as int)),
                    whole matches DebuggerMessage::BatchedMessages(w) && w@ == all,
                    whole == m,
                decreases rest@.len(),
            {
                let e = rest.remove(0);
                proof {
                    assert(e == all[i as int]);
                    let w = whole->BatchedMessages_0;
                    assert(decreases_to!(whole => w));
                    assert(decreases_to!(w => w@));
                    assert(decreases_to!(w@ => w@[i as int]));
                    assert(decreases_to!(whole => e));
                    assert(decreases_to!(m => e));
                }
                flatten_into(e, out);
                proof {
                    let t = all.subrange(0, i as int + 1);
                    assert(t.subrange(0, i as int) =~= all.subrange(0, i as int));
                    assert(t[i as int] == all[i as int]);
                }
                i = i + 1;
                assert(out@ =~= start + flatten_seq(all.subrange(0, i as int)));
            }
            assert(all.subrange(0, n as int) =~= all);
        },
        _ => {
            out.push(m);
            assert(out@ =~= old(out)@ + flatten(whole));
        },
    }
}


/// The log line the controller writes for event `m`, if any.
pub open spec fn event_log(m: DebuggerMessage) -> Option<Seq<char>> {
    match m {
        DebuggerMessage::BreakpointHit { file, line, column, function } => Some(
            "[DBUG] Breakpoint hit: "@ + file@ + ":"@ + nat_text(line as nat) + ":"@ + nat_text(
                column as nat,
            ) + " in "@ + function@,
        ),
        DebuggerMessage::FunctionEntered { function, file, line } => Some(
            "[DBUG] Function entered: "@ + function@ + " at "@ + file@ + ":"@ + nat_text(line as nat),
        ),
        DebuggerMessage::FunctionExited { function } => Some("[DBUG] Function exited: "@ + function@),
        DebuggerMessage::VariableChanged { name, type_label, value, .. } => Some(
            "[DBUG] Variable changed: "@ + name@ + " ("@ + type_label@ + ") = "@ + value@,
        ),
        DebuggerMessage::ExpressionResult { expression, result } => Some(
            "[DBUG] Expression result: "@ + expression@ + " = "@ + result@,
        ),
        _ => None,
    }
}

/// The log lines for the events of `s`, in order.
pub open spec fn logs_of(s: Seq<DebuggerMessage>) -> Seq<Seq<char>>
    decreases s.len(),
{
    if s.len() == 0 {
        Seq::empty()
    } else {
        match event_log(s.last()) {
            Some(l) => logs_of(s.drop_last()).push(l),
            None => logs_of(s.drop_last()),
        }
    }
}

fn describe(m: &DebuggerMessage) -> (r: Option<String>)
    ensures
        match r {
            Some(t) => event_log(*m) == Some(t@),
            None => event_log(*m) is None,
        },
{
    match m {
        DebuggerMessage::BreakpointHit { file, line, column, function } => {
            let mut t = String::from_str("[DBUG] Breakpoint hit: ");
            t.append(file.as_str());
            t.append(":");
            push_nat(&mut t, *line as u64);
            t.append(":");
            push_nat(&mut t, *column as u64);
            t.append(" in ");
            t.append(function.as_str());
            assert(Some(t@) == event_log(*m));
            Some(t)
        },
        DebuggerMessage::FunctionEntered { function, file, line } => {
            let mut t = String::from_str("[DBUG] Function entered: ");
            t.append(function.as_str());
            t.append(" at ");
            t.append(file.as_str());
            t.append(":");
            push_nat(&mut t, *line as u64);
            assert(Some(t@) == event_log(*m));
            Some(t)
        },
        DebuggerMessage::FunctionExited { function } => {
            let mut t = String::from_str("[DBUG] Function exited: ");
            t.append(function.as_str());
            Some(t)
        },
        DebuggerMessage::VariableChanged { name, type_label, value, .. } => {
            let mut t = String::from_str("[DBUG] Variable changed: ");
            t.append(name.as_str());
            t.append(" (");
            t.append(type_label.as_str());
            t.append(") = ");
            t.append(value.as_str());
            assert(Some(t@) == event_log(*m));
            Some(t)
        },
        DebuggerMessage::ExpressionResult { expression, result } => {
            let mut t = String::from_str("[DBUG] Expression result: ");
            t.append(expression.as_str());
            t.append(" = ");
            t.append(result.as_str());
            assert(Some(t@) == event_log(*m));
            Some(t)
        },
        _ => None,
    }
}

/// Whether any event of `s` is an asynchronous breakpoint.
pub open spec fn has_async_point(s: Seq<DebuggerMessage>) -> bool {
    exists|i: int| 0 <= i < s.len() && #[trigger] s[i] is AsyncBreakPoint
}

/// `after` is manager `before` once event `e` was handled with `vars` in
/// scope: an asynchronous breakpoint is handled as `async_step` describes,
/// under the name its file gives; any other event leaves the manager as it is.
pub open spec fn event_step(
    before: BreakpointManager,
    e: DebuggerMessage,
    vars: Seq<crate::variables::Variable>,
    after: BreakpointManager,
) -> bool {
    match e {
        DebuggerMessage::AsyncBreakPoint { file, line, column, task_id } => exists|r: bool|
            async_step(
                before,
                after,
                file@,
                line,
                column,
                task_id,
                "async_function_in_"@ + stem_or_unknown(file@),
                vars,
                r,
            ),
        _ => after == before,
    }
}

/// `ms` are the managers from `before` to `after` while `events` are
/// handled in order, one step per event.
pub open spec fn step_chain(
    ms: Seq<BreakpointManager>,
    events: Seq<DebuggerMessage>,
    vars: Seq<crate::variables::Variable>,
) -> bool {
    &&& ms.len() == events.len() + 1
    &&& forall|j: int| 0 <= j < events.len() ==> #[trigger] event_step(ms[j], events[j], vars, ms[j + 1])
}

/// `after` is manager `before` once each event of `events` was handled in
/// order, with `vars` in scope.
pub open spec fn async_steps(
    before: BreakpointManager,
    events: Seq<DebuggerMessage>,
    vars: Seq<crate::variables::Variable>,
    after: BreakpointManager,
) -> bool {
    exists|ms: Seq<BreakpointManager>|
        #[trigger] step_chain(ms, events, vars) && ms[0] == before && ms[events.len() as int] == after
}

/// Handles a message from the target: returns the log lines of its events,
/// and hands each asynchronous breakpoint to `manager`, in order. Other
/// events leave `manager` as it is.
pub fn handle_message(manager: &mut BreakpointManager, message: DebuggerMessage, variables: &VariableInspector) -> (r: Vec<String>)
    ensures
        r@.map_values(|t: String| t@) == logs_of(flatten(message)),
        async_steps(*old(manager), flatten(message), variables.vars(), *final(manager)),
        !has_async_point(flatten(message)) ==> *final(manager) == *old(manager),
{
    let mut events: Vec<DebuggerMessage> = Vec::new();
    flatten_into(message, &mut events);
    assert(events@ =~= flatten(message));
    assert(events@.subrange(0, 0).len() == 0);
    assert(step_chain(seq![*manager], events@.subrange(0, 0), variables.vars()));
    let ghost all = events@;
    let mut logs: Vec<String> = Vec::new();
    let ghost mut ms: Seq<BreakpointManager> = seq![*manager];
    let mut i: usize = 0;
    while i < events.len()
        invariant
            events@ == all,
            i <= all.len(),
            logs@.map_values(|t: String| t@) == logs_of(all.subrange(0, i as int)),
            !has_async_point(all.subrange(0, i as int)) ==> *manager == *old(manager),
            step_chain(ms, all.subrange(0, i as int), variables.vars()),
            ms[0] == *old(manager),
            ms[i as int] == *manager,
        decreases all.len() - i,
    {
        proof {
            let t = all.subrange(0, i as int + 1);
            assert(t.drop_last() =~= all.subrange(0, i as int));
            assert(t.last() == all[i as int]);
        }
        let ghost before = logs@;
        let ghost prev_manager = *manager;
        match describe(&events[i]) {
            Some(line) => {
                logs.push(line);
                assert(logs@.map_values(|t: String| t@) =~= before.map_values(|t: String| t@).push(line@));
            },
            None => {},
        }
        match &events[i] {
            DebuggerMessage::AsyncBreakPoint { file, line, column, task_id } => {
                let name = async_point_function_name(file.as_str());
                let paused = manager.handle_async_breakpoint(
                    file.as_str(),
                    *line,
                    *column,
                    *task_id,
                    name.as_str(),
                    variables,
                );
                proof {
                    assert(async_step(prev_manager, *manager, file@, *line, *column, *task_id,
                        "async_function_in_"@ + stem_or_unknown(file@), variables.vars(), paused));
                    assert(event_step(prev_manager, all[i as int], variables.vars(), *manager));
                }
            },
            _ => {
                assert(event_step(prev_manager, all[i as int], variables.vars(), *manager));
            },
        }
        proof {
            let t = all.subrange(0, i as int + 1);
            let ms2 = ms.push(*manager);
            assert forall|j: int| 0 <= j < t.len() implies #[trigger] event_step(ms2[j], t[j], variables.vars(), ms2[j + 1]) by {
                if j < i {
                    assert(event_step(ms[j], all.subrange(0, i as int)[j], variables.vars(), ms[j + 1]));
                }
            }
            ms = ms2;
        }
        proof {
            let t = all.subrange(0, i as int + 1);
            if !has_async_point(t) {
                assert forall|j: int| 0 <= j < i implies !(#[trigger] all.subrange(0, i as int)[j] is AsyncBreakPoint) by {
                    assert(t[j] == all.subrange(0, i as int)[j]);
                }
                assert(!(t[i as int] is AsyncBreakPoint));
            }
        }
        i = i + 1;
    }
    assert(all.subrange(0, all.len() as int) =~= all);
    assert(step_chain(ms, flatten(message), variables.vars()));
    logs
}

} // verus!
