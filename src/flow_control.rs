//! The execution-flow state machine and the call stack.
use vstd::prelude::*;
use vstd::string::StringExecFns;
use crate::breakpoints::{reached, triggers, Breakpoint};
use crate::text::{nat_text, push_nat, str_eq};
use crate::variables::VariableInspector;

verus! {

/// Where the debugged program stands.
#[derive(Clone, Copy, Debug, PartialEq, Eq, Structural)]
pub enum ExecutionState {
    NotRunning,
    Running,
    Paused,
    Completed,
    Error,
}

/// How execution goes on after a pause.
#[derive(Clone, Copy, Debug, PartialEq, Eq, Structural)]
pub enum FlowControl {
    Continue,
    StepOver,
    StepInto,
    StepOut,
    RunToCursor,
    Stop,
}

/// The wire code of a flow action; actions without a code of their own
/// travel as `Continue`.
pub open spec fn flow_code(c: FlowControl) -> u8 {
    match c {
        FlowControl::StepOver => 1,
        FlowControl::StepInto => 2,
        FlowControl::StepOut => 3,
        _ => 0,
    }
}

/// The flow action a wire code stands for; unknown codes read as `Continue`.
pub open spec fn flow_of_code(v: u8) -> FlowControl {
    if v == 1 {
        FlowControl::StepOver
    } else if v == 2 {
        FlowControl::StepInto
    } else if v == 3 {
        FlowControl::StepOut
    } else {
        FlowControl::Continue
    }
}

/// The wire code of `control`.
pub fn flow_control_code(control: FlowControl) -> (r: u8)
    ensures
        r == flow_code(control),
{
    match control {
        FlowControl::StepOver => 1,
        FlowControl::StepInto => 2,
        FlowControl::StepOut => 3,
        _ => 0,
    }
}

/// The flow action that wire code `value` stands for.
pub fn get_flow_control(value: u8) -> (r: FlowControl)
    ensures
        r == flow_of_code(value),
{
    if value == 1 {
        FlowControl::StepOver
    } else if value == 2 {
        FlowControl::StepInto
    } else if value == 3 {
        FlowControl::StepOut
    } else {
        FlowControl::Continue
    }
}

/// A source position reached by the program, with the call depth there.
#[derive(Debug)]
pub struct ExecutionPoint {
    pub file: String,
    pub line: u32,
    pub column: u32,
    pub function: String,
    pub stack_depth: u32,
}

impl ExecutionPoint {
    /// A point at the given position.
    pub fn new(file: &str, line: u32, column: u32, function: &str, stack_depth: u32) -> (r: Self)
        ensures
            r.file@ == file@,
            r.line == line,
            r.column == column,
            r.function@ == function@,
            r.stack_depth == stack_depth,
    {
        ExecutionPoint {
            file: String::from_str(file),
            line,
            column,
            function: String::from_str(function),
            stack_depth,
        }
    }
}

/// One active call.
#[derive(Debug)]
pub struct StackFrame {
    pub function: String,
    pub file: String,
    pub line: u32,
    /// Names of the variables declared in the call.
    pub variables: Vec<String>,
}

impl StackFrame {
    /// A frame with no variables.
    pub fn new(function: &str, file: &str, line: u32) -> (r: Self)
        ensures
            r.function@ == function@,
            r.file@ == file@,
            r.line == line,
            r.variables@.len() == 0,
    {
        StackFrame {
            function: String::from_str(function),
            file: String::from_str(file),
            line,
            variables: Vec::new(),
        }
    }

    /// Records a variable declared in this call.
    pub fn add_variable(&mut self, variable: &str)
        ensures
            final(self).function == old(self).function,
            final(self).file == old(self).file,
            final(self).line == old(self).line,
            final(self).variables@.len() == old(self).variables@.len() + 1,
            final(self).variables@.subrange(0, old(self).variables@.len() as int)
                == old(self).variables@,
            final(self).variables@.last()@ == variable@,
    {
        self.variables.push(String::from_str(variable));
        assert(self.variables@.subrange(0, old(self).variables@.len() as int) =~= old(self).variables@);
    }
}

/// The active calls, outermost first.
#[derive(Debug)]
pub struct CallStack {
    frames: Vec<StackFrame>,
}

impl CallStack {
    /// The frames, outermost first.
    pub closed spec fn frames(&self) -> Seq<StackFrame> {
        self.frames@
    }

    /// An empty stack.
    pub fn new() -> (r: Self)
        ensures
            r.frames() == Seq::<StackFrame>::empty(),
    {
        CallStack { frames: Vec::new() }
    }

    /// Pushes `frame` as the innermost call.
    pub fn push_frame(&mut self, frame: StackFrame)
        ensures
            final(self).frames() == old(self).frames().push(frame),
    {
        self.frames.push(frame);
    }

    /// Pops the innermost call.
    pub fn pop_frame(&mut self) -> (r: Option<StackFrame>)
        ensures
            old(self).frames().len() == 0 ==> r is None && final(self).frames() == old(self).frames(),
            old(self).frames().len() > 0 ==> r == Some(old(self).frames().last())
                && final(self).frames() == old(self).frames().drop_last(),
    {
        self.frames.pop()
    }

    /// The innermost call.
    pub fn current_frame(&self) -> (r: Option<&StackFrame>)
        ensures
            self.frames().len() == 0 ==> r is None,
            self.frames().len() > 0 ==> (r matches Some(f) && *f == self.frames().last()),
    {
        let n = self.frames.len();
        if n == 0 {
            None
        } else {
            Some(&self.frames[n - 1])
        }
    }

    /// The innermost call, to be changed in place.
    pub fn current_frame_mut(&mut self) -> (r: Option<&mut StackFrame>)
        ensures
            old(self).frames().len() == 0 ==> r is None && final(self).frames() == old(self).frames(),
            old(self).frames().len() > 0 ==> (r matches Some(f) && *f == old(self).frames().last()
                && final(self).frames() == old(self).frames().update(
                old(self).frames().len() - 1,
                *final(f),
            )),
    {
        let n = self.frames.len();
        if n == 0 {
            None
        } else {
            Some(&mut self.frames[n - 1])
        }
    }

    /// All frames, outermost first.
    pub fn get_frames(&self) -> (r: &[StackFrame])
        ensures
            r@ == self.frames(),
    {
        self.frames.as_slice()
    }

    /// The number of active calls.
    pub fn depth(&self) -> (r: usize)
        ensures
            r == self.frames().len(),
    {
        self.frames.len()
    }

    /// Drops every frame.
    pub fn clear(&mut self)
        ensures
            final(self).frames() == Seq::<StackFrame>::empty(),
    {
        self.frames.clear();
    }
}

/// A call depth as recorded in an execution point, held at the largest `u32`.
pub open spec fn depth_u32(n: nat) -> u32 {
    if n <= u32::MAX {
        n as u32
    } else {
        u32::MAX
    }
}

fn depth_of(n: usize) -> (r: u32)
    ensures
        r == depth_u32(n as nat),
{
    if n <= u32::MAX as usize {
        n as u32
    } else {
        u32::MAX
    }
}

/// `after` is controller `before` once a call of `function` at `file` and
/// `line` was entered: a frame is pushed, the point moves to the call with
/// the new depth, and a pending step-into pauses.
pub open spec fn enter_outcome(
    before: FlowController,
    after: FlowController,
    function: Seq<char>,
    file: Seq<char>,
    line: u32,
) -> bool {
    &&& after.frames().len() == before.frames().len() + 1
    &&& after.frames().drop_last() == before.frames()
    &&& after.frames().last().function@ == function
    &&& after.frames().last().file@ == file
    &&& after.frames().last().line == line
    &&& after.frames().last().variables@.len() == 0
    &&& after.point() matches Some(p) && p.function@ == function && p.file@ == file && p.line == line
        && p.stack_depth == depth_u32(after.frames().len()) && p.column == match before.point() {
        Some(q) => q.column,
        None => 0,
    }
    &&& after.state() == if before.action() == FlowControl::StepInto {
        ExecutionState::Paused
    } else {
        before.state()
    }
    &&& after.action() == before.action()
}

/// `after` is controller `before` once the innermost call was left,
/// returning `r`: the frame is popped (an empty stack stays as it is), the
/// point moves to the calling frame if there is one, and a pending step-out
/// pauses with the action falling back to `Continue`.
pub open spec fn exit_outcome(before: FlowController, after: FlowController, r: Option<StackFrame>) -> bool {
    &&& before.frames().len() == 0 ==> r is None && after.frames() == before.frames()
    &&& before.frames().len() > 0 ==> r == Some(before.frames().last()) && after.frames()
        == before.frames().drop_last()
    &&& after.frames().len() > 0 ==> (after.point() matches Some(p) && p.function
        == after.frames().last().function && p.file == after.frames().last().file && p.line
        == after.frames().last().line && p.column == 0 && p.stack_depth == depth_u32(
        after.frames().len(),
    ))
    &&& after.frames().len() == 0 ==> after.point() == before.point()
    &&& before.action() == FlowControl::StepOut ==> after.state() == ExecutionState::Paused
        && after.action() == FlowControl::Continue
    &&& before.action() != FlowControl::StepOut ==> after.state() == before.state() && after.action()
        == before.action()
}

/// The execution-flow state machine with its call stack.
#[derive(Debug)]
pub struct FlowController {
    state: ExecutionState,
    next_action: FlowControl,
    current_point: Option<ExecutionPoint>,
    call_stack: CallStack,
}

impl FlowController {
    /// The execution state.
    pub closed spec fn state(&self) -> ExecutionState {
        self.state
    }

    /// The action applied when execution goes on.
    pub closed spec fn action(&self) -> FlowControl {
        self.next_action
    }

    /// The last recorded execution point.
    pub closed spec fn point(&self) -> Option<ExecutionPoint> {
        self.current_point
    }

    /// The active calls, outermost first.
    pub closed spec fn frames(&self) -> Seq<StackFrame> {
        self.call_stack.frames()
    }

    /// A controller that is not running, with an empty stack.
    pub fn new() -> (r: Self)
        ensures
            r.state() == ExecutionState::NotRunning,
            r.action() == FlowControl::Stop,
            r.point() is None,
            r.frames().len() == 0,
    {
        FlowController {
            state: ExecutionState::NotRunning,
            next_action: FlowControl::Stop,
            current_point: None,
            call_stack: CallStack::new(),
        }
    }

    /// Starts running: the action becomes `Continue` and the stack is cleared.
    pub fn start(&mut self)
        ensures
            final(self).state() == ExecutionState::Running,
            final(self).action() == FlowControl::Continue,
            final(self).frames().len() == 0,
            final(self).point() == old(self).point(),
    {
        self.state = ExecutionState::Running;
        self.next_action = FlowControl::Continue;
        self.call_stack.clear();
    }

    /// Pauses execution.
    pub fn pause(&mut self)
        ensures
            final(self).state() == ExecutionState::Paused,
            final(self).action() == old(self).action(),
            final(self).point() == old(self).point(),
            final(self).frames() == old(self).frames(),
    {
        self.state = ExecutionState::Paused;
    }

    /// Runs again with `control` as the next action.
    pub fn resume(&mut self, control: FlowControl)
        ensures
            final(self).state() == ExecutionState::Running,
            final(self).action() == control,
            final(self).point() == old(self).point(),
            final(self).frames() == old(self).frames(),
    {
        self.state = ExecutionState::Running;
        self.next_action = control;
    }

    /// Stops: not running, no stack, no point.
    pub fn stop(&mut self)
        ensures
            final(self).state() == ExecutionState::NotRunning,
            final(self).action() == FlowControl::Stop,
            final(self).point() is None,
            final(self).frames().len() == 0,
    {
        self.state = ExecutionState::NotRunning;
        self.next_action = FlowControl::Stop;
        self.call_stack.clear();
        self.current_point = None;
    }

    /// Ends normally.
    pub fn complete(&mut self)
        ensures
            final(self).state() == ExecutionState::Completed,
            final(self).action() == FlowControl::Stop,
            final(self).point() == old(self).point(),
            final(self).frames() == old(self).frames(),
    {
        self.state = ExecutionState::Completed;
        self.next_action = FlowControl::Stop;
    }

    /// Ends with an error.
    pub fn error(&mut self)
        ensures
            final(self).state() == ExecutionState::Error,
            final(self).action() == FlowControl::Stop,
            final(self).point() == old(self).point(),
            final(self).frames() == old(self).frames(),
    {
        self.state = ExecutionState::Error;
        self.next_action = FlowControl::Stop;
    }

    /// Records a newly reached point; a pending step pauses there.
    pub fn update_execution_point(&mut self, point: ExecutionPoint)
        ensures
            final(self).point() == Some(point),
            final(self).state() == if old(self).action() == FlowControl::StepOver || old(self).action()
                == FlowControl::StepInto {
                ExecutionState::Paused
            } else {
                old(self).state()
            },
            final(self).action() == old(self).action(),
            final(self).frames() == old(self).frames(),
    {
        self.current_point = Some(point);
        if self.next_action == FlowControl::StepOver || self.next_action == FlowControl::StepInto {
            self.state = ExecutionState::Paused;
        }
    }

    /// Enters a call: a frame is pushed, the point moves to the call with
    /// the new depth, and a pending step-into pauses.
    pub fn enter_function(&mut self, function: &str, file: &str, line: u32)
        ensures
            enter_outcome(*old(self), *final(self), function@, file@, line),
    {
        let frame = StackFrame::new(function, file, line);
        self.call_stack.push_frame(frame);
        assert(self.call_stack.frames().drop_last() =~= old(self).call_stack.frames());
        let depth = depth_of(self.call_stack.depth());
        let column = match &self.current_point {
            Some(p) => p.column,
            None => 0,
        };
        self.current_point = Some(ExecutionPoint::new(file, line, column, function, depth));
        if self.next_action == FlowControl::StepInto {
            self.state = ExecutionState::Paused;
        }
    }

    /// Leaves the innermost call and returns its frame. The point moves to
    /// the calling frame, if there is one; a pending step-out pauses and the
    /// action falls back to `Continue`.
    pub fn exit_function(&mut self) -> (r: Option<StackFrame>)
        ensures
            exit_outcome(*old(self), *final(self), r),
    {
        let frame = self.call_stack.pop_frame();
        let depth = depth_of(self.call_stack.depth());
        let point = match self.call_stack.current_frame() {
            Some(parent) => Some(
                ExecutionPoint {
                    file: parent.file.clone(),
                    line: parent.line,
                    column: 0,
                    function: parent.function.clone(),
                    stack_depth: depth,
                },
            ),
            None => None,
        };
        if point.is_some() {
            self.current_point = point;
        }
        if self.next_action == FlowControl::StepOut {
            self.state = ExecutionState::Paused;
            self.next_action = FlowControl::Continue;
        }
        frame
    }

    /// Records a variable in the innermost call, if there is one.
    pub fn add_variable_to_current_frame(&mut self, variable: &str)
        ensures
            final(self).frames().len() == old(self).frames().len(),
            old(self).frames().len() > 0 ==> final(self).frames().drop_last() == old(self).frames().drop_last() && final(self).frames().last().variables@.drop_last() == old(self).frames().last().variables@ && final(self).frames().last().variables@.last()@
                == variable@,
            old(self).frames().len() == 0 ==> final(self).frames() == old(self).frames(),
            final(self).state() == old(self).state(),
            final(self).action() == old(self).action(),
            final(self).point() == old(self).point(),
    {
        match self.call_stack.current_frame_mut() {
            Some(frame) => {
                frame.add_variable(variable);
                assert(frame.variables@.drop_last() =~= frame.variables@.subrange(0, frame.variables@.len() - 1));
            },
            None => {},
        }
        proof {
            if old(self).frames().len() > 0 {
                assert(self.frames().drop_last() =~= old(self).frames().drop_last());
            }
        }
    }

    /// The execution state.
    pub fn get_state(&self) -> (r: ExecutionState)
        ensures
            r == self.state(),
    {
        self.state
    }

    /// The action applied when execution goes on.
    pub fn get_next_action(&self) -> (r: FlowControl)
        ensures
            r == self.action(),
    {
        self.next_action
    }

    /// The last recorded execution point.
    pub fn get_current_point(&self) -> (r: Option<&ExecutionPoint>)
        ensures
            match r {
                Some(p) => self.point() == Some(*p),
                None => self.point() is None,
            },
    {
        self.current_point.as_ref()
    }

    /// The call stack.
    pub fn get_call_stack(&self) -> (r: &CallStack)
        ensures
            r.frames() == self.frames(),
    {
        &self.call_stack
    }
}


/// Where the program paused at a breakpoint.
#[derive(Debug)]
pub struct DebugPosition {
    pub file: String,
    pub line: u32,
    pub column: u32,
    pub function: String,
    /// The index of the selected frame.
    pub stack_frame: u32,
    pub is_async: bool,
    pub async_task_id: Option<u64>,
}

/// What the debugger is doing.
#[derive(Clone, Copy, Debug, PartialEq, Eq, Structural)]
pub enum DebuggerState {
    Running,
    Paused,
    Waiting,
    Stopped,
}

/// The key `file:line:column` of a breakpoint's location.
pub open spec fn location_key(b: Breakpoint) -> Seq<char> {
    b.file@ + ":"@ + nat_text(b.line as nat) + ":"@ + nat_text(b.column as nat)
}

/// The index of the first breakpoint of `s` whose key is `key`, or -1.
pub open spec fn key_position(s: Seq<Breakpoint>, key: Seq<char>) -> int
    decreases s.len(),
{
    if s.len() == 0 {
        -1
    } else if key_position(s.drop_last(), key) >= 0 {
        key_position(s.drop_last(), key)
    } else if location_key(s.last()) == key {
        s.len() - 1
    } else {
        -1
    }
}

proof fn lemma_key_position_bounds(s: Seq<Breakpoint>, key: Seq<char>)
    ensures
        -1 <= key_position(s, key) < s.len(),
        key_position(s, key) >= 0 ==> location_key(s[key_position(s, key)]) == key,
    decreases s.len(),
{
    if s.len() > 0 {
        lemma_key_position_bounds(s.drop_last(), key);
    }
}

proof fn lemma_key_prefix(s: Seq<Breakpoint>, key: Seq<char>, i: int)
    requires
        0 <= i < s.len(),
        key_position(s.subrange(0, i), key) == -1,
        location_key(s[i]) == key,
    ensures
        key_position(s, key) == i,
    decreases s.len(),
{
    let t = s.subrange(0, i + 1);
    assert(t.drop_last() =~= s.subrange(0, i));
    if s.len() > i + 1 {
        assert(s.drop_last().subrange(0, i) =~= s.subrange(0, i));
        lemma_key_prefix(s.drop_last(), key, i);
    } else {
        assert(t =~= s);
    }
}

fn key_of(b: &Breakpoint) -> (r: String)
    ensures
        r@ == location_key(*b),
{
    let mut k = b.file.clone();
    k.append(":");
    push_nat(&mut k, b.line as u64);
    k.append(":");
    push_nat(&mut k, b.column as u64);
    assert(k@ =~= location_key(*b));
    k
}

fn find_key(s: &Vec<Breakpoint>, key: &str) -> (r: Option<usize>)
    ensures
        match r {
            Some(i) => key_position(s@, key@) == i as int && i < s@.len(),
            None => key_position(s@, key@) == -1,
        },
{
    let mut i: usize = 0;
    while i < s.len()
        invariant
            i <= s@.len(),
            key_position(s@.subrange(0, i as int), key@) == -1,
        decreases s@.len() - i,
    {
        let t = Ghost(s@.subrange(0, i as int + 1));
        assert(t@.drop_last() =~= s@.subrange(0, i as int));
        let k = key_of(&s[i]);
        if str_eq(k.as_str(), key) {
            proof {
                lemma_key_prefix(s@, key@, i as int);
            }
            return Some(i);
        }
        i = i + 1;
    }
    assert(s@.subrange(0, s@.len() as int) =~= s@);
    None
}

/// `after` is manager `before` once asynchronous task `task_id` reached
/// `file:line:column` in `function`, with `vars` in scope, and `r` tells
/// whether it paused: the first breakpoint there, when enabled, counts a hit
/// and pauses when it triggers; a pause records the position.
pub open spec fn async_step(
    before: BreakpointManager,
    after: BreakpointManager,
    file: Seq<char>,
    line: u32,
    column: u32,
    task_id: u64,
    function: Seq<char>,
    vars: Seq<crate::variables::Variable>,
    r: bool,
) -> bool {
    let key = file + ":"@ + nat_text(line as nat) + ":"@ + nat_text(column as nat);
    let p = key_position(before.bps(), key);
    &&& if p >= 0 && before.bps()[p].enabled {
        &&& after.bps().len() == before.bps().len()
        &&& reached(before.bps()[p], after.bps()[p])
        &&& after.bps() == before.bps().update(p, after.bps()[p])
        &&& r == triggers(after.bps()[p], vars)
    } else {
        !r && after.bps() == before.bps()
    }
    &&& r ==> after.debugger_state() == DebuggerState::Paused && (after.pause_position() matches Some(
        pos,
    ) && pos.file@ == file && pos.line == line && pos.column == column && pos.function@ == function
        && pos.stack_frame == 0 && pos.is_async && pos.async_task_id == Some(task_id))
    &&& !r ==> after.debugger_state() == before.debugger_state() && after.pause_position()
        == before.pause_position()
}

/// Breakpoints looked up by location, with the pause state they lead to.
#[derive(Debug)]
pub struct BreakpointManager {
    breakpoints: Vec<Breakpoint>,
    state: DebuggerState,
    position: Option<DebugPosition>,
}

impl BreakpointManager {
    /// The breakpoints, in order of addition.
    pub closed spec fn bps(&self) -> Seq<Breakpoint> {
        self.breakpoints@
    }

    /// What the debugger is doing.
    pub closed spec fn debugger_state(&self) -> DebuggerState {
        self.state
    }

    /// Where the program last paused.
    pub closed spec fn pause_position(&self) -> Option<DebugPosition> {
        self.position
    }

    /// A manager with no breakpoints, stopped.
    pub fn new() -> (r: Self)
        ensures
            r.bps().len() == 0,
            r.debugger_state() == DebuggerState::Stopped,
            r.pause_position() is None,
    {
        BreakpointManager { breakpoints: Vec::new(), state: DebuggerState::Stopped, position: None }
    }

    /// Adds a breakpoint.
    pub fn add(&mut self, breakpoint: Breakpoint)
        ensures
            final(self).bps() == old(self).bps().push(breakpoint),
            final(self).debugger_state() == old(self).debugger_state(),
            final(self).pause_position() == old(self).pause_position(),
    {
        self.breakpoints.push(breakpoint);
    }

    /// What the debugger is doing.
    pub fn get_state(&self) -> (r: DebuggerState)
        ensures
            r == self.debugger_state(),
    {
        self.state
    }

    /// Where the program last paused.
    pub fn get_position(&self) -> (r: Option<&DebugPosition>)
        ensures
            match r {
                Some(p) => self.pause_position() == Some(*p),
                None => self.pause_position() is None,
            },
    {
        self.position.as_ref()
    }

    /// The first breakpoint whose location reads `location` as
    /// `file:line:column`.
    pub fn get_breakpoint_by_location(&self, location: &str) -> (r: Option<&Breakpoint>)
        ensures
            match r {
                Some(b) => key_position(self.bps(), location@) >= 0 && *b == self.bps()[key_position(
                    self.bps(),
                    location@,
                )],
                None => key_position(self.bps(), location@) == -1,
            },
    {
        proof {
            lemma_key_position_bounds(self.breakpoints@, location@);
        }
        match find_key(&self.breakpoints, location) {
            Some(i) => Some(&self.breakpoints[i]),
            None => None,
        }
    }

    /// The same breakpoint as `get_breakpoint_by_location`, to be changed in
    /// place.
    pub fn get_breakpoint_by_location_mut(&mut self, location: &str) -> (r: Option<&mut Breakpoint>)
        ensures
            ({
                let p = key_position(old(self).bps(), location@);
                &&& p == -1 ==> r is None && final(self).bps() == old(self).bps()
                &&& p >= 0 ==> (r matches Some(b) && *b == old(self).bps()[p] && final(self).bps()
                    == old(self).bps().update(p, *final(b)))
            }),
            final(self).debugger_state() == old(self).debugger_state(),
            final(self).pause_position() == old(self).pause_position(),
    {
        proof {
            lemma_key_position_bounds(self.breakpoints@, location@);
        }
        match find_key(&self.breakpoints, location) {
            Some(i) => Some(&mut self.breakpoints[i]),
            None => None,
        }
    }

    /// Handles a reach of a breakpoint location by asynchronous task
    /// `task_id`. The first enabled breakpoint there counts a hit; when it
    /// triggers, the debugger pauses at that position and the result is true.
    pub fn handle_async_breakpoint(
        &mut self,
        file: &str,
        line: u32,
        column: u32,
        task_id: u64,
        function_name: &str,
        variables: &VariableInspector,
    ) -> (r: bool)
        ensures
            async_step(*old(self), *final(self), file@, line, column, task_id, function_name@, variables.vars(), r),
    {
        let mut key = String::from_str(file);
        key.append(":");
        push_nat(&mut key, line as u64);
        key.append(":");
        push_nat(&mut key, column as u64);
        proof {
            lemma_key_position_bounds(self.breakpoints@, key@);
        }
        let i = match find_key(&self.breakpoints, key.as_str()) {
            Some(i) => i,
            None => {
                return false;
            },
        };
        if !self.breakpoints[i].enabled {
            return false;
        }
        let mut bp = self.breakpoints.remove(i);
        bp.register_hit();
        let should_break = bp.should_trigger(variables);
        self.breakpoints.insert(i, bp);
        assert(self.breakpoints@ =~= old(self).breakpoints@.update(i as int, bp));
        if should_break {
            self.position = Some(
                DebugPosition {
                    file: String::from_str(file),
                    line,
                    column,
                    function: String::from_str(function_name),
                    stack_frame: 0,
                    is_async: true,
                    async_task_id: Some(task_id),
                },
            );
            self.state = DebuggerState::Paused;
        }
        should_break
    }
}

} // verus!
