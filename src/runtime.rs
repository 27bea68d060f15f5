//! The session facade: breakpoints, watches, variables and flow control of
//! one debugging session.
use vstd::prelude::*;
use vstd::string::StringExecFns;
use crate::breakpoints::{
    parse_hit_condition, reached, recorded, triggers, watch_text, Breakpoint, HitCountCondition,
    WatchExpression,
};
use crate::errors::DbugError;
use crate::flow_control::{
    depth_u32, ExecutionPoint, ExecutionState, FlowControl, FlowController, StackFrame,
};
use crate::variables::{position_of, Variable, VariableInspector, VariableValue};
use crate::visualizer::{composite_text, registered_view, TypeVisualizer, VisualizerKind};

verus! {

/// The state of one debugging session.
#[derive(Debug)]
pub struct DebuggerRuntime {
    breakpoints: Vec<Breakpoint>,
    watches: Vec<WatchExpression>,
    variable_inspector: VariableInspector,
    flow_controller: FlowController,
    type_visualizer: TypeVisualizer,
    next_breakpoint_id: u32,
    next_watch_id: u32,
}

/// Whether `b` stands at `file` and `line`.
pub open spec fn at_location(b: Breakpoint, file: Seq<char>, line: u32) -> bool {
    b.file@ == file && b.line == line
}

impl DebuggerRuntime {
    /// The breakpoints, oldest first.
    pub closed spec fn bps(&self) -> Seq<Breakpoint> {
        self.breakpoints@
    }

    /// The watches, oldest first.
    pub closed spec fn watch_list(&self) -> Seq<WatchExpression> {
        self.watches@
    }

    /// The variable registry.
    pub closed spec fn inspector(&self) -> VariableInspector {
        self.variable_inspector
    }

    /// The flow controller.
    pub closed spec fn flow(&self) -> FlowController {
        self.flow_controller
    }

    /// The views registered by type name.
    pub closed spec fn visualizers(&self) -> TypeVisualizer {
        self.type_visualizer
    }

    /// The id the next breakpoint will get.
    pub closed spec fn next_bp_id(&self) -> u32 {
        self.next_breakpoint_id
    }

    /// The id the next watch will get.
    pub closed spec fn next_w_id(&self) -> u32 {
        self.next_watch_id
    }

    /// Breakpoint ids increase from the oldest breakpoint to the newest, and
    /// all stand below the next id; variable names and visualized type names
    /// are not registered twice.
    pub open spec fn wf(&self) -> bool {
        &&& forall|i: int, j: int|
            0 <= i < j < self.bps().len() ==> #[trigger] self.bps()[i].id < #[trigger] self.bps()[j].id
        &&& forall|i: int| 0 <= i < self.bps().len() ==> #[trigger] self.bps()[i].id < self.next_bp_id()
        &&& self.next_bp_id() >= 1
        &&& self.inspector().wf()
        &&& self.visualizers().wf()
    }

    /// A session with nothing set, not running.
    pub fn new() -> (r: Self)
        ensures
            r.wf(),
            r.bps().len() == 0,
            r.watch_list().len() == 0,
            r.next_bp_id() == 1,
            r.next_w_id() == 1,
            r.inspector().vars().len() == 0,
            r.flow().state() == ExecutionState::NotRunning,
    {
        DebuggerRuntime {
            breakpoints: Vec::new(),
            watches: Vec::new(),
            variable_inspector: VariableInspector::new(),
            flow_controller: FlowController::new(),
            type_visualizer: TypeVisualizer::with_default_visualizers(),
            next_breakpoint_id: 1,
            next_watch_id: 1,
        }
    }

    /// The id the next breakpoint will get.
    pub fn next_breakpoint_id(&self) -> (r: u32)
        ensures
            r == self.next_bp_id(),
    {
        self.next_breakpoint_id
    }

    /// The id the next watch will get.
    pub fn next_watch_id(&self) -> (r: u32)
        ensures
            r == self.next_w_id(),
    {
        self.next_watch_id
    }

    /// Starts the program.
    pub fn start(&mut self)
        requires
            old(self).wf(),
        ensures
            final(self).wf(),
            final(self).flow().state() == ExecutionState::Running,
            final(self).flow().action() == FlowControl::Continue,
            final(self).flow().frames().len() == 0,
            final(self).bps() == old(self).bps(),
            final(self).next_bp_id() == old(self).next_bp_id(),
    {
        self.flow_controller.start();
    }

    /// Stops the program.
    pub fn stop(&mut self)
        requires
            old(self).wf(),
        ensures
            final(self).wf(),
            final(self).flow().state() == ExecutionState::NotRunning,
            final(self).flow().point() is None,
            final(self).flow().frames().len() == 0,
            final(self).bps() == old(self).bps(),
            final(self).next_bp_id() == old(self).next_bp_id(),
    {
        self.flow_controller.stop();
    }

    fn push_breakpoint(&mut self, bp: Breakpoint)
        requires
            old(self).wf(),
            bp.id == old(self).next_bp_id(),
            old(self).next_bp_id() < u32::MAX,
        ensures
            final(self).wf(),
            final(self).bps() == old(self).bps().push(bp),
            final(self).next_bp_id() == old(self).next_bp_id() + 1,
            final(self).watch_list() == old(self).watch_list(),
            final(self).inspector() == old(self).inspector(),
            final(self).flow() == old(self).flow(),
            final(self).next_w_id() == old(self).next_w_id(),
    {
        self.next_breakpoint_id = self.next_breakpoint_id + 1;
        self.breakpoints.push(bp);
        assert(forall|i: int| 0 <= i < old(self).bps().len() ==> self.bps()[i] == old(self).bps()[i]);
    }

    /// Adds an unconditional breakpoint and returns its id.
    pub fn add_breakpoint(&mut self, file: &str, line: u32, column: u32) -> (r: u32)
        requires
            old(self).wf(),
            old(self).next_bp_id() < u32::MAX,
        ensures
            final(self).wf(),
            r == old(self).next_bp_id(),
            final(self).next_bp_id() == r + 1,
            final(self).bps().len() == old(self).bps().len() + 1,
            final(self).bps().drop_last() == old(self).bps(),
            final(self).bps().last().id == r,
            final(self).bps().last().file@ == file@,
            final(self).bps().last().line == line,
            final(self).bps().last().column == column,
            final(self).bps().last().enabled,
            final(self).bps().last().condition_mode is Always,
            final(self).bps().last().hit_count == 0,
            final(self).inspector() == old(self).inspector(),
    {
        let id = self.next_breakpoint_id;
        let bp = Breakpoint::new(file, line, column, id);
        self.push_breakpoint(bp);
        assert(self.bps().drop_last() =~= old(self).bps());
        id
    }

    /// Adds a breakpoint that pauses when `condition` holds.
    pub fn add_conditional_breakpoint(&mut self, file: &str, line: u32, column: u32, condition: &str) -> (r: u32)
        requires
            old(self).wf(),
            old(self).next_bp_id() < u32::MAX,
        ensures
            final(self).wf(),
            r == old(self).next_bp_id(),
            final(self).next_bp_id() == r + 1,
            final(self).bps().len() == old(self).bps().len() + 1,
            final(self).bps().drop_last() == old(self).bps(),
            final(self).bps().last().id == r,
            final(self).bps().last().file@ == file@,
            final(self).bps().last().line == line,
            final(self).bps().last().column == column,
            final(self).bps().last().enabled,
            final(self).bps().last().hit_count == 0,
            final(self).bps().last().condition_mode matches
                crate::breakpoints::BreakpointConditionMode::ConditionalExpression(e) && e@ == condition@,
            final(self).inspector() == old(self).inspector(),
    {
        let id = self.next_breakpoint_id;
        let bp = Breakpoint::new(file, line, column, id).with_condition(condition);
        self.push_breakpoint(bp);
        assert(self.bps().drop_last() =~= old(self).bps());
        id
    }

    /// Adds a breakpoint that pauses when the hit count meets the condition
    /// written in `hit_count_expr`. An id is used up even when the condition
    /// cannot be read.
    pub fn add_hit_count_breakpoint(
        &mut self,
        file: &str,
        line: u32,
        column: u32,
        hit_count_expr: &str,
    ) -> (r: Result<u32, DbugError>)
        requires
            old(self).wf(),
            old(self).next_bp_id() < u32::MAX,
        ensures
            final(self).wf(),
            final(self).next_bp_id() == old(self).next_bp_id() + 1,
            final(self).inspector() == old(self).inspector(),
            match parse_hit_condition(hit_count_expr@) {
                None => (r matches Err(DbugError::CliError(e)) && e@ == "Invalid hit count expression: "@
                    + hit_count_expr@) && final(self).bps() == old(self).bps(),
                Some(c) => r == Ok::<u32, DbugError>(old(self).next_bp_id())
                    && final(self).bps().len() == old(self).bps().len() + 1
                    && final(self).bps().drop_last() == old(self).bps()
                    && final(self).bps().last().id == old(self).next_bp_id()
                    && final(self).bps().last().file@ == file@
                    && final(self).bps().last().line == line
                    && final(self).bps().last().column == column
                    && final(self).bps().last().enabled
                    && final(self).bps().last().hit_count == 0
                    && final(self).bps().last().condition_mode
                    == crate::breakpoints::BreakpointConditionMode::HitCount(c),
            },
    {
        let id = self.next_breakpoint_id;
        match HitCountCondition::from_string(hit_count_expr) {
            None => {
                self.next_breakpoint_id = self.next_breakpoint_id + 1;
                let mut msg = String::from_str("Invalid hit count expression: ");
                msg.append(hit_count_expr);
                Err(DbugError::CliError(msg))
            },
            Some(c) => {
                let bp = Breakpoint::new(file, line, column, id).with_hit_count_condition(c);
                self.push_breakpoint(bp);
                assert(self.bps().drop_last() =~= old(self).bps());
                Ok(id)
            },
        }
    }

    /// Adds a breakpoint that pauses when `condition` holds and the hit count
    /// meets the condition written in `hit_count_expr`. An id is used up even
    /// when the hit-count condition cannot be read.
    pub fn add_combined_breakpoint(
        &mut self,
        file: &str,
        line: u32,
        column: u32,
        condition: &str,
        hit_count_expr: &str,
    ) -> (r: Result<u32, DbugError>)
        requires
            old(self).wf(),
            old(self).next_bp_id() < u32::MAX,
        ensures
            final(self).wf(),
            final(self).next_bp_id() == old(self).next_bp_id() + 1,
            final(self).inspector() == old(self).inspector(),
            match parse_hit_condition(hit_count_expr@) {
                None => (r matches Err(DbugError::CliError(e)) && e@ == "Invalid hit count expression: "@
                    + hit_count_expr@) && final(self).bps() == old(self).bps(),
                Some(c) => r == Ok::<u32, DbugError>(old(self).next_bp_id())
                    && final(self).bps().len() == old(self).bps().len() + 1
                    && final(self).bps().drop_last() == old(self).bps()
                    && final(self).bps().last().id == old(self).next_bp_id()
                    && final(self).bps().last().file@ == file@
                    && final(self).bps().last().line == line
                    && final(self).bps().last().column == column
                    && final(self).bps().last().enabled
                    && final(self).bps().last().hit_count == 0
                    && (final(self).bps().last().condition_mode matches
                    crate::breakpoints::BreakpointConditionMode::Combined { expression: e, hit_count: h }
                    && e@ == condition@ && h == c),
            },
    {
        let id = self.next_breakpoint_id;
        match HitCountCondition::from_string(hit_count_expr) {
            None => {
                self.next_breakpoint_id = self.next_breakpoint_id + 1;
                let mut msg = String::from_str("Invalid hit count expression: ");
                msg.append(hit_count_expr);
                Err(DbugError::CliError(msg))
            },
            Some(c) => {
                let bp = Breakpoint::new(file, line, column, id).with_combined_condition(condition, c);
                self.push_breakpoint(bp);
                assert(self.bps().drop_last() =~= old(self).bps());
                Ok(id)
            },
        }
    }

    /// Removes the breakpoint with `id`; false when there is none.
    pub fn remove_breakpoint(&mut self, id: u32) -> (r: bool)
        requires
            old(self).wf(),
        ensures
            final(self).wf(),
            r == exists|i: int| 0 <= i < old(self).bps().len() && #[trigger] old(self).bps()[i].id == id,
            r ==> exists|i: int|
                0 <= i < old(self).bps().len() && #[trigger] old(self).bps()[i].id == id
                    && final(self).bps() == old(self).bps().remove(i),
            !r ==> final(self).bps() == old(self).bps(),
            final(self).next_bp_id() == old(self).next_bp_id(),
            final(self).inspector() == old(self).inspector(),
    {
        let mut i: usize = 0;
        while i < self.breakpoints.len()
            invariant
                i <= self.bps().len(),
                self.bps() == old(self).bps(),
                self.next_bp_id() == old(self).next_bp_id(),
                self.inspector() == old(self).inspector(),
                self.wf(),
                forall|j: int| 0 <= j < i ==> #[trigger] self.bps()[j].id != id,
            decreases self.bps().len() - i,
        {
            if self.breakpoints[i].id == id {
                let ghost before = self.bps();
                self.breakpoints.remove(i);
                assert(forall|a: int| 0 <= a < self.bps().len() ==> #[trigger] self.bps()[a] == before[if a < i { a } else { a + 1 }]);
                return true;
            }
            i = i + 1;
        }
        false
    }

    /// Enables or disables the breakpoint with `id`; false when there is none.
    pub fn toggle_breakpoint(&mut self, id: u32, enabled: bool) -> (r: bool)
        requires
            old(self).wf(),
        ensures
            final(self).wf(),
            r == exists|i: int| 0 <= i < old(self).bps().len() && #[trigger] old(self).bps()[i].id == id,
            final(self).bps().len() == old(self).bps().len(),
            forall|i: int|
                0 <= i < old(self).bps().len() ==> #[trigger] final(self).bps()[i] == if old(self).bps()[i].id == id {
                    Breakpoint { enabled, ..old(self).bps()[i] }
                } else {
                    old(self).bps()[i]
                },
            final(self).next_bp_id() == old(self).next_bp_id(),
            final(self).inspector() == old(self).inspector(),
    {
        let mut i: usize = 0;
        while i < self.breakpoints.len()
            invariant
                i <= self.bps().len(),
                self.bps() == old(self).bps(),
                self.next_bp_id() == old(self).next_bp_id(),
                self.inspector() == old(self).inspector(),
                self.wf(),
                forall|j: int| 0 <= j < i ==> #[trigger] self.bps()[j].id != id,
            decreases self.bps().len() - i,
        {
            if self.breakpoints[i].id == id {
                let mut bp = self.breakpoints.remove(i);
                bp.enabled = enabled;
                self.breakpoints.insert(i, bp);
                assert(forall|j: int| 0 <= j < old(self).bps().len() && j != i ==> old(self).bps()[j].id != id) by {
                    assert(forall|j: int| 0 <= j < old(self).bps().len() && j != i ==> old(self).bps()[j].id != old(self).bps()[i as int].id);
                }
                return true;
            }
            i = i + 1;
        }
        false
    }

    /// The first breakpoint at `file` and `line`.
    pub fn find_breakpoint(&self, file: &str, line: u32) -> (r: Option<&Breakpoint>)
        ensures
            match r {
                Some(b) => exists|i: int|
                    0 <= i < self.bps().len() && #[trigger] self.bps()[i] == *b && at_location(*b, file@, line)
                        && forall|j: int| 0 <= j < i ==> !at_location(#[trigger] self.bps()[j], file@, line),
                None => forall|j: int| 0 <= j < self.bps().len() ==> !at_location(#[trigger] self.bps()[j], file@, line),
            },
    {
        let mut i: usize = 0;
        while i < self.breakpoints.len()
            invariant
                i <= self.bps().len(),
                forall|j: int| 0 <= j < i ==> !at_location(#[trigger] self.bps()[j], file@, line),
            decreases self.bps().len() - i,
        {
            if self.breakpoints[i].is_at_location(file, line) {
                return Some(&self.breakpoints[i]);
            }
            i = i + 1;
        }
        None
    }

    /// The breakpoint with `id`.
    pub fn find_breakpoint_by_id(&self, id: u32) -> (r: Option<&Breakpoint>)
        ensures
            match r {
                Some(b) => b.id == id && exists|i: int| 0 <= i < self.bps().len() && #[trigger] self.bps()[i] == *b,
                None => forall|j: int| 0 <= j < self.bps().len() ==> #[trigger] self.bps()[j].id != id,
            },
    {
        let mut i: usize = 0;
        while i < self.breakpoints.len()
            invariant
                i <= self.bps().len(),
                forall|j: int| 0 <= j < i ==> #[trigger] self.bps()[j].id != id,
            decreases self.bps().len() - i,
        {
            if self.breakpoints[i].id == id {
                return Some(&self.breakpoints[i]);
            }
            i = i + 1;
        }
        None
    }

    /// Records a reach of `file` and `line`: every breakpoint there counts
    /// one more hit, and the result tells whether any of them pauses.
    pub fn should_break_at(&mut self, file: &str, line: u32, column: u32) -> (r: bool)
        requires
            old(self).wf(),
        ensures
            final(self).wf(),
            break_outcome(old(self).bps(), final(self).bps(), old(self).inspector().vars(), file@, line, r),
            final(self).inspector() == old(self).inspector(),
            final(self).next_bp_id() == old(self).next_bp_id(),
            final(self).watch_list() == old(self).watch_list(),
            final(self).flow() == old(self).flow(),
    {
        let n = self.breakpoints.len();
        let mut result = false;
        let mut i: usize = 0;
        while i < n
            invariant
                i <= n == self.bps().len() == old(self).bps().len(),
                self.inspector() == old(self).inspector(),
                self.next_bp_id() == old(self).next_bp_id(),
                self.watch_list() == old(self).watch_list(),
                self.flow() == old(self).flow(),
                self.visualizers() == old(self).visualizers(),
                forall|j: int|
                    0 <= j < n ==> (#[trigger] self.bps()[j]).id == old(self).bps()[j].id,
                forall|j: int|
                    0 <= j < i ==> if at_location(old(self).bps()[j], file@, line) {
                        reached(old(self).bps()[j], #[trigger] self.bps()[j])
                    } else {
                        self.bps()[j] == old(self).bps()[j]
                    },
                forall|j: int| i <= j < n ==> #[trigger] self.bps()[j] == old(self).bps()[j],
                result == exists|j: int|
                    0 <= j < i && at_location(self.bps()[j], file@, line) && triggers(
                        #[trigger] self.bps()[j],
                        self.inspector().vars(),
                    ),
                old(self).wf(),
            decreases n - i,
        {
            let ghost prev = self.bps();
            let ghost prev_result = result;
            if self.breakpoints[i].is_at_location(file, line) {
                let mut bp = self.breakpoints.remove(i);
                bp.register_hit();
                let t = bp.should_trigger(&self.variable_inspector);
                self.breakpoints.insert(i, bp);
                proof {
                    assert(self.bps() =~= prev.update(i as int, bp));
                    assert(at_location(self.bps()[i as int], file@, line));
                    if prev_result {
                        let j0 = choose|j: int|
                            0 <= j < i && at_location(prev[j], file@, line) && triggers(
                                #[trigger] prev[j],
                                self.inspector().vars(),
                            );
                        assert(self.bps()[j0] == prev[j0]);
                    }
                    if t {
                        assert(triggers(self.bps()[i as int], self.inspector().vars()));
                    }
                    assert(forall|j: int| 0 <= j < i ==> #[trigger] self.bps()[j] == prev[j]);
                }
                if t {
                    result = true;
                }
            }
            i = i + 1;
        }
        result
    }

    /// Removes every breakpoint.
    pub fn clear_breakpoints(&mut self)
        requires
            old(self).wf(),
        ensures
            final(self).wf(),
            final(self).bps().len() == 0,
            final(self).next_bp_id() == old(self).next_bp_id(),
            final(self).inspector() == old(self).inspector(),
    {
        self.breakpoints.clear();
    }

    /// The breakpoints, oldest first.
    pub fn list_breakpoints(&self) -> (r: &[Breakpoint])
        ensures
            r@ == self.bps(),
    {
        self.breakpoints.as_slice()
    }

    /// Removes every disabled breakpoint, keeping the order of the others.
    pub fn clear_disabled_breakpoints(&mut self)
        requires
            old(self).wf(),
        ensures
            final(self).wf(),
            final(self).bps() == enabled_only(old(self).bps()),
            final(self).next_bp_id() == old(self).next_bp_id(),
            final(self).inspector() == old(self).inspector(),
    {
        let mut rest: Vec<Breakpoint> = Vec::new();
        std::mem::swap(&mut rest, &mut self.breakpoints);
        let ghost all = rest@;
        let n = rest.len();
        let mut kept: Vec<Breakpoint> = Vec::new();
        let mut i: usize = 0;
        while rest.len() > 0
            invariant
                n == all.len(),
                rest@.len() + i == n,
                rest@ =~= all.subrange(i as int, n as int),
                kept@ == enabled_only(all.subrange(0, i as int)),
                forall|k: int| 0 <= k < kept@.len() ==> exists|j: int| 0 <= j < i && #[trigger] all[j] == #[trigger] kept@[k],
                forall|a: int, b: int| 0 <= a < b < kept@.len() ==> #[trigger] kept@[a].id < #[trigger] kept@[b].id,
                forall|a: int, b: int| 0 <= a < b < all.len() ==> #[trigger] all[a].id < #[trigger] all[b].id,
                forall|a: int| 0 <= a < all.len() ==> #[trigger] all[a].id < old(self).next_bp_id(),
            decreases rest@.len(),
        {
            let bp = rest.remove(0);
            proof {
                let t = all.subrange(0, i as int + 1);
                assert(t.drop_last() =~= all.subrange(0, i as int));
                assert(bp == all[i as int]);
                assert forall|k: int| 0 <= k < kept@.len() implies kept@[k].id < bp.id by {
                    let j = choose|j: int| 0 <= j < i && #[trigger] all[j] == #[trigger] kept@[k];
                }
            }
            if bp.enabled {
                kept.push(bp);
            }
            i = i + 1;
        }
        assert(all.subrange(0, n as int) =~= all);
        self.breakpoints = kept;
        assert forall|k: int| 0 <= k < self.bps().len() implies #[trigger] self.bps()[k].id < self.next_bp_id() by {
            let j = choose|j: int| 0 <= j < n && #[trigger] all[j] == #[trigger] kept@[k];
        }
    }

    /// Adds a watch on `expression` and returns its id.
    pub fn add_watch(&mut self, expression: &str) -> (r: u32)
        requires
            old(self).wf(),
            old(self).next_w_id() < u32::MAX,
        ensures
            final(self).wf(),
            r == old(self).next_w_id(),
            final(self).next_w_id() == r + 1,
            final(self).watch_list().len() == old(self).watch_list().len() + 1,
            final(self).watch_list().drop_last() == old(self).watch_list(),
            final(self).watch_list().last().id == r,
            final(self).watch_list().last().expression@ == expression@,
            final(self).watch_list().last().enabled,
            final(self).watch_list().last().last_value is None,
            final(self).bps() == old(self).bps(),
            final(self).next_bp_id() == old(self).next_bp_id(),
            final(self).inspector() == old(self).inspector(),
    {
        let id = self.next_watch_id;
        self.next_watch_id = self.next_watch_id + 1;
        self.watches.push(WatchExpression::new(expression, id));
        assert(self.watch_list().drop_last() =~= old(self).watch_list());
        id
    }

    /// Removes the watches with `id`; false when there is none.
    pub fn remove_watch(&mut self, id: u32) -> (r: bool)
        requires
            old(self).wf(),
        ensures
            final(self).wf(),
            final(self).watch_list() == without_watch(old(self).watch_list(), id),
            r == (final(self).watch_list().len() < old(self).watch_list().len()),
            final(self).bps() == old(self).bps(),
            final(self).next_bp_id() == old(self).next_bp_id(),
            final(self).inspector() == old(self).inspector(),
    {
        let mut rest: Vec<WatchExpression> = Vec::new();
        std::mem::swap(&mut rest, &mut self.watches);
        let ghost all = rest@;
        let n = rest.len();
        let mut kept: Vec<WatchExpression> = Vec::new();
        let mut i: usize = 0;
        while rest.len() > 0
            invariant
                n == all.len(),
                rest@.len() + i == n,
                rest@ =~= all.subrange(i as int, n as int),
                kept@ == without_watch(all.subrange(0, i as int), id),
                kept@.len() <= i,
            decreases rest@.len(),
        {
            let w = rest.remove(0);
            proof {
                let t = all.subrange(0, i as int + 1);
                assert(t.drop_last() =~= all.subrange(0, i as int));
                assert(w == all[i as int]);
            }
            if w.id != id {
                kept.push(w);
            }
            i = i + 1;
        }
        assert(all.subrange(0, n as int) =~= all);
        let removed = kept.len() < n;
        self.watches = kept;
        removed
    }

    /// Evaluates every watch against the variables in scope and returns the
    /// shown texts, in the order of the watches.
    pub fn update_watches(&mut self) -> (r: Vec<String>)
        requires
            old(self).wf(),
        ensures
            final(self).wf(),
            r@.len() == old(self).watch_list().len(),
            final(self).watch_list().len() == old(self).watch_list().len(),
            forall|i: int|
                0 <= i < r@.len() ==> #[trigger] watch_step(
                    old(self).watch_list()[i],
                    final(self).watch_list()[i],
                    r@[i]@,
                    old(self).inspector().vars(),
                ),
            final(self).bps() == old(self).bps(),
            final(self).next_bp_id() == old(self).next_bp_id(),
            final(self).inspector() == old(self).inspector(),
    {
        let n = self.watches.len();
        let mut out: Vec<String> = Vec::new();
        let mut i: usize = 0;
        while i < n
            invariant
                i <= n == self.watch_list().len() == old(self).watch_list().len(),
                out@.len() == i,
                self.bps() == old(self).bps(),
                self.next_bp_id() == old(self).next_bp_id(),
                self.inspector() == old(self).inspector(),
                forall|j: int| i <= j < n ==> #[trigger] self.watch_list()[j] == old(self).watch_list()[j],
                self.visualizers() == old(self).visualizers(),
                forall|j: int|
                    0 <= j < i ==> #[trigger] watch_step(
                        old(self).watch_list()[j],
                        self.watch_list()[j],
                        out@[j]@,
                        old(self).inspector().vars(),
                    ),
            decreases n - i,
        {
            let ghost prev = self.watch_list();
            let ghost prev_out = out@;
            let mut w = self.watches.remove(i);
            let t = w.evaluate(&self.variable_inspector);
            self.watches.insert(i, w);
            out.push(t);
            proof {
                assert(self.watch_list() =~= prev.update(i as int, w));
                assert(watch_step(old(self).watch_list()[i as int], self.watch_list()[i as int], out@[i as int]@, old(self).inspector().vars()));
                assert forall|j: int| 0 <= j < i implies #[trigger] watch_step(
                    old(self).watch_list()[j],
                    self.watch_list()[j],
                    out@[j]@,
                    old(self).inspector().vars(),
                ) by {
                    assert(self.watch_list()[j] == prev[j]);
                    assert(out@[j] == prev_out[j]);
                }
            }
            i = i + 1;
        }
        out
    }

    /// The watches, oldest first.
    pub fn list_watches(&self) -> (r: &[WatchExpression])
        ensures
            r@ == self.watch_list(),
    {
        self.watches.as_slice()
    }

    /// Records the point reached, at the current call depth.
    pub fn update_execution_point(&mut self, file: &str, line: u32, column: u32, function: &str)
        requires
            old(self).wf(),
        ensures
            final(self).wf(),
            final(self).flow().point() matches Some(p) && p.file@ == file@ && p.line == line
                && p.column == column && p.function@ == function@ && p.stack_depth == depth_u32(
                old(self).flow().frames().len(),
            ),
            final(self).flow().state() == if old(self).flow().action() == FlowControl::StepOver
                || old(self).flow().action() == FlowControl::StepInto {
                ExecutionState::Paused
            } else {
                old(self).flow().state()
            },
            final(self).flow().action() == old(self).flow().action(),
            final(self).flow().frames() == old(self).flow().frames(),
            final(self).bps() == old(self).bps(),
            final(self).next_bp_id() == old(self).next_bp_id(),
            final(self).inspector() == old(self).inspector(),
    {
        let n = self.flow_controller.get_call_stack().depth();
        let depth: u32 = if n <= u32::MAX as usize {
            n as u32
        } else {
            u32::MAX
        };
        let point = ExecutionPoint::new(file, line, column, function, depth);
        self.flow_controller.update_execution_point(point);
    }

    /// Runs again with `control` as the next action.
    pub fn continue_execution(&mut self, control: FlowControl)
        requires
            old(self).wf(),
        ensures
            final(self).wf(),
            final(self).flow().state() == ExecutionState::Running,
            final(self).flow().action() == control,
            final(self).flow().frames() == old(self).flow().frames(),
            final(self).bps() == old(self).bps(),
            final(self).next_bp_id() == old(self).next_bp_id(),
            final(self).inspector() == old(self).inspector(),
    {
        self.flow_controller.resume(control);
    }

    /// Enters a call and a new variable scope.
    pub fn enter_function(&mut self, function: &str, file: &str, line: u32)
        requires
            old(self).wf(),
        ensures
            final(self).wf(),
            crate::flow_control::enter_outcome(old(self).flow(), final(self).flow(), function@, file@, line),
            final(self).inspector().vars() == old(self).inspector().vars(),
            final(self).inspector().scope() == if old(self).inspector().scope() < u32::MAX {
                old(self).inspector().scope() + 1
            } else {
                old(self).inspector().scope() as int
            },
            final(self).bps() == old(self).bps(),
            final(self).next_bp_id() == old(self).next_bp_id(),
            final(self).watch_list() == old(self).watch_list(),
    {
        self.flow_controller.enter_function(function, file, line);
        self.variable_inspector.enter_scope();
    }

    /// Leaves the innermost call and its variable scope.
    pub fn exit_function(&mut self)
        requires
            old(self).wf(),
        ensures
            final(self).wf(),
            exists|r: Option<StackFrame>| crate::flow_control::exit_outcome(old(self).flow(), final(self).flow(), r),
            final(self).inspector().vars() == crate::variables::kept_below(
                old(self).inspector().vars(),
                old(self).inspector().scope(),
            ),
            final(self).inspector().scope() == if old(self).inspector().scope() > 0 {
                old(self).inspector().scope() - 1
            } else {
                0
            },
            final(self).bps() == old(self).bps(),
            final(self).next_bp_id() == old(self).next_bp_id(),
            final(self).watch_list() == old(self).watch_list(),
    {
        let frame = self.flow_controller.exit_function();
        self.variable_inspector.exit_scope();
        assert(crate::flow_control::exit_outcome(old(self).flow(), self.flow(), frame));
    }

    /// Registers a variable in the current scope.
    pub fn register_variable(&mut self, variable: Variable)
        requires
            old(self).wf(),
        ensures
            final(self).wf(),
            final(self).inspector().vars() == if crate::variables::position_of(
                old(self).inspector().vars(),
                variable.name@,
            ) >= 0 {
                old(self).inspector().vars().update(
                    crate::variables::position_of(old(self).inspector().vars(), variable.name@),
                    variable,
                )
            } else {
                old(self).inspector().vars().push(variable)
            },
            final(self).bps() == old(self).bps(),
            final(self).next_bp_id() == old(self).next_bp_id(),
            final(self).flow() == old(self).flow(),
            final(self).watch_list() == old(self).watch_list(),
    {
        self.variable_inspector.register_variable(variable);
    }

    /// Sets the value of a registered variable.
    pub fn update_variable(&mut self, name: &str, value: VariableValue) -> (r: Result<(), String>)
        requires
            old(self).wf(),
        ensures
            final(self).wf(),
            crate::variables::update_outcome(old(self).inspector(), final(self).inspector(), name@, value, r),
            final(self).inspector().scope() == old(self).inspector().scope(),
            final(self).bps() == old(self).bps(),
            final(self).next_bp_id() == old(self).next_bp_id(),
            final(self).flow() == old(self).flow(),
            final(self).watch_list() == old(self).watch_list(),
    {
        self.variable_inspector.update_variable(name, value)
    }

    /// The execution state.
    pub fn get_execution_state(&self) -> (r: ExecutionState)
        ensures
            r == self.flow().state(),
    {
        self.flow_controller.get_state()
    }

    /// The last recorded execution point.
    pub fn get_current_point(&self) -> (r: Option<&ExecutionPoint>)
        ensures
            match r {
                Some(p) => self.flow().point() == Some(*p),
                None => self.flow().point() is None,
            },
    {
        self.flow_controller.get_current_point()
    }

    /// The active calls, outermost first.
    pub fn get_frames(&self) -> (r: &[StackFrame])
        ensures
            r@ == self.flow().frames(),
    {
        self.flow_controller.get_call_stack().get_frames()
    }

    /// The variables in scope, in order of registration.
    pub fn get_variables(&self) -> (r: &Vec<Variable>)
        ensures
            r@ == self.inspector().vars(),
    {
        self.variable_inspector.get_all_variables()
    }

    /// The first variable named `name`.
    pub fn get_variable(&self, name: &str) -> (r: Option<&Variable>)
        ensures
            match r {
                Some(v) => crate::variables::position_of(self.inspector().vars(), name@) >= 0 && *v
                    == self.inspector().vars()[crate::variables::position_of(self.inspector().vars(), name@)],
                None => crate::variables::position_of(self.inspector().vars(), name@) == -1,
            },
    {
        self.variable_inspector.get_variable(name)
    }

    /// The variables updated since the last call.
    pub fn get_changed_variables(&mut self) -> (r: Vec<&Variable>)
        requires
            old(self).wf(),
        ensures
            final(self).wf(),
            r@.map_values(|v: &Variable| *v) == crate::variables::lookup_all(
                old(self).inspector().changed(),
                old(self).inspector().vars(),
            ),
    {
        self.variable_inspector.get_changed_variables()
    }

    /// Marks all variables unchanged and acknowledges every watch change.
    pub fn reset_change_tracking(&mut self)
        requires
            old(self).wf(),
        ensures
            final(self).wf(),
            final(self).watch_list().len() == old(self).watch_list().len(),
            forall|i: int|
                0 <= i < old(self).watch_list().len() ==> #[trigger] final(self).watch_list()[i] == (
                WatchExpression { has_changed: false, ..old(self).watch_list()[i] }),
            final(self).inspector().vars().len() == old(self).inspector().vars().len(),
            forall|j: int|
                0 <= j < old(self).inspector().vars().len() ==> #[trigger] final(self).inspector().vars()[j]
                    == (Variable {
                    change_status: crate::variables::ChangeStatus::Unchanged,
                    ..old(self).inspector().vars()[j]
                }),
            final(self).bps() == old(self).bps(),
            final(self).next_bp_id() == old(self).next_bp_id(),
    {
        self.variable_inspector.reset_change_status();
        let n = self.watches.len();
        let mut i: usize = 0;
        while i < n
            invariant
                i <= n == self.watch_list().len() == old(self).watch_list().len(),
                self.bps() == old(self).bps(),
                self.next_bp_id() == old(self).next_bp_id(),
                self.inspector().vars().len() == old(self).inspector().vars().len(),
                self.visualizers() == old(self).visualizers(),
                forall|j: int|
                    0 <= j < old(self).inspector().vars().len() ==> #[trigger] self.inspector().vars()[j]
                        == (Variable {
                        change_status: crate::variables::ChangeStatus::Unchanged,
                        ..old(self).inspector().vars()[j]
                    }),
                forall|j: int|
                    0 <= j < i ==> #[trigger] self.watch_list()[j] == (WatchExpression {
                        has_changed: false,
                        ..old(self).watch_list()[j]
                    }),
                forall|j: int| i <= j < n ==> #[trigger] self.watch_list()[j] == old(self).watch_list()[j],
            decreases n - i,
        {
            let mut w = self.watches.remove(i);
            w.acknowledge_change();
            self.watches.insert(i, w);
            i = i + 1;
        }
    }

    /// The view of the variable named `name`: the view registered for its
    /// type, which is `None` when it does not apply to the value, or else its
    /// composite view.
    pub fn visualize_variable(&self, name: &str) -> (r: Option<String>)
        ensures
            ({
                let p = position_of(self.inspector().vars(), name@);
                if p >= 0 {
                    let var = self.inspector().vars()[p];
                    let reg = self.visualizers().entries();
                    if crate::visualizer::kind_position(reg, var.type_label@) >= 0 {
                        match r {
                            Some(t) => registered_view(reg, var) == Some(t@),
                            None => registered_view(reg, var) is None,
                        }
                    } else {
                        r matches Some(t) && t@ == composite_text(reg, var.type_label@, var, 0)
                    }
                } else {
                    r is None
                }
            }),
    {
        let variable = match self.variable_inspector.get_variable(name) {
            Some(v) => v,
            None => {
                return None;
            },
        };
        if self.type_visualizer.has_visualizer(variable.type_label.as_str()) {
            self.type_visualizer.visualize(variable)
        } else {
            Some(self.type_visualizer.create_composite_visualization(variable.type_label.as_str(), variable, 0))
        }
    }

    /// Registers view `kind` for type name `type_key`.
    pub fn register_type_visualizer(&mut self, type_key: &str, kind: VisualizerKind)
        requires
            old(self).wf(),
        ensures
            final(self).wf(),
            final(self).bps() == old(self).bps(),
            final(self).next_bp_id() == old(self).next_bp_id(),
            final(self).inspector() == old(self).inspector(),
            final(self).watch_list() == old(self).watch_list(),
            final(self).flow() == old(self).flow(),
    {
        self.type_visualizer.register_visualizer(type_key, kind);
    }
}

/// `after` is `before` once `file` and `line` were reached with `vars` in
/// scope: each breakpoint there counted one more hit, the others stayed, and
/// `r` tells whether one of those reached pauses.
pub open spec fn break_outcome(
    before: Seq<Breakpoint>,
    after: Seq<Breakpoint>,
    vars: Seq<Variable>,
    file: Seq<char>,
    line: u32,
    r: bool,
) -> bool {
    &&& after.len() == before.len()
    &&& forall|i: int|
        0 <= i < before.len() ==> if at_location(before[i], file, line) {
            reached(before[i], #[trigger] after[i])
        } else {
            after[i] == before[i]
        }
    &&& r == exists|i: int|
        0 <= i < after.len() && at_location(after[i], file, line) && triggers(
            #[trigger] after[i],
            vars,
        )
}

/// `b` is watch `a` after one evaluation against `vars` that showed `text`.
pub open spec fn watch_step(a: WatchExpression, b: WatchExpression, text: Seq<char>, vars: Seq<Variable>) -> bool {
    if a.enabled {
        text == watch_text(a.expression@, vars) && recorded(a, b, text)
    } else {
        text == crate::breakpoints::disabled_text() && b == a
    }
}

/// The enabled breakpoints of `s`, in order.
pub open spec fn enabled_only(s: Seq<Breakpoint>) -> Seq<Breakpoint>
    decreases s.len(),
{
    if s.len() == 0 {
        Seq::empty()
    } else if s.last().enabled {
        enabled_only(s.drop_last()).push(s.last())
    } else {
        enabled_only(s.drop_last())
    }
}

/// The watches of `s` whose id is not `id`, in order.
pub open spec fn without_watch(s: Seq<WatchExpression>, id: u32) -> Seq<WatchExpression>
    decreases s.len(),
{
    if s.len() == 0 {
        Seq::empty()
    } else if s.last().id != id {
        without_watch(s.drop_last(), id).push(s.last())
    } else {
        without_watch(s.drop_last(), id)
    }
}

} // verus!