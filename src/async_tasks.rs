//! The registry of asynchronous tasks: ids, states, the task running on the
//! caller's side, and the parent/child tree.
use vstd::prelude::*;
use vstd::string::StringExecFns;
use crate::channel::DebuggerMessage;
use crate::clock::now_millis;
use crate::text::{nat_text, push_nat};

verus! {

/// The id of an asynchronous task.
pub type TaskId = u64;

/// The life-cycle state of an asynchronous task.
#[derive(Clone, Copy, Debug, PartialEq, Eq, Structural)]
pub enum AsyncTaskState {
    Created,
    Running,
    Waiting,
    Completed,
    Cancelled,
}

/// The name of a task state.
pub open spec fn state_text(s: AsyncTaskState) -> Seq<char> {
    match s {
        AsyncTaskState::Created => "Created"@,
        AsyncTaskState::Running => "Running"@,
        AsyncTaskState::Waiting => "Waiting"@,
        AsyncTaskState::Completed => "Completed"@,
        AsyncTaskState::Cancelled => "Cancelled"@,
    }
}

impl AsyncTaskState {
    /// The name of this state.
    pub fn to_string(&self) -> (r: String)
        ensures
            r@ == state_text(*self),
    {
        match self {
            AsyncTaskState::Created => String::from_str("Created"),
            AsyncTaskState::Running => String::from_str("Running"),
            AsyncTaskState::Waiting => String::from_str("Waiting"),
            AsyncTaskState::Completed => String::from_str("Completed"),
            AsyncTaskState::Cancelled => String::from_str("Cancelled"),
        }
    }
}

/// What the registry knows of one task.
#[derive(Debug)]
pub struct AsyncTaskInfo {
    pub id: TaskId,
    pub function_name: String,
    /// Wall-clock milliseconds at registration.
    pub created_at: u64,
    pub state: AsyncTaskState,
    pub parent_id: Option<TaskId>,
}

/// The text that `humantime` gives for a duration of `ms` milliseconds.
pub uninterp spec fn duration_text(ms: nat) -> Seq<char>;

/// Relies on `humantime::format_duration`: the human-readable form of a
/// duration, which depends on the duration alone; zero reads `0s`.
#[verifier::external_body]
fn format_elapsed(ms: u64) -> (r: String)
    ensures
        r@ == duration_text(ms as nat),
        ms == 0 ==> r@ == "0s"@,
{
    humantime::format_duration(std::time::Duration::from_millis(ms)).to_string()
}

/// Milliseconds from `since` to `now`, or zero when the clock went back.
pub open spec fn elapsed(since: u64, now: u64) -> nat {
    if now >= since {
        (now - since) as nat
    } else {
        0
    }
}

/// `depth` levels of indentation.
pub open spec fn indent(depth: nat) -> Seq<char>
    decreases depth,
{
    if depth == 0 {
        Seq::empty()
    } else {
        indent((depth - 1) as nat) + "  "@
    }
}

/// The line that shows task `t` at `depth`, at time `now`.
pub open spec fn task_line(t: AsyncTaskInfo, depth: nat, now: u64) -> Seq<char> {
    indent(depth) + "\u{2514}\u{2500} Task "@ + nat_text(t.id as nat) + " ("@ + t.function_name@
        + "): "@ + state_text(t.state) + " ["@ + duration_text(elapsed(t.created_at, now)) + "]\n"@
}

/// The tasks shown under `parent` at `depth`, looking at the tasks from
/// index `i` on: each child, then its own subtree, in registry order.
/// `fuel` bounds the depth of the walk.
pub open spec fn tree_items(
    ts: Seq<AsyncTaskInfo>,
    parent: Option<TaskId>,
    depth: nat,
    fuel: nat,
    i: int,
) -> Seq<(int, nat)>
    decreases fuel, ts.len() - i,
{
    if i < 0 || i >= ts.len() {
        Seq::empty()
    } else if ts[i].parent_id == parent {
        seq![(i, depth)] + (if fuel > 0 {
            tree_items(ts, Some(ts[i].id), depth + 1, (fuel - 1) as nat, 0)
        } else {
            Seq::empty()
        }) + tree_items(ts, parent, depth, fuel, i + 1)
    } else {
        tree_items(ts, parent, depth, fuel, i + 1)
    }
}

/// The order in which the tree shows the tasks, each with its depth: the
/// root tasks, each followed by its descendants.
pub open spec fn tree_listing(ts: Seq<AsyncTaskInfo>) -> Seq<(int, nat)> {
    tree_items(ts, None, 0, ts.len(), 0)
}

/// The lines that show the tasks listed in `l`.
pub open spec fn lines_text(ts: Seq<AsyncTaskInfo>, l: Seq<(int, nat)>, now: u64) -> Seq<char>
    decreases l.len(),
{
    if l.len() == 0 {
        Seq::empty()
    } else {
        lines_text(ts, l.drop_last(), now) + task_line(ts[l.last().0], l.last().1, now)
    }
}

/// The text of the task tree at time `now`.
pub open spec fn tree_text(ts: Seq<AsyncTaskInfo>, now: u64) -> Seq<char> {
    "Async Task Tree:\n"@ + lines_text(ts, tree_listing(ts), now)
}

proof fn lemma_lines_concat(ts: Seq<AsyncTaskInfo>, a: Seq<(int, nat)>, b: Seq<(int, nat)>, now: u64)
    ensures
        lines_text(ts, a + b, now) == lines_text(ts, a, now) + lines_text(ts, b, now),
    decreases b.len(),
{
    if b.len() == 0 {
        assert(a + b =~= a);
    } else {
        lemma_lines_concat(ts, a, b.drop_last(), now);
        assert((a + b).drop_last() =~= a + b.drop_last());
        assert((a + b).last() == b.last());
    }
}

/// Every task listed in `l` is a child of `parent` shown at `depth`, or a
/// task bearing its parent's id is listed before it, one level shallower.
pub open spec fn listed_parent_first(
    ts: Seq<AsyncTaskInfo>,
    l: Seq<(int, nat)>,
    parent: Option<TaskId>,
    depth: nat,
) -> bool {
    forall|q: int|
        0 <= q < l.len() ==> 0 <= (#[trigger] l[q]).0 < ts.len() && ((ts[l[q].0].parent_id == parent
            && l[q].1 == depth) || exists|p: int|
            0 <= p < q && Some(ts[l[p].0].id) == ts[l[q].0].parent_id && l[p].1 + 1 == l[q].1)
}

pub proof fn lemma_tree_items_parent_first(
    ts: Seq<AsyncTaskInfo>,
    parent: Option<TaskId>,
    depth: nat,
    fuel: nat,
    i: int,
)
    ensures
        listed_parent_first(ts, tree_items(ts, parent, depth, fuel, i), parent, depth),
    decreases fuel, ts.len() - i,
{
    if i < 0 || i >= ts.len() {
    } else if ts[i].parent_id == parent {
        let sub = if fuel > 0 {
            tree_items(ts, Some(ts[i].id), depth + 1, (fuel - 1) as nat, 0)
        } else {
            Seq::empty()
        };
        let rest = tree_items(ts, parent, depth, fuel, i + 1);
        if fuel > 0 {
            lemma_tree_items_parent_first(ts, Some(ts[i].id), depth + 1, (fuel - 1) as nat, 0);
        }
        lemma_tree_items_parent_first(ts, parent, depth, fuel, i + 1);
        let l = seq![(i, depth)] + sub + rest;
        assert(l == tree_items(ts, parent, depth, fuel, i));
        assert forall|q: int| 0 <= q < l.len() implies 0 <= (#[trigger] l[q]).0 < ts.len() && ((
        ts[l[q].0].parent_id == parent && l[q].1 == depth) || exists|p: int|
            0 <= p < q && Some(ts[l[p].0].id) == ts[l[q].0].parent_id && l[p].1 + 1 == l[q].1) by {
            if q == 0 {
            } else if q < 1 + sub.len() {
                assert(l[q] == sub[q - 1]);
                if ts[sub[q - 1].0].parent_id == Some(ts[i].id) && sub[q - 1].1 == depth + 1 {
                    assert(l[0] == (i, depth));
                } else {
                    let p0 = choose|p: int|
                        0 <= p < q - 1 && Some(ts[sub[p].0].id) == ts[sub[q - 1].0].parent_id
                            && sub[p].1 + 1 == sub[q - 1].1;
                    assert(l[p0 + 1] == sub[p0]);
                }
            } else {
                let k = q - 1 - sub.len();
                assert(l[q] == rest[k]);
                if !(ts[rest[k].0].parent_id == parent && rest[k].1 == depth) {
                    let p0 = choose|p: int|
                        0 <= p < k && Some(ts[rest[p].0].id) == ts[rest[k].0].parent_id && rest[p].1
                            + 1 == rest[k].1;
                    assert(l[p0 + 1 + sub.len()] == rest[p0]);
                }
            }
        }
    } else {
        lemma_tree_items_parent_first(ts, parent, depth, fuel, i + 1);
    }
}


fn push_indent(out: &mut String, depth: usize)
    ensures
        final(out)@ == old(out)@ + indent(depth as nat),
    decreases depth,
{
    if depth > 0 {
        push_indent(out, depth - 1);
        out.append("  ");
    }
    assert(final(out)@ =~= old(out)@ + indent(depth as nat));
}

fn push_task_line(out: &mut String, t: &AsyncTaskInfo, depth: usize, now: u64)
    ensures
        final(out)@ == old(out)@ + task_line(*t, depth as nat, now),
{
    let ghost start = out@;
    push_indent(out, depth);
    out.append("\u{2514}\u{2500} Task ");
    push_nat(out, t.id);
    out.append(" (");
    out.append(t.function_name.as_str());
    out.append("): ");
    let st = t.state.to_string();
    out.append(st.as_str());
    out.append(" [");
    let ms = if now >= t.created_at {
        now - t.created_at
    } else {
        0
    };
    let d = format_elapsed(ms);
    out.append(d.as_str());
    out.append("]\n");
    assert(out@ =~= start + task_line(*t, depth as nat, now));
}

fn write_children(
    ts: &Vec<AsyncTaskInfo>,
    parent: Option<TaskId>,
    depth: usize,
    fuel: usize,
    out: &mut String,
    now: u64,
)
    requires
        depth + fuel <= usize::MAX,
    ensures
        final(out)@ == old(out)@ + lines_text(ts@, tree_items(ts@, parent, depth as nat, fuel as nat, 0), now),
    decreases fuel, 1int,
{
    let ghost start = out@;
    let ghost whole = tree_items(ts@, parent, depth as nat, fuel as nat, 0);
    let n = ts.len();
    let mut i: usize = 0;
    assert(start + lines_text(ts@, whole, now) == out@ + lines_text(ts@, tree_items(ts@, parent, depth as nat, fuel as nat, 0), now));
    while i < n
        invariant
            n == ts@.len(),
            i <= n,
            depth + fuel <= usize::MAX,
            whole == tree_items(ts@, parent, depth as nat, fuel as nat, 0),
            start + lines_text(ts@, whole, now) == out@ + lines_text(
                ts@,
                tree_items(ts@, parent, depth as nat, fuel as nat, i as int),
                now,
            ),
        decreases n - i,
    {
        let ghost before = out@;
        let ghost rest = tree_items(ts@, parent, depth as nat, fuel as nat, i as int + 1);
        if ts[i].parent_id == parent {
            let ghost sub = if fuel > 0 {
                tree_items(ts@, Some(ts@[i as int].id), depth as nat + 1, (fuel - 1) as nat, 0)
            } else {
                Seq::empty()
            };
            push_task_line(out, &ts[i], depth, now);
            if fuel > 0 {
                write_children(ts, Some(ts[i].id), depth + 1, fuel - 1, out, now);
            }
            proof {
                let head = seq![(i as int, depth as nat)];
                assert(tree_items(ts@, parent, depth as nat, fuel as nat, i as int) == head + sub + rest);
                lemma_lines_concat(ts@, head + sub, rest, now);
                lemma_lines_concat(ts@, head, sub, now);
                assert(head.drop_last() =~= Seq::<(int, nat)>::empty());
                assert(lines_text(ts@, Seq::<(int, nat)>::empty(), now) == Seq::<char>::empty());
                assert(head.last() == (i as int, depth as nat));
                assert(lines_text(ts@, head, now) =~= task_line(ts@[i as int], depth as nat, now));
                if fuel == 0 {
                    assert(out@ =~= before + lines_text(ts@, head, now) + lines_text(ts@, sub, now));
                }
                assert(out@ =~= before + lines_text(ts@, head, now) + lines_text(ts@, sub, now));
            }
        }
        i = i + 1;
    }
}

/// The registry of asynchronous tasks of one process.
#[derive(Debug)]
pub struct AsyncTaskRegistry {
    tasks: Vec<AsyncTaskInfo>,
    next_task_id: TaskId,
    current_task: Option<TaskId>,
}

/// The index of the first task with `id` in `ts`, or -1.
pub open spec fn task_position(ts: Seq<AsyncTaskInfo>, id: TaskId) -> int
    decreases ts.len(),
{
    if ts.len() == 0 {
        -1
    } else if task_position(ts.drop_last(), id) >= 0 {
        task_position(ts.drop_last(), id)
    } else if ts.last().id == id {
        ts.len() - 1
    } else {
        -1
    }
}

/// Whether no two tasks of `ts` share an id.
pub open spec fn ids_unique(ts: Seq<AsyncTaskInfo>) -> bool {
    forall|i: int, j: int| 0 <= i < j < ts.len() ==> #[trigger] ts[i].id != #[trigger] ts[j].id
}

proof fn lemma_absent_task(ts: Seq<AsyncTaskInfo>, id: TaskId)
    requires
        task_position(ts, id) == -1,
    ensures
        forall|i: int| 0 <= i < ts.len() ==> #[trigger] ts[i].id != id,
    decreases ts.len(),
{
    if ts.len() > 0 {
        lemma_absent_task(ts.drop_last(), id);
        assert forall|i: int| 0 <= i < ts.len() implies #[trigger] ts[i].id != id by {
            if i < ts.len() - 1 {
                assert(ts.drop_last()[i] == ts[i]);
            }
        }
    }
}

proof fn lemma_task_position_bounds(ts: Seq<AsyncTaskInfo>, id: TaskId)
    ensures
        -1 <= task_position(ts, id) < ts.len(),
        task_position(ts, id) >= 0 ==> ts[task_position(ts, id)].id == id,
    decreases ts.len(),
{
    if ts.len() > 0 {
        lemma_task_position_bounds(ts.drop_last(), id);
    }
}

proof fn lemma_task_prefix(ts: Seq<AsyncTaskInfo>, id: TaskId, i: int)
    requires
        0 <= i < ts.len(),
        task_position(ts.subrange(0, i), id) == -1,
        ts[i].id == id,
    ensures
        task_position(ts, id) == i,
    decreases ts.len(),
{
    let t = ts.subrange(0, i + 1);
    assert(t.drop_last() =~= ts.subrange(0, i));
    if ts.len() > i + 1 {
        assert(ts.drop_last().subrange(0, i) =~= ts.subrange(0, i));
        lemma_task_prefix(ts.drop_last(), id, i);
    } else {
        assert(t =~= ts);
    }
}

fn find_task(ts: &Vec<AsyncTaskInfo>, id: TaskId) -> (r: Option<usize>)
    ensures
        match r {
            Some(i) => task_position(ts@, id) == i as int && i < ts@.len(),
            None => task_position(ts@, id) == -1,
        },
{
    let mut i: usize = 0;
    while i < ts.len()
        invariant
            i <= ts@.len(),
            task_position(ts@.subrange(0, i as int), id) == -1,
        decreases ts@.len() - i,
    {
        let t = Ghost(ts@.subrange(0, i as int + 1));
        assert(t@.drop_last() =~= ts@.subrange(0, i as int));
        if ts[i].id == id {
            proof {
                lemma_task_prefix(ts@, id, i as int);
            }
            return Some(i);
        }
        i = i + 1;
    }
    assert(ts@.subrange(0, ts@.len() as int) =~= ts@);
    None
}

impl AsyncTaskRegistry {
    /// No two registered tasks share an id.
    pub open spec fn wf(&self) -> bool {
        ids_unique(self.tasks())
    }

    /// The registered tasks, in order of first registration.
    pub closed spec fn tasks(&self) -> Seq<AsyncTaskInfo> {
        self.tasks@
    }

    /// The id the next generated task gets.
    pub closed spec fn next_id(&self) -> TaskId {
        self.next_task_id
    }

    /// The task the caller runs, if set.
    pub closed spec fn current(&self) -> Option<TaskId> {
        self.current_task
    }

    /// An empty registry whose first id is 1.
    pub fn new() -> (r: Self)
        ensures
            r.wf(),
            r.tasks().len() == 0,
            r.next_id() == 1,
            r.current() is None,
    {
        AsyncTaskRegistry { tasks: Vec::new(), next_task_id: 1, current_task: None }
    }

    /// The id the next generated task gets.
    pub fn next_task_id(&self) -> (r: TaskId)
        ensures
            r == self.next_id(),
    {
        self.next_task_id
    }

    /// Issues a new id and makes it the current task.
    pub fn generate_async_task_id(&mut self) -> (r: TaskId)
        requires
            old(self).next_id() < u64::MAX,
        ensures
            r == old(self).next_id(),
            final(self).next_id() == r + 1,
            final(self).current() == Some(r),
            final(self).tasks() == old(self).tasks(),
    {
        let id = self.next_task_id;
        self.next_task_id = self.next_task_id + 1;
        self.current_task = Some(id);
        id
    }

    /// The current task, issuing a new id when none is set.
    pub fn get_current_async_task_id(&mut self) -> (r: TaskId)
        requires
            old(self).next_id() < u64::MAX,
        ensures
            old(self).current() matches Some(c) ==> r == c && *final(self) == *old(self),
            old(self).current() is None ==> r == old(self).next_id() && final(self).next_id() == r + 1
                && final(self).current() == Some(r) && final(self).tasks() == old(self).tasks(),
    {
        match self.current_task {
            Some(id) => id,
            None => self.generate_async_task_id(),
        }
    }

    /// Makes `id` the current task.
    pub fn set_current_async_task_id(&mut self, id: TaskId)
        ensures
            final(self).current() == Some(id),
            final(self).next_id() == old(self).next_id(),
            final(self).tasks() == old(self).tasks(),
    {
        self.current_task = Some(id);
    }

    /// Forgets the current task.
    pub fn clear_current_async_task_id(&mut self)
        ensures
            final(self).current() is None,
            final(self).next_id() == old(self).next_id(),
            final(self).tasks() == old(self).tasks(),
    {
        self.current_task = None;
    }

    /// Registers a task in state `Created`, replacing one with the same id,
    /// and returns the event that announces it.
    pub fn register_async_task(&mut self, function_name: &str, task_id: TaskId, parent_id: Option<TaskId>) -> (r: DebuggerMessage)
        requires
            old(self).wf(),
        ensures
            final(self).wf(),
            ({
                let p = task_position(old(self).tasks(), task_id);
                let t = if p >= 0 {
                    final(self).tasks()[p]
                } else {
                    final(self).tasks().last()
                };
                &&& t.id == task_id
                &&& t.function_name@ == function_name@
                &&& t.state == AsyncTaskState::Created
                &&& t.parent_id == parent_id
                &&& if p >= 0 {
                    final(self).tasks() == old(self).tasks().update(p, t)
                } else {
                    final(self).tasks() == old(self).tasks().push(t)
                }
            }),
            r matches DebuggerMessage::AsyncTaskCreated { function_name: f, task_id: i, parent_id: q }
                && f@ == function_name@ && i == task_id && q == parent_id,
            final(self).next_id() == old(self).next_id(),
            final(self).current() == old(self).current(),
    {
        let info = AsyncTaskInfo {
            id: task_id,
            function_name: String::from_str(function_name),
            created_at: now_millis(),
            state: AsyncTaskState::Created,
            parent_id,
        };
        proof {
            lemma_task_position_bounds(self.tasks@, task_id);
        }
        match find_task(&self.tasks, task_id) {
            Some(i) => {
                self.tasks.set(i, info);
                assert forall|a: int, b: int| 0 <= a < b < self.tasks().len() implies #[trigger] self.tasks()[a].id
                    != #[trigger] self.tasks()[b].id by {
                    assert(old(self).tasks()[a].id != old(self).tasks()[b].id);
                }
            },
            None => {
                proof {
                    lemma_absent_task(self.tasks@, task_id);
                }
                self.tasks.push(info);
                assert forall|a: int, b: int| 0 <= a < b < self.tasks().len() implies #[trigger] self.tasks()[a].id
                    != #[trigger] self.tasks()[b].id by {
                    assert(self.tasks()[a] == old(self).tasks()[a]);
                    if b < old(self).tasks().len() {
                        assert(self.tasks()[b] == old(self).tasks()[b]);
                    }
                }
            },
        }
        DebuggerMessage::AsyncTaskCreated {
            function_name: String::from_str(function_name),
            task_id,
            parent_id,
        }
    }

    /// Moves task `task_id` to `state` and returns the event that announces
    /// the change; an unknown id changes nothing.
    pub fn update_async_task_state(&mut self, task_id: TaskId, state: AsyncTaskState) -> (r: Option<DebuggerMessage>)
        requires
            old(self).wf(),
        ensures
            final(self).wf(),
            ({
                let p = task_position(old(self).tasks(), task_id);
                if p >= 0 {
                    let t = old(self).tasks()[p];
                    &&& final(self).tasks() == old(self).tasks().update(p, AsyncTaskInfo { state, ..t })
                    &&& r matches Some(DebuggerMessage::AsyncTaskStateChanged { task_id: i, old_state: o, new_state: n })
                        && i == task_id && o@ == state_text(t.state) && n@ == state_text(state)
                } else {
                    r is None && final(self).tasks() == old(self).tasks()
                }
            }),
            final(self).next_id() == old(self).next_id(),
            final(self).current() == old(self).current(),
    {
        proof {
            lemma_task_position_bounds(self.tasks@, task_id);
        }
        match find_task(&self.tasks, task_id) {
            Some(i) => {
                let mut t = self.tasks.remove(i);
                let old_state = t.state;
                t.state = state;
                self.tasks.insert(i, t);
                assert(self.tasks@ =~= old(self).tasks@.update(i as int, t));
                assert forall|a: int, b: int| 0 <= a < b < self.tasks().len() implies #[trigger] self.tasks()[a].id
                    != #[trigger] self.tasks()[b].id by {
                    assert(old(self).tasks()[a].id != old(self).tasks()[b].id);
                }
                Some(DebuggerMessage::AsyncTaskStateChanged {
                    task_id,
                    old_state: old_state.to_string(),
                    new_state: state.to_string(),
                })
            },
            None => None,
        }
    }

    /// Marks task `task_id` completed.
    pub fn complete_async_task(&mut self, task_id: TaskId) -> (r: Option<DebuggerMessage>)
        requires
            old(self).wf(),
        ensures
            final(self).wf(),
            ({
                let p = task_position(old(self).tasks(), task_id);
                if p >= 0 {
                    &&& final(self).tasks() == old(self).tasks().update(
                        p,
                        AsyncTaskInfo { state: AsyncTaskState::Completed, ..old(self).tasks()[p] },
                    )
                    &&& r is Some
                } else {
                    r is None && final(self).tasks() == old(self).tasks()
                }
            }),
            final(self).next_id() == old(self).next_id(),
            final(self).current() == old(self).current(),
    {
        self.update_async_task_state(task_id, AsyncTaskState::Completed)
    }

    /// The task with `task_id`, if registered.
    pub fn get_async_task_info(&self, task_id: TaskId) -> (r: Option<&AsyncTaskInfo>)
        ensures
            match r {
                Some(t) => task_position(self.tasks(), task_id) >= 0 && *t == self.tasks()[task_position(self.tasks(), task_id)],
                None => task_position(self.tasks(), task_id) == -1,
            },
    {
        proof {
            lemma_task_position_bounds(self.tasks@, task_id);
        }
        match find_task(&self.tasks, task_id) {
            Some(i) => Some(&self.tasks[i]),
            None => None,
        }
    }

    /// Every registered task, in order of first registration.
    pub fn get_all_async_tasks(&self) -> (r: &Vec<AsyncTaskInfo>)
        ensures
            r@ == self.tasks(),
    {
        &self.tasks
    }

    /// The task tree as it reads at time `now`: a heading, then each root
    /// task followed by its descendants, one indented line per task.
    pub fn render_task_tree(&self, now: u64) -> (r: String)
        ensures
            r@ == tree_text(self.tasks(), now),
    {
        let mut out = String::from_str("Async Task Tree:\n");
        write_children(&self.tasks, None, 0, self.tasks.len(), &mut out, now);
        out
    }

    /// The task tree as it reads now.
    pub fn visualize_async_task_tree(&self) -> (r: String)
        ensures
            exists|now: u64| r@ == tree_text(self.tasks(), now),
    {
        let now = now_millis();
        self.render_task_tree(now)
    }
}

} // verus!
