//! Breakpoints with their trigger policies, and watch expressions.
use vstd::prelude::*;
use vstd::string::StringExecFns;
use crate::clock::{millis_between, now_millis};
use crate::evaluator::{
    all_digits, condition_holds, digits_value, eval, evaluate_expression, skip_back, skip_front,
    to_chars, truth, lemma_digits_monotone,
};
use crate::text::str_eq;
use crate::variables::{Variable, VariableInspector};

verus! {

/// A condition on the number of times a breakpoint was reached.
#[derive(Clone, Copy, Debug, PartialEq, Eq, Structural)]
pub enum HitCountCondition {
    /// Holds when the count equals the target.
    Equals(u32),
    /// Holds when the count exceeds the target.
    GreaterThan(u32),
    /// Holds when the count is a multiple of a target other than zero.
    Multiple(u32),
}

/// Whether `hits` meets condition `c`.
pub open spec fn met(c: HitCountCondition, hits: u32) -> bool {
    match c {
        HitCountCondition::Equals(t) => hits == t,
        HitCountCondition::GreaterThan(t) => hits > t,
        HitCountCondition::Multiple(t) => t > 0 && hits % t == 0,
    }
}

/// The unsigned number in `[lo, hi)`: an optional `+`, then at least one
/// digit, within the range of `u32`.
pub open spec fn parse_u32(s: Seq<char>, lo: int, hi: int) -> Option<u32> {
    let d = if lo < hi && s[lo] == '+' {
        lo + 1
    } else {
        lo
    };
    if d < hi && all_digits(s, d, hi) && digits_value(s, d, hi) <= u32::MAX {
        Some(digits_value(s, d, hi) as u32)
    } else {
        None
    }
}

/// The condition written in `s`: `= N`, `> N`, `% N`, or a bare `N` for
/// equality, with white space allowed around the parts.
pub open spec fn parse_hit_condition(s: Seq<char>) -> Option<HitCountCondition> {
    let l = skip_front(s, 0, s.len() as int);
    let h = skip_back(s, l, s.len() as int);
    if l < h && (s[l] == '=' || s[l] == '>' || s[l] == '%') {
        let a = skip_front(s, l + 1, h);
        let b = skip_back(s, a, h);
        match parse_u32(s, a, b) {
            Some(n) => Some(
                if s[l] == '=' {
                    HitCountCondition::Equals(n)
                } else if s[l] == '>' {
                    HitCountCondition::GreaterThan(n)
                } else {
                    HitCountCondition::Multiple(n)
                },
            ),
            None => None,
        }
    } else {
        match parse_u32(s, l, h) {
            Some(n) => Some(HitCountCondition::Equals(n)),
            None => None,
        }
    }
}

fn parse_u32_exec(s: &Vec<char>, lo: usize, hi: usize) -> (r: Option<u32>)
    requires
        lo <= hi <= s@.len(),
    ensures
        r == parse_u32(s@, lo as int, hi as int),
{
    let d = if lo < hi && s[lo] == '+' {
        lo + 1
    } else {
        lo
    };
    let ghost gd: int = if lo < hi && s@[lo as int] == '+' {
        lo + 1
    } else {
        lo as int
    };
    assert(gd == d as int);
    if d >= hi {
        return None;
    }
    let mut v: u64 = 0;
    let mut i: usize = d;
    while i < hi
        invariant
            d <= i <= hi <= s@.len(),
            lo <= d,
            gd == d as int,
            gd == (if lo < hi && s@[lo as int] == '+' {
                lo + 1
            } else {
                lo as int
            }),
            all_digits(s@, d as int, i as int),
            v as nat == digits_value(s@, d as int, i as int),
            v <= u32::MAX,
        decreases hi - i,
    {
        let c = s[i];
        if !('0' <= c && c <= '9') {
            assert(!('0' <= s@[i as int] && s@[i as int] <= '9'));
            assert(!all_digits(s@, d as int, hi as int));
            return None;
        }
        assert(digits_value(s@, d as int, i as int + 1) == v * 10 + ((c as nat) - ('0' as nat)));
        let n = v * 10 + (c as u32 - '0' as u32) as u64;
        if n > u32::MAX as u64 {
            proof {
                lemma_digits_monotone(s@, d as int, i as int + 1, hi as int);
                assert(digits_value(s@, d as int, hi as int) > u32::MAX);
            }
            return None;
        }
        v = n;
        i = i + 1;
    }
    Some(v as u32)
}

impl HitCountCondition {
    /// Reads a condition written as `= N`, `> N`, `% N` or `N`.
    pub fn from_string(s: &str) -> (r: Option<Self>)
        ensures
            r == parse_hit_condition(s@),
    {
        let c = to_chars(s);
        let l = crate::evaluator::skip_front_pub(&c, 0, c.len());
        let h = crate::evaluator::skip_back_pub(&c, l, c.len());
        if l < h && (c[l] == '=' || c[l] == '>' || c[l] == '%') {
            let a = crate::evaluator::skip_front_pub(&c, l + 1, h);
            let b = crate::evaluator::skip_back_pub(&c, a, h);
            match parse_u32_exec(&c, a, b) {
                Some(n) => Some(
                    if c[l] == '=' {
                        HitCountCondition::Equals(n)
                    } else if c[l] == '>' {
                        HitCountCondition::GreaterThan(n)
                    } else {
                        HitCountCondition::Multiple(n)
                    },
                ),
                None => None,
            }
        } else {
            match parse_u32_exec(&c, l, h) {
                Some(n) => Some(HitCountCondition::Equals(n)),
                None => None,
            }
        }
    }

    /// Whether `hit_count` meets this condition.
    pub fn is_met(&self, hit_count: u32) -> (r: bool)
        ensures
            r == met(*self, hit_count),
    {
        match self {
            HitCountCondition::Equals(t) => hit_count == *t,
            HitCountCondition::GreaterThan(t) => hit_count > *t,
            HitCountCondition::Multiple(t) => *t > 0 && hit_count % *t == 0,
        }
    }
}


/// When a reached breakpoint pauses execution.
#[derive(Debug)]
pub enum BreakpointConditionMode {
    /// On every reach.
    Always,
    /// When the expression holds.
    ConditionalExpression(String),
    /// When the hit count meets the condition.
    HitCount(HitCountCondition),
    /// When both hold on the same reach.
    Combined { expression: String, hit_count: HitCountCondition },
}

/// A breakpoint at a source location.
#[derive(Debug)]
pub struct Breakpoint {
    pub file: String,
    pub line: u32,
    pub column: u32,
    pub enabled: bool,
    pub condition_mode: BreakpointConditionMode,
    /// How many times the location was reached.
    pub hit_count: u32,
    pub id: u32,
    /// Wall-clock milliseconds at creation.
    pub created_at: u64,
    /// Wall-clock milliseconds of the last reach.
    pub last_hit: Option<u64>,
}

/// Whether breakpoint `b` pauses execution, given the variables in scope.
pub open spec fn triggers(b: Breakpoint, vars: Seq<Variable>) -> bool {
    b.enabled && match b.condition_mode {
        BreakpointConditionMode::Always => true,
        BreakpointConditionMode::ConditionalExpression(e) => truth(e@, 0, e@.len() as int, vars),
        BreakpointConditionMode::HitCount(c) => met(c, b.hit_count),
        BreakpointConditionMode::Combined { expression, hit_count } => met(hit_count, b.hit_count)
            && truth(expression@, 0, expression@.len() as int, vars),
    }
}

/// One more than `n`, held at the largest `u32`.
pub open spec fn bump(n: u32) -> u32 {
    if n < u32::MAX {
        (n + 1) as u32
    } else {
        n
    }
}

/// `b` is `a` after one more reach.
pub open spec fn reached(a: Breakpoint, b: Breakpoint) -> bool {
    b == Breakpoint { hit_count: bump(a.hit_count), last_hit: b.last_hit, ..a } && b.last_hit is Some
}

impl Breakpoint {
    /// An enabled breakpoint with no condition and no hits.
    pub fn new(file: &str, line: u32, column: u32, id: u32) -> (r: Self)
        ensures
            r.file@ == file@,
            r.line == line,
            r.column == column,
            r.id == id,
            r.enabled,
            r.condition_mode is Always,
            r.hit_count == 0,
            r.last_hit is None,
    {
        Breakpoint {
            file: String::from_str(file),
            line,
            column,
            enabled: true,
            condition_mode: BreakpointConditionMode::Always,
            hit_count: 0,
            id,
            created_at: now_millis(),
            last_hit: None,
        }
    }

    /// This breakpoint, pausing only when `condition` holds.
    pub fn with_condition(self, condition: &str) -> (r: Self)
        ensures
            r.condition_mode matches BreakpointConditionMode::ConditionalExpression(e) && e@
                == condition@,
            r == (Breakpoint { condition_mode: r.condition_mode, ..self }),
    {
        Breakpoint {
            condition_mode: BreakpointConditionMode::ConditionalExpression(String::from_str(condition)),
            ..self
        }
    }

    /// This breakpoint, pausing only when the hit count meets `condition`.
    pub fn with_hit_count_condition(self, condition: HitCountCondition) -> (r: Self)
        ensures
            r == (Breakpoint { condition_mode: BreakpointConditionMode::HitCount(condition), ..self }),
    {
        Breakpoint { condition_mode: BreakpointConditionMode::HitCount(condition), ..self }
    }

    /// This breakpoint, pausing only when both `expression` holds and the hit
    /// count meets `hit_count`.
    pub fn with_combined_condition(self, expression: &str, hit_count: HitCountCondition) -> (r: Self)
        ensures
            r.condition_mode matches BreakpointConditionMode::Combined { expression: e, hit_count: h }
                && e@ == expression@ && h == hit_count,
            r == (Breakpoint { condition_mode: r.condition_mode, ..self }),
    {
        Breakpoint {
            condition_mode: BreakpointConditionMode::Combined {
                expression: String::from_str(expression),
                hit_count,
            },
            ..self
        }
    }

    /// Records one more reach of this breakpoint.
    pub fn register_hit(&mut self)
        ensures
            reached(*old(self), *final(self)),
    {
        self.hit_count = self.hit_count.saturating_add(1);
        self.last_hit = Some(now_millis());
    }

    /// Whether this breakpoint pauses execution now.
    pub fn should_trigger(&self, variables: &VariableInspector) -> (r: bool)
        ensures
            r == triggers(*self, variables.vars()),
    {
        if !self.enabled {
            return false;
        }
        match &self.condition_mode {
            BreakpointConditionMode::Always => true,
            BreakpointConditionMode::ConditionalExpression(e) => condition_holds(e.as_str(), variables),
            BreakpointConditionMode::HitCount(c) => c.is_met(self.hit_count),
            BreakpointConditionMode::Combined { expression, hit_count } => hit_count.is_met(
                self.hit_count,
            ) && condition_holds(expression.as_str(), variables),
        }
    }

    /// Whether this breakpoint stands at `file` and `line`.
    pub fn is_at_location(&self, file: &str, line: u32) -> (r: bool)
        ensures
            r == (self.file@ == file@ && self.line == line),
    {
        str_eq(self.file.as_str(), file) && self.line == line
    }

    /// Milliseconds since creation.
    pub fn age(&self) -> u64 {
        millis_between(self.created_at, now_millis())
    }

    /// Milliseconds since the last reach, if it was reached.
    pub fn time_since_last_hit(&self) -> (r: Option<u64>)
        ensures
            r is Some <==> self.last_hit is Some,
    {
        match self.last_hit {
            Some(t) => Some(millis_between(t, now_millis())),
            None => None,
        }
    }
}

/// An expression re-evaluated on demand, with change tracking.
#[derive(Debug)]
pub struct WatchExpression {
    pub expression: String,
    /// The text of the last evaluation.
    pub last_value: Option<String>,
    pub enabled: bool,
    pub id: u32,
    /// Set when an evaluation differs from the one before; cleared only by
    /// `acknowledge_change`.
    pub has_changed: bool,
    /// Wall-clock milliseconds of the last change.
    pub last_change: Option<u64>,
    /// How many evaluations differed from the one before.
    pub change_count: u32,
}

/// The text a watch shows when it is disabled.
pub open spec fn disabled_text() -> Seq<char> {
    "[Watch disabled]"@
}

/// The text a watch shows when its expression cannot be evaluated.
pub open spec fn failed_text() -> Seq<char> {
    "[Evaluation failed]"@
}

/// What a watch on `e` shows against `vars`.
pub open spec fn watch_text(e: Seq<char>, vars: Seq<Variable>) -> Seq<char> {
    match eval(e, 0, e.len() as int, vars) {
        Some(t) => t,
        None => failed_text(),
    }
}

/// `b` is watch `a` after recording the value `v`.
pub open spec fn recorded(a: WatchExpression, b: WatchExpression, v: Seq<char>) -> bool {
    let changed = match a.last_value {
        Some(l) => l@ != v,
        None => true,
    };
    &&& b.last_value matches Some(l) && l@ == v
    &&& b.expression == a.expression
    &&& b.enabled == a.enabled
    &&& b.id == a.id
    &&& if changed {
        b.has_changed && b.change_count == bump(a.change_count) && b.last_change is Some
    } else {
        b.has_changed == a.has_changed && b.change_count == a.change_count && b.last_change
            == a.last_change
    }
}

impl WatchExpression {
    /// An enabled watch that was never evaluated.
    pub fn new(expression: &str, id: u32) -> (r: Self)
        ensures
            r.expression@ == expression@,
            r.id == id,
            r.enabled,
            r.last_value is None,
            !r.has_changed,
            r.last_change is None,
            r.change_count == 0,
    {
        WatchExpression {
            expression: String::from_str(expression),
            last_value: None,
            enabled: true,
            id,
            has_changed: false,
            last_change: None,
            change_count: 0,
        }
    }

    /// Records `value` as the latest result.
    pub fn update_value(&mut self, value: &str)
        ensures
            recorded(*old(self), *final(self), value@),
    {
        let changed = match &self.last_value {
            Some(last) => !str_eq(last.as_str(), value),
            None => true,
        };
        self.last_value = Some(String::from_str(value));
        if changed {
            self.has_changed = true;
            self.last_change = Some(now_millis());
            self.change_count = self.change_count.saturating_add(1);
        }
    }

    /// Evaluates the expression against `variables` and records the result.
    pub fn evaluate(&mut self, variables: &VariableInspector) -> (r: String)
        ensures
            old(self).enabled ==> r@ == watch_text(old(self).expression@, variables.vars())
                && recorded(*old(self), *final(self), r@),
            !old(self).enabled ==> r@ == disabled_text() && *final(self) == *old(self),
    {
        if !self.enabled {
            return String::from_str("[Watch disabled]");
        }
        let result = match evaluate_expression(self.expression.as_str(), variables) {
            Some(v) => v,
            None => String::from_str("[Evaluation failed]"),
        };
        self.update_value(result.as_str());
        result
    }

    /// Clears the change flag once the change has been seen.
    pub fn acknowledge_change(&mut self)
        ensures
            *final(self) == (WatchExpression { has_changed: false, ..*old(self) }),
    {
        self.has_changed = false;
    }

    /// Whether the result changed and the change was not yet acknowledged.
    pub fn has_changed(&self) -> (r: bool)
        ensures
            r == self.has_changed,
    {
        self.has_changed
    }

    /// Milliseconds since the last change, if there was one.
    pub fn time_since_change(&self) -> (r: Option<u64>)
        ensures
            r is Some <==> self.last_change is Some,
    {
        match self.last_change {
            Some(t) => Some(millis_between(t, now_millis())),
            None => None,
        }
    }

    /// Enables or disables the watch.
    pub fn toggle(&mut self, enabled: bool)
        ensures
            *final(self) == (WatchExpression { enabled, ..*old(self) }),
    {
        self.enabled = enabled;
    }
}

} // verus!
