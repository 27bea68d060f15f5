//! The variable model: tagged values, their depth-limited text form, and the
//! scoped variable registry with change tracking.
use vstd::prelude::*;
use vstd::string::StringExecFns;
use crate::clock::{millis_between, now_millis};
use crate::text::{str_eq, int_text, nat_text, push_int, push_nat};

verus! {

/// Nesting depth beyond which a value is shown as `...`.
pub const MAX_VISUALIZATION_DEPTH: usize = 3;

/// Number of elements shown from a long collection.
pub const SHOWN_ELEMENTS: usize = 10;

/// A collection longer than this is cut after `SHOWN_ELEMENTS` elements.
pub const CUT_THRESHOLD: usize = 12;

/// The value of a variable of the debugged program.
#[derive(Debug)]
///
/// A floating-point value is carried as the decimal text that the target
/// printed for it.
pub enum VariableValue {
    Integer(i64),
    Float(String),
    Boolean(bool),
    String(String),
    Char(char),
    Array(Vec<VariableValue>),
    Struct(Vec<(String, VariableValue)>),
    Option(Option<Box<VariableValue>>),
    Reference(Box<VariableValue>),
    Null,
    Complex {
        type_label: String,
        summary: String,
        fields: Vec<(String, VariableValue)>,
        children: Option<Vec<VariableValue>>,
    },
    Vec { elements: Vec<VariableValue>, length: usize, capacity: usize },
    HashMap { entries: Vec<(VariableValue, VariableValue)>, size: usize, capacity: usize },
}


/// The text of `v` rendered at nesting depth `d`.
pub open spec fn render(v: VariableValue, d: int) -> Seq<char>
    decreases 4 - d, 1int,
{
    if d > 3 {
        "..."@
    } else {
        match v {
            VariableValue::Integer(i) => int_text(i as int),
            VariableValue::Float(t) => t@,
            VariableValue::Boolean(b) => if b { "true"@ } else { "false"@ },
            VariableValue::String(s) => "\""@ + s@ + "\""@,
            VariableValue::Char(c) => "'"@ + seq![c] + "'"@,
            VariableValue::Array(a) => render_array(a@, d),
            VariableValue::Struct(f) => render_struct(f@, d),
            VariableValue::Option(o) => match o {
                Some(b) => "Some("@ + render(*b, d + 1) + ")"@,
                None => "None"@,
            },
            VariableValue::Reference(b) => "&"@ + render(*b, d + 1),
            VariableValue::Null => "null"@,
            VariableValue::Complex { type_label, summary, fields, children } => render_complex(
                type_label@,
                summary@,
                fields@,
                children,
                d,
            ),
            VariableValue::Vec { elements, length, capacity } => render_vec(
                elements@,
                length as nat,
                capacity as nat,
                d,
            ),
            VariableValue::HashMap { entries, size, capacity } => render_map(
                entries@,
                size as nat,
                capacity as nat,
                d,
            ),
        }
    }
}

/// The text of an array at depth `d`.
pub open spec fn render_array(a: Seq<VariableValue>, d: int) -> Seq<char>
    decreases 4 - d, 0int,
{
    "["@ + (if a.len() > 0 && d == 3 {
        "...("@ + nat_text(a.len()) + ")"@
    } else if d <= 3 {
        render_items(a, d + 1)
    } else {
        Seq::empty()
    }) + "]"@
}

/// The text of a structure at depth `d`.
pub open spec fn render_struct(f: Seq<(String, VariableValue)>, d: int) -> Seq<char>
    decreases 4 - d, 0int,
{
    "{"@ + (if f.len() > 0 && d == 3 {
        "...("@ + nat_text(f.len()) + ")"@
    } else if d <= 3 {
        render_fields(f, d + 1)
    } else {
        Seq::empty()
    }) + "}"@
}

/// The text of a described composite value at depth `d`.
pub open spec fn render_complex(
    type_label: Seq<char>,
    summary: Seq<char>,
    fields: Seq<(String, VariableValue)>,
    children: Option<Vec<VariableValue>>,
    d: int,
) -> Seq<char>
    decreases 4 - d, 0int,
{
    type_label + "{ "@ + summary + " }"@ + (if d < 3 {
        (if fields.len() > 0 {
            " {"@ + render_fields(fields, d + 1) + "}"@
        } else {
            Seq::empty()
        }) + (match children {
            Some(c) => if c@.len() > 0 {
                " ["@ + render_capped(c@, d + 1) + "]"@
            } else {
                Seq::empty()
            },
            None => Seq::empty(),
        })
    } else {
        Seq::empty()
    })
}

/// The text of a vector with its length and capacity at depth `d`.
pub open spec fn render_vec(elements: Seq<VariableValue>, length: nat, capacity: nat, d: int) -> Seq<
    char,
>
    decreases 4 - d, 0int,
{
    "Vec (len: "@ + nat_text(length) + ", capacity: "@ + nat_text(capacity) + ") ["@ + (if d < 3 {
        render_capped(elements, d + 1)
    } else {
        "..."@
    }) + "]"@
}

/// The text of a map with its size and capacity at depth `d`.
pub open spec fn render_map(
    entries: Seq<(VariableValue, VariableValue)>,
    size: nat,
    capacity: nat,
    d: int,
) -> Seq<char>
    decreases 4 - d, 0int,
{
    "HashMap (size: "@ + nat_text(size) + ", capacity: "@ + nat_text(capacity) + ") {"@ + (if d
        < 3 {
        render_pairs_capped(entries, d + 1)
    } else {
        "..."@
    }) + "}"@
}

/// The elements of `s`, each rendered at depth `d`, separated by `, `.
pub open spec fn render_items(s: Seq<VariableValue>, d: int) -> Seq<char>
    decreases 4 - d, 2 + s.len(),
{
    if s.len() == 0 {
        Seq::empty()
    } else if s.len() == 1 {
        render(s[0], d)
    } else {
        render_items(s.drop_last(), d) + ", "@ + render(s.last(), d)
    }
}

/// The fields of a structure as `name: value`, separated by `, `.
pub open spec fn render_fields(s: Seq<(String, VariableValue)>, d: int) -> Seq<char>
    decreases 4 - d, 2 + s.len(),
{
    if s.len() == 0 {
        Seq::empty()
    } else if s.len() == 1 {
        s[0].0@ + ": "@ + render(s[0].1, d)
    } else {
        render_fields(s.drop_last(), d) + ", "@ + s.last().0@ + ": "@ + render(s.last().1, d)
    }
}

/// The entries of a map as `key: value`, separated by `, `.
pub open spec fn render_pairs(s: Seq<(VariableValue, VariableValue)>, d: int) -> Seq<char>
    decreases 4 - d, 2 + s.len(),
{
    if s.len() == 0 {
        Seq::empty()
    } else if s.len() == 1 {
        render(s[0].0, d) + ": "@ + render(s[0].1, d)
    } else {
        render_pairs(s.drop_last(), d) + ", "@ + render(s.last().0, d) + ": "@ + render(
            s.last().1,
            d,
        )
    }
}

/// The text that stands for the elements left out of a long collection.
pub open spec fn more_text(n: nat) -> Seq<char> {
    ", ... ("@ + nat_text(n) + " more)"@
}

/// The elements of a collection, cut after the first ten when it is long.
pub open spec fn render_capped(s: Seq<VariableValue>, d: int) -> Seq<char>
    decreases 4 - d, 3 + s.len(),
{
    if s.len() > 12 {
        render_items(s.subrange(0, 10), d) + more_text((s.len() - 10) as nat)
    } else {
        render_items(s, d)
    }
}

/// The entries of a map, cut after the first ten when it is long.
pub open spec fn render_pairs_capped(s: Seq<(VariableValue, VariableValue)>, d: int) -> Seq<char>
    decreases 4 - d, 3 + s.len(),
{
    if s.len() > 12 {
        render_pairs(s.subrange(0, 10), d) + more_text((s.len() - 10) as nat)
    } else {
        render_pairs(s, d)
    }
}


fn write_items(s: &Vec<VariableValue>, n: usize, out: &mut String, d: usize)
    requires
        n <= s@.len(),
    ensures
        final(out)@ == old(out)@ + render_items(s@.subrange(0, n as int), d as int),
    decreases 4 - d, 2int,
{
    let ghost start = out@;
    let mut i: usize = 0;
    while i < n
        invariant
            i <= n <= s@.len(),
            out@ == start + render_items(s@.subrange(0, i as int), d as int),
        decreases n - i,
    {
        proof {
            let t = s@.subrange(0, i as int + 1);
            assert(t.drop_last() =~= s@.subrange(0, i as int));
            assert(t.last() == s@[i as int]);
        }
        if i > 0 {
            out.append(", ");
        }
        s[i].write_with_depth(out, d);
        proof {
            let t = s@.subrange(0, i as int + 1);
            if i == 0 {
                assert(out@ =~= start + render_items(t, d as int));
            } else {
                assert(out@ =~= start + render_items(t, d as int));
            }
        }
        i = i + 1;
    }
}

fn write_fields(s: &Vec<(String, VariableValue)>, out: &mut String, d: usize)
    ensures
        final(out)@ == old(out)@ + render_fields(s@, d as int),
    decreases 4 - d, 2int,
{
    let ghost start = out@;
    let mut i: usize = 0;
    while i < s.len()
        invariant
            i <= s@.len(),
            out@ == start + render_fields(s@.subrange(0, i as int), d as int),
        decreases s@.len() - i,
    {
        proof {
            let t = s@.subrange(0, i as int + 1);
            assert(t.drop_last() =~= s@.subrange(0, i as int));
            assert(t.last() == s@[i as int]);
        }
        if i > 0 {
            out.append(", ");
        }
        let (key, val) = &s[i];
        out.append(key.as_str());
        out.append(": ");
        val.write_with_depth(out, d);
        proof {
            let t = s@.subrange(0, i as int + 1);
            assert(out@ =~= start + render_fields(t, d as int));
        }
        i = i + 1;
    }
    assert(s@.subrange(0, s@.len() as int) =~= s@);
}

fn write_pairs(s: &Vec<(VariableValue, VariableValue)>, n: usize, out: &mut String, d: usize)
    requires
        n <= s@.len(),
    ensures
        final(out)@ == old(out)@ + render_pairs(s@.subrange(0, n as int), d as int),
    decreases 4 - d, 2int,
{
    let ghost start = out@;
    let mut i: usize = 0;
    while i < n
        invariant
            i <= n <= s@.len(),
            out@ == start + render_pairs(s@.subrange(0, i as int), d as int),
        decreases n - i,
    {
        proof {
            let t = s@.subrange(0, i as int + 1);
            assert(t.drop_last() =~= s@.subrange(0, i as int));
            assert(t.last() == s@[i as int]);
        }
        if i > 0 {
            out.append(", ");
        }
        let (key, val) = &s[i];
        key.write_with_depth(out, d);
        out.append(": ");
        val.write_with_depth(out, d);
        proof {
            let t = s@.subrange(0, i as int + 1);
            assert(out@ =~= start + render_pairs(t, d as int));
        }
        i = i + 1;
    }
}

fn write_more(out: &mut String, n: usize)
    ensures
        final(out)@ == old(out)@ + more_text(n as nat),
{
    out.append(", ... (");
    push_nat(out, n as u64);
    out.append(" more)");
    assert(final(out)@ =~= old(out)@ + more_text(n as nat));
}

fn write_capped(s: &Vec<VariableValue>, out: &mut String, d: usize)
    ensures
        final(out)@ == old(out)@ + render_capped(s@, d as int),
    decreases 4 - d, 3int,
{
    if s.len() > CUT_THRESHOLD {
        write_items(s, SHOWN_ELEMENTS, out, d);
        write_more(out, s.len() - SHOWN_ELEMENTS);
        assert(final(out)@ =~= old(out)@ + render_capped(s@, d as int));
    } else {
        write_items(s, s.len(), out, d);
        assert(s@.subrange(0, s@.len() as int) =~= s@);
    }
}

fn write_pairs_capped(s: &Vec<(VariableValue, VariableValue)>, out: &mut String, d: usize)
    ensures
        final(out)@ == old(out)@ + render_pairs_capped(s@, d as int),
    decreases 4 - d, 3int,
{
    if s.len() > CUT_THRESHOLD {
        write_pairs(s, SHOWN_ELEMENTS, out, d);
        write_more(out, s.len() - SHOWN_ELEMENTS);
        assert(final(out)@ =~= old(out)@ + render_pairs_capped(s@, d as int));
    } else {
        write_pairs(s, s.len(), out, d);
        assert(s@.subrange(0, s@.len() as int) =~= s@);
    }
}

fn write_array(a: &Vec<VariableValue>, out: &mut String, d: usize)
    requires
        d <= 3,
    ensures
        final(out)@ == old(out)@ + render_array(a@, d as int),
    decreases 4 - d, 0int,
{
    let ghost start = out@;
    out.append("[");
    if a.len() > 0 && d == MAX_VISUALIZATION_DEPTH {
        out.append("...(");
        push_nat(out, a.len() as u64);
        out.append(")");
    } else {
        write_items(a, a.len(), out, d + 1);
        assert(a@.subrange(0, a@.len() as int) =~= a@);
    }
    out.append("]");
    assert(out@ =~= start + render_array(a@, d as int));
}

fn write_struct(f: &Vec<(String, VariableValue)>, out: &mut String, d: usize)
    requires
        d <= 3,
    ensures
        final(out)@ == old(out)@ + render_struct(f@, d as int),
    decreases 4 - d, 0int,
{
    let ghost start = out@;
    out.append("{");
    if f.len() > 0 && d == MAX_VISUALIZATION_DEPTH {
        out.append("...(");
        push_nat(out, f.len() as u64);
        out.append(")");
    } else {
        write_fields(f, out, d + 1);
    }
    out.append("}");
    assert(out@ =~= start + render_struct(f@, d as int));
}

fn write_complex(
    type_label: &String,
    summary: &String,
    fields: &Vec<(String, VariableValue)>,
    children: &Option<Vec<VariableValue>>,
    out: &mut String,
    d: usize,
)
    requires
        d <= 3,
    ensures
        final(out)@ == old(out)@ + render_complex(type_label@, summary@, fields@, *children, d as int),
    decreases 4 - d, 0int,
{
    let ghost start = out@;
    out.append(type_label.as_str());
    out.append("{ ");
    out.append(summary.as_str());
    out.append(" }");
    let ghost head = out@;
    let mut tail = String::new();
    if d < MAX_VISUALIZATION_DEPTH {
        let mut part1 = String::new();
        if fields.len() > 0 {
            part1.append(" {");
            write_fields(fields, &mut part1, d + 1);
            part1.append("}");
        }
        let mut part2 = String::new();
        match children {
            Some(c) => {
                if c.len() > 0 {
                    part2.append(" [");
                    write_capped(c, &mut part2, d + 1);
                    part2.append("]");
                }
            },
            None => {},
        }
        tail.append(part1.as_str());
        tail.append(part2.as_str());
    }
    out.append(tail.as_str());
    assert(out@ =~= start + render_complex(type_label@, summary@, fields@, *children, d as int));
}

fn write_vec(elements: &Vec<VariableValue>, length: usize, capacity: usize, out: &mut String, d: usize)
    requires
        d <= 3,
    ensures
        final(out)@ == old(out)@ + render_vec(elements@, length as nat, capacity as nat, d as int),
    decreases 4 - d, 0int,
{
    let ghost start = out@;
    out.append("Vec (len: ");
    push_nat(out, length as u64);
    out.append(", capacity: ");
    push_nat(out, capacity as u64);
    out.append(") [");
    if d < MAX_VISUALIZATION_DEPTH {
        write_capped(elements, out, d + 1);
    } else {
        out.append("...");
    }
    out.append("]");
    assert(out@ =~= start + render_vec(elements@, length as nat, capacity as nat, d as int));
}

fn write_map(
    entries: &Vec<(VariableValue, VariableValue)>,
    size: usize,
    capacity: usize,
    out: &mut String,
    d: usize,
)
    requires
        d <= 3,
    ensures
        final(out)@ == old(out)@ + render_map(entries@, size as nat, capacity as nat, d as int),
    decreases 4 - d, 0int,
{
    let ghost start = out@;
    out.append("HashMap (size: ");
    push_nat(out, size as u64);
    out.append(", capacity: ");
    push_nat(out, capacity as u64);
    out.append(") {");
    if d < MAX_VISUALIZATION_DEPTH {
        write_pairs_capped(entries, out, d + 1);
    } else {
        out.append("...");
    }
    out.append("}");
    assert(out@ =~= start + render_map(entries@, size as nat, capacity as nat, d as int));
}

impl VariableValue {
    /// Appends the text of this value at nesting depth `depth` to `out`.
    pub fn write_with_depth(&self, out: &mut String, depth: usize)
        ensures
            final(out)@ == old(out)@ + render(*self, depth as int),
        decreases 4 - depth, 1int,
    {
        let ghost start = out@;
        if depth > MAX_VISUALIZATION_DEPTH {
            out.append("...");
            return;
        }
        match self {
            VariableValue::Integer(i) => {
                push_int(out, *i);
            },
            VariableValue::Float(t) => {
                out.append(t.as_str());
            },
            VariableValue::Boolean(b) => {
                if *b {
                    out.append("true");
                } else {
                    out.append("false");
                }
            },
            VariableValue::String(s) => {
                out.append("\"");
                out.append(s.as_str());
                out.append("\"");
                assert(out@ =~= start + render(*self, depth as int));
            },
            VariableValue::Char(c) => {
                out.append("'");
                let t = crate::text::char_to_string(*c);
                out.append(t.as_str());
                out.append("'");
                assert(out@ =~= start + render(*self, depth as int));
            },
            VariableValue::Array(a) => {
                write_array(a, out, depth);
            },
            VariableValue::Struct(f) => {
                write_struct(f, out, depth);
            },
            VariableValue::Option(o) => {
                match o {
                    Some(b) => {
                        out.append("Some(");
                        b.write_with_depth(out, depth + 1);
                        out.append(")");
                        assert(out@ =~= start + render(*self, depth as int));
                    },
                    None => {
                        out.append("None");
                    },
                }
            },
            VariableValue::Reference(b) => {
                out.append("&");
                b.write_with_depth(out, depth + 1);
                assert(out@ =~= start + render(*self, depth as int));
            },
            VariableValue::Null => {
                out.append("null");
            },
            VariableValue::Complex { type_label, summary, fields, children } => {
                write_complex(type_label, summary, fields, children, out, depth);
            },
            VariableValue::Vec { elements, length, capacity } => {
                write_vec(elements, *length, *capacity, out, depth);
            },
            VariableValue::HashMap { entries, size, capacity } => {
                write_map(entries, *size, *capacity, out, depth);
            },
        }
    }
}


impl VariableValue {
    /// The text of this value, nesting cut at `MAX_VISUALIZATION_DEPTH`.
    pub fn to_string(&self) -> (r: String)
        ensures
            r@ == render(*self, 0),
    {
        let mut s = String::new();
        self.write_with_depth(&mut s, 0);
        assert(s@ =~= render(*self, 0));
        s
    }

    /// A vector value whose length is the number of its elements.
    pub fn new_vec(elements: Vec<VariableValue>, capacity: usize) -> (r: Self)
        ensures
            r == (VariableValue::Vec { elements, length: elements@.len() as usize, capacity }),
    {
        let length = elements.len();
        VariableValue::Vec { elements, length, capacity }
    }

    /// A map value whose size is the number of its entries.
    pub fn new_hashmap(entries: Vec<(VariableValue, VariableValue)>, capacity: usize) -> (r: Self)
        ensures
            r == (VariableValue::HashMap { entries, size: entries@.len() as usize, capacity }),
    {
        let size = entries.len();
        VariableValue::HashMap { entries, size, capacity }
    }

    /// A described composite value.
    pub fn new_complex(
        type_label: &str,
        summary: &str,
        fields: Vec<(String, VariableValue)>,
        children: Option<Vec<VariableValue>>,
    ) -> (r: Self)
        ensures
            r matches VariableValue::Complex { type_label: t, summary: s, fields: f, children: c }
                && t@ == type_label@ && s@ == summary@ && f == fields && c == children,
    {
        VariableValue::Complex {
            type_label: String::from_str(type_label),
            summary: String::from_str(summary),
            fields,
            children,
        }
    }
}

/// How a variable changed since change tracking was last reset.
#[derive(Clone, Copy, Debug, PartialEq, Eq, Structural)]
pub enum ChangeStatus {
    Unchanged,
    New,
    Modified,
    ChildModified,
}

/// A variable of the debugged program, as registered by instrumented code.
#[derive(Debug)]
pub struct Variable {
    pub name: String,
    pub type_label: String,
    pub value: VariableValue,
    /// The scope in which the variable was declared.
    pub scope_level: u32,
    pub is_mutable: bool,
    /// The value before the last update, if any.
    pub previous_value: Option<VariableValue>,
    pub change_status: ChangeStatus,
    /// Wall-clock milliseconds of the last update.
    pub last_updated: u64,
}

impl Variable {
    /// A newly registered variable.
    pub fn new(name: &str, type_label: &str, value: VariableValue, scope_level: u32, is_mutable: bool) -> (r: Self)
        ensures
            r.name@ == name@,
            r.type_label@ == type_label@,
            r.value == value,
            r.scope_level == scope_level,
            r.is_mutable == is_mutable,
            r.previous_value is None,
            r.change_status == ChangeStatus::New,
    {
        Variable {
            name: String::from_str(name),
            type_label: String::from_str(type_label),
            value,
            scope_level,
            is_mutable,
            previous_value: None,
            change_status: ChangeStatus::New,
            last_updated: now_millis(),
        }
    }

    /// Replaces the value, keeping the old one as the previous value.
    pub fn update_value(&mut self, new_value: VariableValue)
        ensures
            final(self).value == new_value,
            final(self).previous_value == Some(old(self).value),
            final(self).change_status == ChangeStatus::Modified,
            final(self).name == old(self).name,
            final(self).type_label == old(self).type_label,
            final(self).scope_level == old(self).scope_level,
            final(self).is_mutable == old(self).is_mutable,
    {
        let mut v = new_value;
        std::mem::swap(&mut self.value, &mut v);
        self.previous_value = Some(v);
        self.change_status = ChangeStatus::Modified;
        self.last_updated = now_millis();
    }

    /// Marks the variable as unchanged.
    pub fn reset_change_status(&mut self)
        ensures
            *final(self) == (Variable { change_status: ChangeStatus::Unchanged, ..*old(self) }),
    {
        self.change_status = ChangeStatus::Unchanged;
    }

    /// Whether the variable changed since tracking was last reset.
    pub fn has_changed(&self) -> (r: bool)
        ensures
            r == (self.change_status != ChangeStatus::Unchanged),
    {
        !(self.change_status == ChangeStatus::Unchanged)
    }

    /// Milliseconds since the last update.
    pub fn time_since_update(&self) -> u64 {
        millis_between(self.last_updated, now_millis())
    }
}


/// The lines `[i]: element` for the first `n` elements of `s`.
pub open spec fn element_lines(s: Seq<VariableValue>, n: nat) -> Seq<char>
    decreases n,
{
    if n == 0 {
        Seq::empty()
    } else {
        element_lines(s, (n - 1) as nat) + "\n    ["@ + nat_text((n - 1) as nat) + "]: "@ + render(
            s[n - 1],
            0,
        )
    }
}

/// The lines `i: key => value` for the first `n` entries of `s`.
pub open spec fn entry_lines(s: Seq<(VariableValue, VariableValue)>, n: nat) -> Seq<char>
    decreases n,
{
    if n == 0 {
        Seq::empty()
    } else {
        entry_lines(s, (n - 1) as nat) + "\n    "@ + nat_text((n - 1) as nat) + ": "@ + render(
            s[n - 1].0,
            0,
        ) + " => "@ + render(s[n - 1].1, 0)
    }
}

/// The lines `name: value` for the first `n` fields of `s`.
pub open spec fn field_lines(s: Seq<(String, VariableValue)>, n: nat) -> Seq<char>
    decreases n,
{
    if n == 0 {
        Seq::empty()
    } else {
        field_lines(s, (n - 1) as nat) + "\n    "@ + s[n - 1].0@ + ": "@ + render(s[n - 1].1, 0)
    }
}

/// The smaller of `n` and ten.
pub open spec fn first_ten(n: nat) -> nat {
    if n > 10 {
        10
    } else {
        n
    }
}

/// The element section of a detailed view: at most ten elements, then how
/// many were left out.
pub open spec fn elements_section(s: Seq<VariableValue>) -> Seq<char> {
    if s.len() == 0 {
        Seq::empty()
    } else {
        "\n  Elements:"@ + element_lines(s, first_ten(s.len())) + if s.len() > 10 {
            "\n    ... and "@ + nat_text((s.len() - 10) as nat) + " more elements"@
        } else {
            Seq::empty()
        }
    }
}

/// The field section of a detailed view.
pub open spec fn fields_section(f: Seq<(String, VariableValue)>) -> Seq<char> {
    if f.len() == 0 {
        Seq::empty()
    } else {
        "\n  Fields:"@ + field_lines(f, f.len())
    }
}

/// The details that a detailed view adds for the kind of `v`.
pub open spec fn detail_text(v: VariableValue) -> Seq<char> {
    match v {
        VariableValue::Vec { elements, length, capacity } => "\n  Length: "@ + nat_text(length as nat)
            + "\n  Capacity: "@ + nat_text(capacity as nat) + elements_section(elements@),
        VariableValue::HashMap { entries, size, capacity } => "\n  Size: "@ + nat_text(size as nat)
            + "\n  Capacity: "@ + nat_text(capacity as nat) + if entries@.len() == 0 {
            Seq::empty()
        } else {
            "\n  Entries:"@ + entry_lines(entries@, first_ten(entries@.len())) + if entries@.len()
                > 10 {
                "\n    ... and "@ + nat_text((entries@.len() - 10) as nat) + " more entries"@
            } else {
                Seq::empty()
            }
        },
        VariableValue::Struct(f) => fields_section(f@),
        VariableValue::Complex { type_label, summary, fields, children } => "\n  Type: "@
            + type_label@ + "\n  Summary: "@ + summary@ + fields_section(fields@) + match children {
            Some(c) => elements_section(c@),
            None => Seq::empty(),
        },
        VariableValue::Option(o) => match o {
            Some(b) => "\n  Contains value:"@ + "\n    "@ + render(*b, 0),
            None => "\n  Contains no value (None)"@,
        },
        VariableValue::Reference(b) => "\n  Reference to:"@ + "\n    "@ + render(*b, 0),
        VariableValue::Array(a) => "\n  Length: "@ + nat_text(a@.len()) + elements_section(a@),
        _ => Seq::empty(),
    }
}

/// The detailed view of variable `var`.
pub open spec fn detailed_text(var: Variable) -> Seq<char> {
    var.name@ + ": "@ + var.type_label@ + " = "@ + render(var.value, 0) + detail_text(var.value)
}

fn push_element_lines(out: &mut String, s: &Vec<VariableValue>, n: usize)
    requires
        n <= s@.len(),
    ensures
        final(out)@ == old(out)@ + element_lines(s@, n as nat),
{
    let ghost start = out@;
    let mut i: usize = 0;
    while i < n
        invariant
            i <= n <= s@.len(),
            out@ == start + element_lines(s@, i as nat),
        decreases n - i,
    {
        out.append("\n    [");
        push_nat(out, i as u64);
        out.append("]: ");
        s[i].write_with_depth(out, 0);
        i = i + 1;
        assert(out@ =~= start + element_lines(s@, i as nat));
    }
}

fn push_elements_section(out: &mut String, s: &Vec<VariableValue>)
    ensures
        final(out)@ == old(out)@ + elements_section(s@),
{
    let ghost start = out@;
    if s.len() > 0 {
        out.append("\n  Elements:");
        let n = if s.len() > 10 { 10 } else { s.len() };
        push_element_lines(out, s, n);
        if s.len() > 10 {
            out.append("\n    ... and ");
            push_nat(out, (s.len() - 10) as u64);
            out.append(" more elements");
        }
    }
    assert(out@ =~= start + elements_section(s@));
}

fn push_fields_section(out: &mut String, f: &Vec<(String, VariableValue)>)
    ensures
        final(out)@ == old(out)@ + fields_section(f@),
{
    let ghost start = out@;
    if f.len() > 0 {
        out.append("\n  Fields:");
        let ghost mid = out@;
        let mut i: usize = 0;
        while i < f.len()
            invariant
                i <= f@.len(),
                out@ == mid + field_lines(f@, i as nat),
            decreases f@.len() - i,
        {
            out.append("\n    ");
            out.append(f[i].0.as_str());
            out.append(": ");
            f[i].1.write_with_depth(out, 0);
            i = i + 1;
            assert(out@ =~= mid + field_lines(f@, i as nat));
        }
    }
    assert(out@ =~= start + fields_section(f@));
}

fn push_entry_lines(out: &mut String, s: &Vec<(VariableValue, VariableValue)>, n: usize)
    requires
        n <= s@.len(),
    ensures
        final(out)@ == old(out)@ + entry_lines(s@, n as nat),
{
    let ghost start = out@;
    let mut i: usize = 0;
    while i < n
        invariant
            i <= n <= s@.len(),
            out@ == start + entry_lines(s@, i as nat),
        decreases n - i,
    {
        out.append("\n    ");
        push_nat(out, i as u64);
        out.append(": ");
        s[i].0.write_with_depth(out, 0);
        out.append(" => ");
        s[i].1.write_with_depth(out, 0);
        i = i + 1;
        assert(out@ =~= start + entry_lines(s@, i as nat));
    }
}

#[verifier::spinoff_prover]
fn push_details(out: &mut String, v: &VariableValue)
    ensures
        final(out)@ == old(out)@ + detail_text(*v),
{
    let ghost start = out@;
    match v {
        VariableValue::Vec { elements, length, capacity } => {
            out.append("\n  Length: ");
            push_nat(out, *length as u64);
            out.append("\n  Capacity: ");
            push_nat(out, *capacity as u64);
            push_elements_section(out, elements);
            assert(out@ =~= start + detail_text(*v));
        },
        VariableValue::HashMap { entries, size, capacity } => {
            out.append("\n  Size: ");
            push_nat(out, *size as u64);
            out.append("\n  Capacity: ");
            push_nat(out, *capacity as u64);
            let ghost mid = out@;
            if entries.len() > 0 {
                out.append("\n  Entries:");
                let n = if entries.len() > 10 { 10 } else { entries.len() };
                push_entry_lines(out, entries, n);
                if entries.len() > 10 {
                    out.append("\n    ... and ");
                    push_nat(out, (entries.len() - 10) as u64);
                    out.append(" more entries");
                }
            }
            assert(out@ =~= start + detail_text(*v));
        },
        VariableValue::Struct(f) => {
            push_fields_section(out, f);
            assert(out@ =~= start + detail_text(*v));
        },
        VariableValue::Complex { type_label, summary, fields, children } => {
            out.append("\n  Type: ");
            out.append(type_label.as_str());
            out.append("\n  Summary: ");
            out.append(summary.as_str());
            push_fields_section(out, fields);
            match children {
                Some(c) => push_elements_section(out, c),
                None => {},
            }
            assert(out@ =~= start + detail_text(*v));
        },
        VariableValue::Option(o) => {
            match o {
                Some(b) => {
                    out.append("\n  Contains value:");
                    out.append("\n    ");
                    b.write_with_depth(out, 0);
                },
                None => {
                    out.append("\n  Contains no value (None)");
                },
            }
            assert(out@ =~= start + detail_text(*v));
        },
        VariableValue::Reference(b) => {
            out.append("\n  Reference to:");
            out.append("\n    ");
            b.write_with_depth(out, 0);
            assert(out@ =~= start + detail_text(*v));
        },
        VariableValue::Array(a) => {
            out.append("\n  Length: ");
            push_nat(out, a.len() as u64);
            push_elements_section(out, a);
            assert(out@ =~= start + detail_text(*v));
        },
        _ => {
            assert(out@ =~= start + detail_text(*v));
        },
    }
}

/// The detailed view of `var`: its name, type and value, then details for
/// its kind of value.
pub fn create_detailed_visualization(var: &Variable) -> (r: String)
    ensures
        r@ == detailed_text(*var),
{
    let mut out = String::new();
    out.append(var.name.as_str());
    out.append(": ");
    out.append(var.type_label.as_str());
    out.append(" = ");
    var.value.write_with_depth(&mut out, 0);
    push_details(&mut out, &var.value);
    assert(out@ =~= detailed_text(*var));
    out
}

/// The index of the first variable named `name` in `vars`, or -1.
pub open spec fn position_of(vars: Seq<Variable>, name: Seq<char>) -> int
    decreases vars.len(),
{
    if vars.len() == 0 {
        -1
    } else if position_of(vars.drop_last(), name) >= 0 {
        position_of(vars.drop_last(), name)
    } else if vars.last().name@ == name {
        vars.len() - 1
    } else {
        -1
    }
}

/// The variables of `vars` declared in a scope below `level`, in order.
pub open spec fn kept_below(vars: Seq<Variable>, level: u32) -> Seq<Variable>
    decreases vars.len(),
{
    if vars.len() == 0 {
        Seq::empty()
    } else if vars.last().scope_level < level {
        kept_below(vars.drop_last(), level).push(vars.last())
    } else {
        kept_below(vars.drop_last(), level)
    }
}

/// The variables named in `names` that `vars` holds, in the order of `names`.
pub open spec fn lookup_all(names: Seq<Seq<char>>, vars: Seq<Variable>) -> Seq<Variable>
    decreases names.len(),
{
    if names.len() == 0 {
        Seq::empty()
    } else if position_of(vars, names.last()) >= 0 {
        lookup_all(names.drop_last(), vars).push(vars[position_of(vars, names.last())])
    } else {
        lookup_all(names.drop_last(), vars)
    }
}

/// `after` is registry `before` once the variable named `name` was set to
/// `value` with result `r`: an unknown name is an error and changes nothing;
/// a mutable variable, or one whose value differs, gets the new value, keeps
/// the old one as its previous value, is marked modified and its name is
/// recorded as changed; an immutable variable set to an equal value stays.
pub open spec fn update_outcome(
    before: VariableInspector,
    after: VariableInspector,
    name: Seq<char>,
    value: VariableValue,
    r: Result<(), String>,
) -> bool {
    let pos = position_of(before.vars(), name);
    if pos == -1 {
        r matches Err(e) && e@ == "Variable "@ + name + " not found"@ && after.vars() == before.vars()
            && after.changed() == before.changed()
    } else {
        let v = before.vars()[pos];
        r is Ok && if v.is_mutable || !same_scalar(v.value, value) {
            after.vars() == before.vars().update(
                pos,
                Variable {
                    value: value,
                    previous_value: Some(v.value),
                    change_status: ChangeStatus::Modified,
                    last_updated: after.vars()[pos].last_updated,
                    ..v
                },
            ) && after.changed() == before.changed().push(name)
        } else {
            after.vars() == before.vars() && after.changed() == before.changed()
        }
    }
}

/// Whether no two variables of `vars` share a name.
pub open spec fn names_unique(vars: Seq<Variable>) -> bool {
    forall|i: int, j: int|
        0 <= i < j < vars.len() ==> #[trigger] vars[i].name@ != #[trigger] vars[j].name@
}

proof fn lemma_absent_name(vars: Seq<Variable>, name: Seq<char>)
    requires
        position_of(vars, name) == -1,
    ensures
        forall|i: int| 0 <= i < vars.len() ==> #[trigger] vars[i].name@ != name,
    decreases vars.len(),
{
    if vars.len() > 0 {
        lemma_absent_name(vars.drop_last(), name);
        assert forall|i: int| 0 <= i < vars.len() implies #[trigger] vars[i].name@ != name by {
            if i < vars.len() - 1 {
                assert(vars.drop_last()[i] == vars[i]);
            }
        }
    }
}

proof fn lemma_kept_below_unique(vars: Seq<Variable>, level: u32)
    requires
        names_unique(vars),
    ensures
        names_unique(kept_below(vars, level)),
        forall|k: int|
            0 <= k < kept_below(vars, level).len() ==> exists|i: int|
                0 <= i < vars.len() && vars[i] == #[trigger] kept_below(vars, level)[k],
    decreases vars.len(),
{
    if vars.len() > 0 {
        let d = vars.drop_last();
        assert(names_unique(d)) by {
            assert forall|i: int, j: int| 0 <= i < j < d.len() implies #[trigger] d[i].name@ != #[trigger] d[j].name@ by {
                assert(d[i] == vars[i] && d[j] == vars[j]);
            }
        }
        lemma_kept_below_unique(d, level);
        let kd = kept_below(d, level);
        assert forall|k: int| 0 <= k < kd.len() implies #[trigger] kd[k].name@ != vars.last().name@ by {
            let i = choose|i: int| 0 <= i < d.len() && d[i] == #[trigger] kd[k];
            assert(vars[i] == d[i]);
        }
        assert forall|k: int| 0 <= k < kd.len() implies exists|i: int|
            0 <= i < vars.len() && vars[i] == #[trigger] kd[k] by {
            let i = choose|i: int| 0 <= i < d.len() && d[i] == #[trigger] kd[k];
            assert(vars[i] == d[i]);
        }
        if vars.last().scope_level < level {
            let kv = kd.push(vars.last());
            assert(kv == kept_below(vars, level));
            assert forall|k: int| 0 <= k < kv.len() implies exists|i: int|
                0 <= i < vars.len() && vars[i] == #[trigger] kv[k] by {
                if k == kd.len() {
                    assert(vars[vars.len() - 1] == kv[k]);
                } else {
                    assert(kv[k] == kd[k]);
                }
            }
            assert forall|a: int, b: int| 0 <= a < b < kv.len() implies #[trigger] kv[a].name@ != #[trigger] kv[b].name@ by {
                assert(kv[a] == kd[a]);
                if b < kd.len() {
                    assert(kv[b] == kd[b]);
                }
            }
        }
    }
}

/// Whether two values count as equal for change detection: scalars of the
/// same kind that hold the same value, or two nulls.
pub open spec fn same_scalar(a: VariableValue, b: VariableValue) -> bool {
    match (a, b) {
        (VariableValue::Integer(x), VariableValue::Integer(y)) => x == y,
        (VariableValue::Float(x), VariableValue::Float(y)) => x@ == y@,
        (VariableValue::Boolean(x), VariableValue::Boolean(y)) => x == y,
        (VariableValue::String(x), VariableValue::String(y)) => x@ == y@,
        (VariableValue::Char(x), VariableValue::Char(y)) => x == y,
        (VariableValue::Null, VariableValue::Null) => true,
        _ => false,
    }
}

proof fn lemma_position_bounds(vars: Seq<Variable>, name: Seq<char>)
    ensures
        -1 <= position_of(vars, name) < vars.len(),
        position_of(vars, name) >= 0 ==> vars[position_of(vars, name)].name@ == name,
    decreases vars.len(),
{
    if vars.len() > 0 {
        lemma_position_bounds(vars.drop_last(), name);
    }
}

fn find_position(vars: &Vec<Variable>, name: &str) -> (r: Option<usize>)
    ensures
        match r {
            Some(i) => position_of(vars@, name@) == i as int,
            None => position_of(vars@, name@) == -1,
        },
{
    let mut i: usize = 0;
    while i < vars.len()
        invariant
            i <= vars@.len(),
            position_of(vars@.subrange(0, i as int), name@) == -1,
        decreases vars@.len() - i,
    {
        let t = Ghost(vars@.subrange(0, i as int + 1));
        assert(t@.drop_last() =~= vars@.subrange(0, i as int));
        if str_eq(vars[i].name.as_str(), name) {
            proof {
                lemma_prefix_position(vars@, name@, i as int);
            }
            return Some(i);
        }
        i = i + 1;
    }
    assert(vars@.subrange(0, vars@.len() as int) =~= vars@);
    None
}

proof fn lemma_prefix_position(vars: Seq<Variable>, name: Seq<char>, i: int)
    requires
        0 <= i < vars.len(),
        position_of(vars.subrange(0, i), name) == -1,
        vars[i].name@ == name,
    ensures
        position_of(vars, name) == i,
    decreases vars.len(),
{
    let t = vars.subrange(0, i + 1);
    assert(t.drop_last() =~= vars.subrange(0, i));
    if vars.len() > i + 1 {
        assert(vars.drop_last().subrange(0, i) =~= vars.subrange(0, i));
        lemma_prefix_position(vars.drop_last(), name, i);
    } else {
        assert(t =~= vars);
    }
}

/// The variables in scope, with the scope depth and the names changed since
/// the last query.
#[derive(Debug)]
pub struct VariableInspector {
    variables: Vec<Variable>,
    current_scope: u32,
    changed_variables: Vec<String>,
}

impl VariableInspector {
    /// No two registered variables share a name.
    pub open spec fn wf(&self) -> bool {
        names_unique(self.vars())
    }

    /// The registered variables, in order of registration.
    pub closed spec fn vars(&self) -> Seq<Variable> {
        self.variables@
    }

    /// The current scope depth.
    pub closed spec fn scope(&self) -> u32 {
        self.current_scope
    }

    /// The names updated since the changes were last taken.
    pub closed spec fn changed(&self) -> Seq<Seq<char>> {
        self.changed_variables@.map_values(|s: String| s@)
    }

    /// An empty registry at scope zero.
    pub fn new() -> (r: Self)
        ensures
            r.wf(),
            r.vars() == Seq::<Variable>::empty(),
            r.scope() == 0,
            r.changed() == Seq::<Seq<char>>::empty(),
    {
        let r = VariableInspector { variables: Vec::new(), current_scope: 0, changed_variables: Vec::new() };
        assert(r.changed() =~= Seq::<Seq<char>>::empty());
        r
    }

    /// Registers `variable`, replacing a variable of the same name.
    pub fn register_variable(&mut self, variable: Variable)
        requires
            old(self).wf(),
        ensures
            final(self).wf(),
            final(self).vars() == if position_of(old(self).vars(), variable.name@) >= 0 {
                old(self).vars().update(position_of(old(self).vars(), variable.name@), variable)
            } else {
                old(self).vars().push(variable)
            },
            final(self).scope() == old(self).scope(),
            final(self).changed() == old(self).changed(),
    {
        proof {
            lemma_position_bounds(self.variables@, variable.name@);
        }
        match find_position(&self.variables, variable.name.as_str()) {
            Some(i) => {
                self.variables.set(i, variable);
                assert forall|a: int, b: int| 0 <= a < b < self.vars().len() implies #[trigger] self.vars()[a].name@
                    != #[trigger] self.vars()[b].name@ by {
                    assert(old(self).vars()[a].name@ != old(self).vars()[b].name@);
                }
            },
            None => {
                proof {
                    lemma_absent_name(self.variables@, variable.name@);
                }
                self.variables.push(variable);
                assert forall|a: int, b: int| 0 <= a < b < self.vars().len() implies #[trigger] self.vars()[a].name@
                    != #[trigger] self.vars()[b].name@ by {
                    assert(self.vars()[a] == old(self).vars()[a]);
                    if b < old(self).vars().len() {
                        assert(self.vars()[b] == old(self).vars()[b]);
                    }
                }
            },
        }
    }

    /// The first variable named `name`, if any.
    pub fn get_variable(&self, name: &str) -> (r: Option<&Variable>)
        ensures
            match r {
                Some(v) => position_of(self.vars(), name@) >= 0 && *v == self.vars()[position_of(
                    self.vars(),
                    name@,
                )],
                None => position_of(self.vars(), name@) == -1,
            },
    {
        proof {
            lemma_position_bounds(self.variables@, name@);
        }
        match find_position(&self.variables, name) {
            Some(i) => Some(&self.variables[i]),
            None => None,
        }
    }

    /// Enters a nested scope.
    pub fn enter_scope(&mut self)
        ensures
            final(self).scope() == if old(self).scope() < u32::MAX {
                old(self).scope() + 1
            } else {
                old(self).scope() as int
            },
            final(self).vars() == old(self).vars(),
            final(self).changed() == old(self).changed(),
    {
        self.current_scope = self.current_scope.saturating_add(1);
    }

    /// Leaves the current scope, dropping the variables declared in it or deeper.
    pub fn exit_scope(&mut self)
        requires
            old(self).wf(),
        ensures
            final(self).wf(),
            final(self).vars() == kept_below(old(self).vars(), old(self).scope()),
            final(self).scope() == if old(self).scope() > 0 {
                old(self).scope() - 1
            } else {
                0
            },
            final(self).changed() == old(self).changed(),
    {
        let level = self.current_scope;
        let mut old_vars: Vec<Variable> = Vec::new();
        std::mem::swap(&mut self.variables, &mut old_vars);
        let ghost all = old_vars@;
        let mut kept: Vec<Variable> = Vec::new();
        let n = old_vars.len();
        let mut i: usize = 0;
        while old_vars.len() > 0
            invariant
                n == all.len(),
                old_vars@.len() + i == n,
                old_vars@ =~= all.subrange(i as int, n as int),
                kept@ == kept_below(all.subrange(0, i as int), level),
            decreases old_vars@.len(),
        {
            let v = old_vars.remove(0);
            proof {
                let t = all.subrange(0, i as int + 1);
                assert(t.drop_last() =~= all.subrange(0, i as int));
                assert(v == all[i as int]);
            }
            if v.scope_level < level {
                kept.push(v);
            }
            i = i + 1;
        }
        assert(all.subrange(0, n as int) =~= all);
        proof {
            lemma_kept_below_unique(all, level);
        }
        self.variables = kept;
        self.current_scope = self.current_scope.saturating_sub(1);
    }

    /// Whether two values count as equal for change detection.
    pub fn are_values_equal(val1: &VariableValue, val2: &VariableValue) -> (r: bool)
        ensures
            r == same_scalar(*val1, *val2),
    {
        match (val1, val2) {
            (VariableValue::Integer(a), VariableValue::Integer(b)) => *a == *b,
            (VariableValue::Float(a), VariableValue::Float(b)) => str_eq(a.as_str(), b.as_str()),
            (VariableValue::Boolean(a), VariableValue::Boolean(b)) => *a == *b,
            (VariableValue::String(a), VariableValue::String(b)) => str_eq(a.as_str(), b.as_str()),
            (VariableValue::Char(a), VariableValue::Char(b)) => *a == *b,
            (VariableValue::Null, VariableValue::Null) => true,
            _ => false,
        }
    }

    /// Sets the value of the variable named `name`.
    ///
    /// An immutable variable keeps its value when the new one is equal to it;
    /// otherwise the variable is updated and its name recorded as changed.
    pub fn update_variable(&mut self, name: &str, value: VariableValue) -> (r: Result<(), String>)
        requires
            old(self).wf(),
        ensures
            final(self).wf(),
            update_outcome(*old(self), *final(self), name@, value, r),
            final(self).scope() == old(self).scope(),
    {
        proof {
            lemma_position_bounds(self.variables@, name@);
        }
        match find_position(&self.variables, name) {
            Some(i) => {
                let update = self.variables[i].is_mutable || !Self::are_values_equal(
                    &self.variables[i].value,
                    &value,
                );
                if update {
                    let mut v = self.variables.remove(i);
                    v.update_value(value);
                    self.variables.insert(i, v);
                    let ghost old_changed = self.changed();
                    self.changed_variables.push(String::from_str(name));
                    proof {
                        assert(self.changed() =~= old_changed.push(name@));
                        assert(self.variables@ =~= old(self).variables@.update(i as int, v));
                    }
                }
                Ok(())
            },
            None => {
                let mut e = String::from_str("Variable ");
                e.append(name);
                e.append(" not found");
                Err(e)
            },
        }
    }

    /// All variables in scope, in order of registration.
    pub fn get_all_variables(&self) -> (r: &Vec<Variable>)
        ensures
            r@ == self.vars(),
    {
        &self.variables
    }

    /// The variables updated since the last call, in order of update; the
    /// record of updates is then cleared.
    pub fn get_changed_variables(&mut self) -> (r: Vec<&Variable>)
        ensures
            r@.map_values(|v: &Variable| *v) == lookup_all(old(self).changed(), old(self).vars()),
            final(self).vars() == old(self).vars(),
            final(self).changed() == Seq::<Seq<char>>::empty(),
            final(self).scope() == old(self).scope(),
    {
        let mut names: Vec<String> = Vec::new();
        std::mem::swap(&mut names, &mut self.changed_variables);
        let ghost all = names@.map_values(|s: String| s@);
        assert(self.changed() =~= Seq::<Seq<char>>::empty());
        let this: &Self = self;
        let mut r: Vec<&Variable> = Vec::new();
        let mut i: usize = 0;
        while i < names.len()
            invariant
                i <= names@.len(),
                all == names@.map_values(|s: String| s@),
                r@.map_values(|v: &Variable| *v) == lookup_all(all.subrange(0, i as int), this.variables@),
            decreases names@.len() - i,
        {
            proof {
                let t = all.subrange(0, i as int + 1);
                assert(t.drop_last() =~= all.subrange(0, i as int));
                assert(t.last() == names@[i as int]@);
                lemma_position_bounds(this.variables@, names@[i as int]@);
            }
            match find_position(&this.variables, names[i].as_str()) {
                Some(p) => {
                    let ghost before = r@;
                    r.push(&this.variables[p]);
                    assert(r@.map_values(|v: &Variable| *v) =~= before.map_values(|v: &Variable| *v).push(this.variables@[p as int]));
                },
                None => {},
            }
            i = i + 1;
        }
        assert(all.subrange(0, names@.len() as int) =~= all);
        r
    }

    /// Marks every variable unchanged and forgets the changed names.
    pub fn reset_change_status(&mut self)
        requires
            old(self).wf(),
        ensures
            final(self).wf(),
            final(self).vars().len() == old(self).vars().len(),
            forall|j: int|
                0 <= j < old(self).vars().len() ==> #[trigger] final(self).vars()[j] == (Variable {
                    change_status: ChangeStatus::Unchanged,
                    ..old(self).vars()[j]
                }),
            final(self).changed() == Seq::<Seq<char>>::empty(),
            final(self).scope() == old(self).scope(),
    {
        let n = self.variables.len();
        let mut i: usize = 0;
        while i < n
            invariant
                i <= n == self.variables@.len() == old(self).variables@.len(),
                self.current_scope == old(self).current_scope,
                forall|j: int|
                    0 <= j < i ==> #[trigger] self.variables@[j] == (Variable {
                        change_status: ChangeStatus::Unchanged,
                        ..old(self).variables@[j]
                    }),
                forall|j: int| i <= j < n ==> #[trigger] self.variables@[j] == old(self).variables@[j],
            decreases n - i,
        {
            let mut v = self.variables.remove(i);
            v.reset_change_status();
            self.variables.insert(i, v);
            i = i + 1;
        }
        self.changed_variables.clear();
        assert(self.changed() =~= Seq::<Seq<char>>::empty());
    }

    /// The detailed view of the variable named `name`, if any.
    pub fn visualize_variable(&self, name: &str) -> (r: Option<String>)
        ensures
            match r {
                Some(t) => position_of(self.vars(), name@) >= 0 && t@ == detailed_text(
                    self.vars()[position_of(self.vars(), name@)],
                ),
                None => position_of(self.vars(), name@) == -1,
            },
    {
        match self.get_variable(name) {
            Some(v) => Some(create_detailed_visualization(v)),
            None => None,
        }
    }

    /// Same as `are_values_equal`.
    pub fn values_equal(&self, val1: &VariableValue, val2: &VariableValue) -> (r: bool)
        ensures
            r == same_scalar(*val1, *val2),
    {
        Self::are_values_equal(val1, val2)
    }
}

} // verus!
