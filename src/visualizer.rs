//! Type-directed views of variables: built-in views for common library types
//! and a composite view for everything else.
use vstd::prelude::*;
use vstd::string::{StrSliceExecFns, StringExecFns};
use crate::evaluator::to_chars;
use crate::text::{char_to_string, nat_text, push_nat, str_eq};
use crate::evaluator::field_position;
use crate::variables::{render, Variable, VariableValue};

verus! {

/// Nesting depth beyond which a composite view gives up.
pub const MAX_COMPOSITE_DEPTH: usize = 5;

/// A built-in view, chosen by the type name of a variable.
#[derive(Clone, Copy, Debug, PartialEq, Eq, Structural)]
pub enum VisualizerKind {
    VecView,
    OptionView,
    ResultView,
    StringView,
    HashMapView,
}

/// The number of bytes that `c` takes in UTF-8.
pub open spec fn utf8_width(c: char) -> nat {
    if (c as u32) < 0x80 {
        1
    } else if (c as u32) < 0x800 {
        2
    } else if (c as u32) < 0x10000 {
        3
    } else {
        4
    }
}

/// The number of bytes that `s` takes in UTF-8.
pub open spec fn utf8_len(s: Seq<char>) -> nat
    decreases s.len(),
{
    if s.len() == 0 {
        0
    } else {
        utf8_len(s.drop_last()) + utf8_width(s.last())
    }
}

/// The hexadecimal digit of `d`, in upper or lower case.
pub open spec fn hex_digit(d: nat, upper: bool) -> char {
    if upper {
        if d == 0 {
            '0'
        } else if d == 1 {
            '1'
        } else if d == 2 {
            '2'
        } else if d == 3 {
            '3'
        } else if d == 4 {
            '4'
        } else if d == 5 {
            '5'
        } else if d == 6 {
            '6'
        } else if d == 7 {
            '7'
        } else if d == 8 {
            '8'
        } else if d == 9 {
            '9'
        } else if d == 10 {
            'A'
        } else if d == 11 {
            'B'
        } else if d == 12 {
            'C'
        } else if d == 13 {
            'D'
        } else if d == 14 {
            'E'
        } else {
            'F'
        }
    } else {
        if d == 0 {
            '0'
        } else if d == 1 {
            '1'
        } else if d == 2 {
            '2'
        } else if d == 3 {
            '3'
        } else if d == 4 {
            '4'
        } else if d == 5 {
            '5'
        } else if d == 6 {
            '6'
        } else if d == 7 {
            '7'
        } else if d == 8 {
            '8'
        } else if d == 9 {
            '9'
        } else if d == 10 {
            'a'
        } else if d == 11 {
            'b'
        } else if d == 12 {
            'c'
        } else if d == 13 {
            'd'
        } else if d == 14 {
            'e'
        } else {
            'f'
        }
    }
}

/// The hexadecimal text of `n` with at least `width` digits.
pub open spec fn hex_text(n: nat, width: nat, upper: bool) -> Seq<char>
    decreases width + n,
{
    if n < 16 && width <= 1 {
        seq![hex_digit(n, upper)]
    } else {
        hex_text(n / 16, if width > 0 { (width - 1) as nat } else { 0 }, upper) + seq![
            hex_digit(n % 16, upper),
        ]
    }
}

/// Whether `c` is shown among the special characters of a string.
pub open spec fn is_special(c: char) -> bool {
    c < ' ' || c > '~'
}

/// The line that describes special character `c` at index `i`.
pub open spec fn special_line(i: nat, c: char) -> Seq<char> {
    "\n  ["@ + nat_text(i) + "]: '\\u{"@ + hex_text((c as u32) as nat, 1, false) + "}' (Unicode: U+"@
        + hex_text((c as u32) as nat, 4, true) + ")"@
}

/// The lines that describe the special characters among the first `n` of `s`.
pub open spec fn special_lines(s: Seq<char>, n: nat) -> Seq<char>
    decreases n,
{
    if n == 0 || n > s.len() {
        Seq::empty()
    } else if is_special(s[n - 1]) {
        special_lines(s, (n - 1) as nat) + special_line((n - 1) as nat, s[n - 1])
    } else {
        special_lines(s, (n - 1) as nat)
    }
}

/// The built-in view of a string value.
pub open spec fn string_view(s: Seq<char>) -> Seq<char> {
    "String (length: "@ + nat_text(utf8_len(s)) + ")"@ + if s.len() == 0 {
        Seq::empty()
    } else {
        "\nContents: \""@ + s + "\""@ + if special_lines(s, s.len()).len() > 0 {
            "\nSpecial characters:"@ + special_lines(s, s.len())
        } else {
            Seq::empty()
        }
    }
}


fn hex_digit_str(d: u32, upper: bool) -> (r: String)
    requires
        d < 16,
    ensures
        r@ == seq![hex_digit(d as nat, upper)],
{
    let c: char = if upper {
        if d == 0 {
            '0'
        } else if d == 1 {
            '1'
        } else if d == 2 {
            '2'
        } else if d == 3 {
            '3'
        } else if d == 4 {
            '4'
        } else if d == 5 {
            '5'
        } else if d == 6 {
            '6'
        } else if d == 7 {
            '7'
        } else if d == 8 {
            '8'
        } else if d == 9 {
            '9'
        } else if d == 10 {
            'A'
        } else if d == 11 {
            'B'
        } else if d == 12 {
            'C'
        } else if d == 13 {
            'D'
        } else if d == 14 {
            'E'
        } else {
            'F'
        }
    } else {
        if d == 0 {
            '0'
        } else if d == 1 {
            '1'
        } else if d == 2 {
            '2'
        } else if d == 3 {
            '3'
        } else if d == 4 {
            '4'
        } else if d == 5 {
            '5'
        } else if d == 6 {
            '6'
        } else if d == 7 {
            '7'
        } else if d == 8 {
            '8'
        } else if d == 9 {
            '9'
        } else if d == 10 {
            'a'
        } else if d == 11 {
            'b'
        } else if d == 12 {
            'c'
        } else if d == 13 {
            'd'
        } else if d == 14 {
            'e'
        } else {
            'f'
        }
    };
    char_to_string(c)
}

fn push_hex(out: &mut String, n: u32, width: u32, upper: bool)
    ensures
        final(out)@ == old(out)@ + hex_text(n as nat, width as nat, upper),
    decreases width + n,
{
    if n < 16 && width <= 1 {
        let d = hex_digit_str(n, upper);
        out.append(d.as_str());
    } else {
        let w = if width > 0 { width - 1 } else { 0 };
        push_hex(out, n / 16, w, upper);
        let d = hex_digit_str(n % 16, upper);
        out.append(d.as_str());
    }
    assert(final(out)@ =~= old(out)@ + hex_text(n as nat, width as nat, upper));
}

fn utf8_len_exec(s: &Vec<char>) -> (r: u64)
    requires
        s@.len() < 0x1000_0000_0000,
    ensures
        r as nat == utf8_len(s@),
{
    let mut total: u64 = 0;
    let mut i: usize = 0;
    while i < s.len()
        invariant
            i <= s@.len() < 0x1000_0000_0000,
            total as nat == utf8_len(s@.subrange(0, i as int)),
            total <= 4 * i,
        decreases s@.len() - i,
    {
        proof {
            let t = s@.subrange(0, i as int + 1);
            assert(t.drop_last() =~= s@.subrange(0, i as int));
        }
        let c = s[i] as u32;
        let w: u64 = if c < 0x80 {
            1
        } else if c < 0x800 {
            2
        } else if c < 0x10000 {
            3
        } else {
            4
        };
        total = total + w;
        i = i + 1;
    }
    assert(s@.subrange(0, s@.len() as int) =~= s@);
    total
}

fn push_special_lines(out: &mut String, s: &Vec<char>) -> (found: bool)
    ensures
        final(out)@ == old(out)@ + special_lines(s@, s@.len()),
        found == (special_lines(s@, s@.len()).len() > 0),
{
    let ghost start = out@;
    let mut found = false;
    let mut i: usize = 0;
    while i < s.len()
        invariant
            i <= s@.len(),
            out@ == start + special_lines(s@, i as nat),
            found == (special_lines(s@, i as nat).len() > 0),
        decreases s@.len() - i,
    {
        let c = s[i];
        if c < ' ' || c > '~' {
            out.append("\n  [");
            push_nat(out, i as u64);
            out.append("]: '\\u{");
            push_hex(out, c as u32, 1, false);
            out.append("}' (Unicode: U+");
            push_hex(out, c as u32, 4, true);
            out.append(")");
            found = true;
        }
        i = i + 1;
        assert(out@ =~= start + special_lines(s@, i as nat));
    }
    found
}

/// The built-in view of string `s`: its length in bytes, its contents, and
/// the characters outside printable ASCII with their code points.
pub fn string_visualization(s: &String) -> (r: String)
    requires
        s@.len() < 0x1000_0000_0000,
    ensures
        r@ == string_view(s@),
{
    let c = to_chars(s.as_str());
    let mut r = String::from_str("String (length: ");
    push_nat(&mut r, utf8_len_exec(&c));
    r.append(")");
    if c.len() > 0 {
        r.append("\nContents: \"");
        r.append(s.as_str());
        r.append("\"");
        let mut special = String::new();
        let found = push_special_lines(&mut special, &c);
        if found {
            r.append("\nSpecial characters:");
            r.append(special.as_str());
        }
    }
    assert(r@ =~= string_view(s@));
    r
}


/// The lines `[i]: element` for the first `n` elements of `s`.
pub open spec fn content_lines(s: Seq<VariableValue>, n: nat) -> Seq<char>
    decreases n,
{
    if n == 0 || n > s.len() {
        Seq::empty()
    } else {
        content_lines(s, (n - 1) as nat) + "\n  ["@ + nat_text((n - 1) as nat) + "]: "@ + render(
            s[n - 1],
            0,
        )
    }
}

/// The lines `i: key => value` for the first `n` entries of `s`.
pub open spec fn map_lines(s: Seq<(VariableValue, VariableValue)>, n: nat) -> Seq<char>
    decreases n,
{
    if n == 0 || n > s.len() {
        Seq::empty()
    } else {
        map_lines(s, (n - 1) as nat) + "\n  "@ + nat_text((n - 1) as nat) + ": "@ + render(
            s[n - 1].0,
            0,
        ) + " => "@ + render(s[n - 1].1, 0)
    }
}

/// The smaller of `n` and ten.
pub open spec fn at_most_ten(n: nat) -> nat {
    if n > 10 {
        10
    } else {
        n
    }
}

/// The built-in view of a vector value.
pub open spec fn vec_view(elements: Seq<VariableValue>, length: nat, capacity: nat) -> Seq<char> {
    "Vec<_> (length: "@ + nat_text(length) + ", capacity: "@ + nat_text(capacity) + ")"@ + if elements.len()
        == 0 {
        Seq::empty()
    } else {
        "\nContents:"@ + content_lines(elements, at_most_ten(elements.len())) + if elements.len() > 10 {
            "\n  ... and "@ + nat_text((elements.len() - 10) as nat) + " more elements"@
        } else {
            Seq::empty()
        }
    }
}

/// The built-in view of a map value.
pub open spec fn map_view(entries: Seq<(VariableValue, VariableValue)>, size: nat, capacity: nat) -> Seq<char> {
    "HashMap (size: "@ + nat_text(size) + ", capacity: "@ + nat_text(capacity) + ")"@ + if entries.len()
        == 0 {
        Seq::empty()
    } else {
        "\nEntries:"@ + map_lines(entries, at_most_ten(entries.len())) + if entries.len() > 10 {
            "\n  ... and "@ + nat_text((entries.len() - 10) as nat) + " more entries"@
        } else {
            Seq::empty()
        }
    }
}

/// What built-in view `kind` shows for value `v`, if it applies to it.
pub open spec fn builtin_view(kind: VisualizerKind, v: VariableValue) -> Option<Seq<char>> {
    match (kind, v) {
        (VisualizerKind::VecView, VariableValue::Vec { elements, length, capacity }) => Some(
            vec_view(elements@, length as nat, capacity as nat),
        ),
        (VisualizerKind::OptionView, VariableValue::Option(o)) => Some(
            match o {
                Some(b) => "Some"@ + "("@ + render(*b, 0) + ")"@,
                None => "None"@,
            },
        ),
        (VisualizerKind::ResultView, VariableValue::Complex { fields, .. }) => if field_position(
            fields@,
            "Ok"@,
        ) >= 0 {
            Some("Ok"@ + "("@ + render(fields@[field_position(fields@, "Ok"@)].1, 0) + ")"@)
        } else if field_position(fields@, "Err"@) >= 0 {
            Some("Err"@ + "("@ + render(fields@[field_position(fields@, "Err"@)].1, 0) + ")"@)
        } else {
            None
        },
        (VisualizerKind::StringView, VariableValue::String(t)) => if t@.len() < 0x1000_0000_0000 {
            Some(string_view(t@))
        } else {
            None
        },
        (VisualizerKind::HashMapView, VariableValue::HashMap { entries, size, capacity }) => Some(
            map_view(entries@, size as nat, capacity as nat),
        ),
        _ => None,
    }
}

fn push_content_lines(out: &mut String, s: &Vec<VariableValue>, n: usize)
    requires
        n <= s@.len(),
    ensures
        final(out)@ == old(out)@ + content_lines(s@, n as nat),
{
    let ghost start = out@;
    let mut i: usize = 0;
    while i < n
        invariant
            i <= n <= s@.len(),
            out@ == start + content_lines(s@, i as nat),
        decreases n - i,
    {
        out.append("\n  [");
        push_nat(out, i as u64);
        out.append("]: ");
        s[i].write_with_depth(out, 0);
        i = i + 1;
        assert(out@ =~= start + content_lines(s@, i as nat));
    }
}

fn push_map_lines(out: &mut String, s: &Vec<(VariableValue, VariableValue)>, n: usize)
    requires
        n <= s@.len(),
    ensures
        final(out)@ == old(out)@ + map_lines(s@, n as nat),
{
    let ghost start = out@;
    let mut i: usize = 0;
    while i < n
        invariant
            i <= n <= s@.len(),
            out@ == start + map_lines(s@, i as nat),
        decreases n - i,
    {
        out.append("\n  ");
        push_nat(out, i as u64);
        out.append(": ");
        s[i].0.write_with_depth(out, 0);
        out.append(" => ");
        s[i].1.write_with_depth(out, 0);
        i = i + 1;
        assert(out@ =~= start + map_lines(s@, i as nat));
    }
}

fn vec_visualization(elements: &Vec<VariableValue>, length: usize, capacity: usize) -> (r: String)
    ensures
        r@ == vec_view(elements@, length as nat, capacity as nat),
{
    let mut r = String::from_str("Vec<_> (length: ");
    push_nat(&mut r, length as u64);
    r.append(", capacity: ");
    push_nat(&mut r, capacity as u64);
    r.append(")");
    if elements.len() > 0 {
        r.append("\nContents:");
        let n = if elements.len() > 10 { 10 } else { elements.len() };
        push_content_lines(&mut r, elements, n);
        if elements.len() > 10 {
            r.append("\n  ... and ");
            push_nat(&mut r, (elements.len() - 10) as u64);
            r.append(" more elements");
        }
    }
    assert(r@ =~= vec_view(elements@, length as nat, capacity as nat));
    r
}

fn map_visualization(entries: &Vec<(VariableValue, VariableValue)>, size: usize, capacity: usize) -> (r: String)
    ensures
        r@ == map_view(entries@, size as nat, capacity as nat),
{
    let mut r = String::from_str("HashMap (size: ");
    push_nat(&mut r, size as u64);
    r.append(", capacity: ");
    push_nat(&mut r, capacity as u64);
    r.append(")");
    if entries.len() > 0 {
        r.append("\nEntries:");
        let n = if entries.len() > 10 { 10 } else { entries.len() };
        push_map_lines(&mut r, entries, n);
        if entries.len() > 10 {
            r.append("\n  ... and ");
            push_nat(&mut r, (entries.len() - 10) as u64);
            r.append(" more entries");
        }
    }
    assert(r@ =~= map_view(entries@, size as nat, capacity as nat));
    r
}

fn wrapped(label: &str, v: &VariableValue) -> (r: String)
    ensures
        r@ == label@ + "("@ + render(*v, 0) + ")"@,
{
    let mut r = String::from_str(label);
    r.append("(");
    v.write_with_depth(&mut r, 0);
    r.append(")");
    assert(r@ =~= label@ + "("@ + render(*v, 0) + ")"@);
    r
}

/// What built-in view `kind` shows for `value`, if it applies to it.
pub fn builtin_visualization(kind: VisualizerKind, value: &VariableValue) -> (r: Option<String>)
    ensures
        match r {
            Some(t) => builtin_view(kind, *value) == Some(t@),
            None => builtin_view(kind, *value) is None,
        },
{
    match (kind, value) {
        (VisualizerKind::VecView, VariableValue::Vec { elements, length, capacity }) => Some(
            vec_visualization(elements, *length, *capacity),
        ),
        (VisualizerKind::OptionView, VariableValue::Option(o)) => match o {
            Some(b) => Some(wrapped("Some", b)),
            None => Some(String::from_str("None")),
        },
        (VisualizerKind::ResultView, VariableValue::Complex { fields, .. }) => {
            match crate::evaluator::field_position_pub(fields, "Ok") {
                Some(p) => Some(wrapped("Ok", &fields[p].1)),
                None => match crate::evaluator::field_position_pub(fields, "Err") {
                    Some(p) => Some(wrapped("Err", &fields[p].1)),
                    None => None,
                },
            }
        },
        (VisualizerKind::StringView, VariableValue::String(t)) => {
            let n = t.unicode_len();
            if (n as u64) < 0x1000_0000_0000u64 {
                Some(string_visualization(t))
            } else {
                None
            }
        },
        (VisualizerKind::HashMapView, VariableValue::HashMap { entries, size, capacity }) => Some(
            map_visualization(entries, *size, *capacity),
        ),
        _ => None,
    }
}


/// The index of the first entry of `r` registered for `name`, or -1.
pub open spec fn kind_position(r: Seq<(String, VisualizerKind)>, name: Seq<char>) -> int
    decreases r.len(),
{
    if r.len() == 0 {
        -1
    } else if kind_position(r.drop_last(), name) >= 0 {
        kind_position(r.drop_last(), name)
    } else if r.last().0@ == name {
        r.len() - 1
    } else {
        -1
    }
}

/// Whether no two entries of `r` share a type name.
pub open spec fn keys_unique(r: Seq<(String, VisualizerKind)>) -> bool {
    forall|i: int, j: int| 0 <= i < j < r.len() ==> #[trigger] r[i].0@ != #[trigger] r[j].0@
}

proof fn lemma_absent_kind(r: Seq<(String, VisualizerKind)>, name: Seq<char>)
    requires
        kind_position(r, name) == -1,
    ensures
        forall|i: int| 0 <= i < r.len() ==> #[trigger] r[i].0@ != name,
    decreases r.len(),
{
    if r.len() > 0 {
        lemma_absent_kind(r.drop_last(), name);
        assert forall|i: int| 0 <= i < r.len() implies #[trigger] r[i].0@ != name by {
            if i < r.len() - 1 {
                assert(r.drop_last()[i] == r[i]);
            }
        }
    }
}

proof fn lemma_kind_position_bounds(r: Seq<(String, VisualizerKind)>, name: Seq<char>)
    ensures
        -1 <= kind_position(r, name) < r.len(),
        kind_position(r, name) >= 0 ==> r[kind_position(r, name)].0@ == name,
    decreases r.len(),
{
    if r.len() > 0 {
        lemma_kind_position_bounds(r.drop_last(), name);
    }
}

proof fn lemma_kind_prefix(r: Seq<(String, VisualizerKind)>, name: Seq<char>, i: int)
    requires
        0 <= i < r.len(),
        kind_position(r.subrange(0, i), name) == -1,
        r[i].0@ == name,
    ensures
        kind_position(r, name) == i,
    decreases r.len(),
{
    let t = r.subrange(0, i + 1);
    assert(t.drop_last() =~= r.subrange(0, i));
    if r.len() > i + 1 {
        assert(r.drop_last().subrange(0, i) =~= r.subrange(0, i));
        lemma_kind_prefix(r.drop_last(), name, i);
    } else {
        assert(t =~= r);
    }
}

fn find_kind(r: &Vec<(String, VisualizerKind)>, name: &str) -> (res: Option<usize>)
    ensures
        match res {
            Some(i) => kind_position(r@, name@) == i as int && i < r@.len(),
            None => kind_position(r@, name@) == -1,
        },
{
    let mut i: usize = 0;
    while i < r.len()
        invariant
            i <= r@.len(),
            kind_position(r@.subrange(0, i as int), name@) == -1,
        decreases r@.len() - i,
    {
        let t = Ghost(r@.subrange(0, i as int + 1));
        assert(t@.drop_last() =~= r@.subrange(0, i as int));
        if str_eq(r[i].0.as_str(), name) {
            proof {
                lemma_kind_prefix(r@, name@, i as int);
            }
            return Some(i);
        }
        i = i + 1;
    }
    assert(r@.subrange(0, r@.len() as int) =~= r@);
    None
}

/// The fallback view of a variable with no registered view, by its value.
pub open spec fn composite_view(type_label: Seq<char>, v: VariableValue) -> Seq<char> {
    match v {
        VariableValue::Struct(f) => type_label + " {"@ + struct_lines(f@, f@.len()) + "\n}"@,
        VariableValue::Complex { summary, fields, children, .. } => type_label + " {"@ + summary@
            + "}"@ + (if fields@.len() > 0 {
            "\nFields:"@ + struct_lines(fields@, fields@.len())
        } else {
            Seq::empty()
        }) + match children {
            Some(c) => if c@.len() > 0 {
                "\nElements:"@ + content_lines(c@, at_most_ten(c@.len())) + if c@.len() > 10 {
                    "\n  ... and "@ + nat_text((c@.len() - 10) as nat) + " more elements"@
                } else {
                    Seq::empty()
                }
            } else {
                Seq::empty()
            },
            None => Seq::empty(),
        },
        _ => type_label + " = "@ + render(v, 0),
    }
}

/// The lines `name: value` for the first `n` fields of `f`.
pub open spec fn struct_lines(f: Seq<(String, VariableValue)>, n: nat) -> Seq<char>
    decreases n,
{
    if n == 0 || n > f.len() {
        Seq::empty()
    } else {
        struct_lines(f, (n - 1) as nat) + "\n  "@ + f[n - 1].0@ + ": "@ + render(f[n - 1].1, 0)
    }
}

fn push_struct_lines(out: &mut String, f: &Vec<(String, VariableValue)>)
    ensures
        final(out)@ == old(out)@ + struct_lines(f@, f@.len()),
{
    let ghost start = out@;
    let mut i: usize = 0;
    while i < f.len()
        invariant
            i <= f@.len(),
            out@ == start + struct_lines(f@, i as nat),
        decreases f@.len() - i,
    {
        out.append("\n  ");
        out.append(f[i].0.as_str());
        out.append(": ");
        f[i].1.write_with_depth(out, 0);
        i = i + 1;
        assert(out@ =~= start + struct_lines(f@, i as nat));
    }
}

fn composite_visualization(type_label: &str, v: &VariableValue) -> (r: String)
    ensures
        r@ == composite_view(type_label@, *v),
{
    let mut r = String::from_str(type_label);
    match v {
        VariableValue::Struct(f) => {
            r.append(" {");
            push_struct_lines(&mut r, f);
            r.append("\n}");
        },
        VariableValue::Complex { summary, fields, children, .. } => {
            r.append(" {");
            r.append(summary.as_str());
            r.append("}");
            let mut part1 = String::new();
            if fields.len() > 0 {
                part1.append("\nFields:");
                push_struct_lines(&mut part1, fields);
            }
            let mut part2 = String::new();
            match children {
                Some(c) => {
                    if c.len() > 0 {
                        part2.append("\nElements:");
                        let n = if c.len() > 10 { 10 } else { c.len() };
                        push_content_lines(&mut part2, c, n);
                        if c.len() > 10 {
                            part2.append("\n  ... and ");
                            push_nat(&mut part2, (c.len() - 10) as u64);
                            part2.append(" more elements");
                        }
                    }
                },
                None => {},
            }
            r.append(part1.as_str());
            r.append(part2.as_str());
        },
        _ => {
            r.append(" = ");
            v.write_with_depth(&mut r, 0);
        },
    }
    assert(r@ =~= composite_view(type_label@, *v));
    r
}

/// The views registered by type name.
#[derive(Debug)]
pub struct TypeVisualizer {
    visualizers: Vec<(String, VisualizerKind)>,
}

/// What registry `reg` shows for `var` through a registered view, if any.
pub open spec fn registered_view(reg: Seq<(String, VisualizerKind)>, var: Variable) -> Option<Seq<char>> {
    if kind_position(reg, var.type_label@) >= 0 {
        builtin_view(reg[kind_position(reg, var.type_label@)].1, var.value)
    } else {
        None
    }
}

/// The view of `var` under type name `type_label` at nesting `depth`.
pub open spec fn composite_text(
    reg: Seq<(String, VisualizerKind)>,
    type_label: Seq<char>,
    var: Variable,
    depth: nat,
) -> Seq<char> {
    if depth > MAX_COMPOSITE_DEPTH {
        type_label + "... (max depth reached)"@
    } else {
        match registered_view(reg, var) {
            Some(t) => t,
            None => composite_view(type_label, var.value),
        }
    }
}

impl TypeVisualizer {
    /// No type name is registered twice.
    pub open spec fn wf(&self) -> bool {
        keys_unique(self.entries())
    }

    /// The registered views, in order of registration.
    pub closed spec fn entries(&self) -> Seq<(String, VisualizerKind)> {
        self.visualizers@
    }

    /// A registry with no views.
    pub fn new() -> (r: Self)
        ensures
            r.wf(),
            r.entries().len() == 0,
    {
        TypeVisualizer { visualizers: Vec::new() }
    }

    /// A registry with the built-in views of `Vec`, `Option`, `Result`,
    /// `String` and `HashMap`.
    pub fn with_default_visualizers() -> (r: Self)
        ensures
            r.wf(),
            r.entries().len() == 5,
            r.entries()[0].0@ == "Vec"@ && r.entries()[0].1 == VisualizerKind::VecView,
            r.entries()[1].0@ == "Option"@ && r.entries()[1].1 == VisualizerKind::OptionView,
            r.entries()[2].0@ == "Result"@ && r.entries()[2].1 == VisualizerKind::ResultView,
            r.entries()[3].0@ == "String"@ && r.entries()[3].1 == VisualizerKind::StringView,
            r.entries()[4].0@ == "HashMap"@ && r.entries()[4].1 == VisualizerKind::HashMapView,
    {
        let mut v: Vec<(String, VisualizerKind)> = Vec::new();
        v.push((String::from_str("Vec"), VisualizerKind::VecView));
        v.push((String::from_str("Option"), VisualizerKind::OptionView));
        v.push((String::from_str("Result"), VisualizerKind::ResultView));
        v.push((String::from_str("String"), VisualizerKind::StringView));
        v.push((String::from_str("HashMap"), VisualizerKind::HashMapView));
        proof {
            reveal_strlit("Vec");
            reveal_strlit("Option");
            reveal_strlit("Result");
            reveal_strlit("String");
            reveal_strlit("HashMap");
            assert(v@[1].0@[0] != v@[2].0@[0]);
            assert(v@[1].0@[0] != v@[3].0@[0]);
            assert(v@[2].0@[0] != v@[3].0@[0]);
            assert(v@[0].0@ != v@[1].0@);
            assert(v@[0].0@ != v@[2].0@);
            assert(v@[0].0@ != v@[3].0@);
            assert(v@[0].0@.len() != v@[4].0@.len());
            assert(v@[0].0@ != v@[4].0@);
            assert(v@[1].0@ != v@[2].0@);
            assert(v@[1].0@ != v@[3].0@);
            assert(v@[1].0@ != v@[4].0@);
            assert(v@[2].0@ != v@[3].0@);
            assert(v@[2].0@ != v@[4].0@);
            assert(v@[3].0@ != v@[4].0@);
        }
        TypeVisualizer { visualizers: v }
    }

    /// Registers view `kind` for type name `type_key`, replacing an earlier
    /// registration of that name.
    pub fn register_visualizer(&mut self, type_key: &str, kind: VisualizerKind)
        requires
            old(self).wf(),
        ensures
            final(self).wf(),
            ({
                let p = kind_position(old(self).entries(), type_key@);
                if p >= 0 {
                    final(self).entries() == old(self).entries().update(p, (final(self).entries()[p].0, kind))
                        && final(self).entries()[p].0@ == type_key@
                } else {
                    final(self).entries().len() == old(self).entries().len() + 1
                        && final(self).entries().drop_last() == old(self).entries()
                        && final(self).entries().last().0@ == type_key@
                        && final(self).entries().last().1 == kind
                }
            }),
    {
        proof {
            lemma_kind_position_bounds(self.visualizers@, type_key@);
        }
        match find_kind(&self.visualizers, type_key) {
            Some(i) => {
                self.visualizers.set(i, (String::from_str(type_key), kind));
                assert forall|a: int, b: int| 0 <= a < b < self.entries().len() implies #[trigger] self.entries()[a].0@
                    != #[trigger] self.entries()[b].0@ by {
                    assert(old(self).entries()[a].0@ != old(self).entries()[b].0@);
                }
            },
            None => {
                proof {
                    lemma_absent_kind(self.visualizers@, type_key@);
                }
                self.visualizers.push((String::from_str(type_key), kind));
                assert forall|a: int, b: int| 0 <= a < b < self.entries().len() implies #[trigger] self.entries()[a].0@
                    != #[trigger] self.entries()[b].0@ by {
                    assert(self.entries()[a] == old(self).entries()[a]);
                    if b < old(self).entries().len() {
                        assert(self.entries()[b] == old(self).entries()[b]);
                    }
                }
                assert(self.visualizers@.drop_last() =~= old(self).visualizers@);
            },
        }
    }

    /// Whether a view is registered for `type_key`.
    pub fn has_visualizer(&self, type_key: &str) -> (r: bool)
        ensures
            r == (kind_position(self.entries(), type_key@) >= 0),
    {
        find_kind(&self.visualizers, type_key).is_some()
    }

    /// The registered view of `variable`, if one is registered for its type
    /// and applies to its value.
    pub fn visualize(&self, variable: &Variable) -> (r: Option<String>)
        ensures
            match r {
                Some(t) => registered_view(self.entries(), *variable) == Some(t@),
                None => registered_view(self.entries(), *variable) is None,
            },
    {
        proof {
            lemma_kind_position_bounds(self.visualizers@, variable.type_label@);
        }
        match find_kind(&self.visualizers, variable.type_label.as_str()) {
            Some(i) => builtin_visualization(self.visualizers[i].1, &variable.value),
            None => None,
        }
    }

    /// The view of `var` under type name `type_label`: its registered view
    /// if it has one, else a layout of its fields or value.
    pub fn create_composite_visualization(&self, type_label: &str, var: &Variable, depth: usize) -> (r: String)
        ensures
            r@ == composite_text(self.entries(), type_label@, *var, depth as nat),
    {
        if depth > MAX_COMPOSITE_DEPTH {
            let mut r = String::from_str(type_label);
            r.append("... (max depth reached)");
            return r;
        }
        match self.visualize(var) {
            Some(t) => t,
            None => composite_visualization(type_label, &var.value),
        }
    }
}

} // verus!
