//! The expression evaluator shared by breakpoint conditions and watch
//! expressions.
//!
//! An expression is read over a character range. In order, it is: a variable
//! name; `a || b`; `a && b`; a comparison (`==`, `!=`, `>=`, `<=`, `>`, `<`);
//! a sum or difference (split at the last binary `+` or `-`); a product or
//! quotient (split at the last `*` or `/`); a member path `a.b.c`; an index
//! `a[n]`; an integer literal; or the literal `true`, `false` or a quoted
//! string. Arithmetic is exact over 64-bit integers: a quotient that is not
//! whole, or a result out of range, fails to evaluate; a zero divisor yields
//! a placeholder.
use vstd::prelude::*;
use crate::text::{char_to_string, int_text, int_to_string, str_eq};
use vstd::string::{StrSliceExecFns, StringExecFns};
use crate::variables::VariableInspector;
use crate::variables::{position_of, render, Variable, VariableValue};

verus! {

/// Whether `c` is white space, as Unicode's White_Space property lists it.
pub open spec fn is_ws(c: char) -> bool {
    ('\u{9}' <= c && c <= '\u{D}') || c == ' ' || c == '\u{85}' || c == '\u{A0}' || c == '\u{1680}'
        || ('\u{2000}' <= c && c <= '\u{200A}') || c == '\u{2028}' || c == '\u{2029}' || c
        == '\u{202F}' || c == '\u{205F}' || c == '\u{3000}'
}

/// The first index in `[lo, hi)` that holds no white space, or `hi`.
pub open spec fn skip_front(s: Seq<char>, lo: int, hi: int) -> int
    decreases hi - lo,
{
    if lo < hi && is_ws(s[lo]) {
        skip_front(s, lo + 1, hi)
    } else {
        lo
    }
}

/// The end of `[lo, hi)` once trailing white space is dropped.
pub open spec fn skip_back(s: Seq<char>, lo: int, hi: int) -> int
    decreases hi - lo,
{
    if lo < hi && is_ws(s[hi - 1]) {
        skip_back(s, lo, hi - 1)
    } else {
        hi
    }
}

/// The first index `k` in `[lo, hi)` with `s[k] == a`, or -1.
pub open spec fn find1(s: Seq<char>, lo: int, hi: int, a: char) -> int
    decreases hi - lo,
{
    if lo >= hi {
        -1
    } else if s[lo] == a {
        lo
    } else {
        find1(s, lo + 1, hi, a)
    }
}

/// The first index `k` in `[lo, hi)` where `a` then `b` stand, or -1.
pub open spec fn find2(s: Seq<char>, lo: int, hi: int, a: char, b: char) -> int
    decreases hi - lo,
{
    if lo + 1 >= hi {
        -1
    } else if s[lo] == a && s[lo + 1] == b {
        lo
    } else {
        find2(s, lo + 1, hi, a, b)
    }
}

/// The characters that may stand before a unary sign.
pub open spec fn is_op_char(c: char) -> bool {
    c == '+' || c == '-' || c == '*' || c == '/'
}

/// The last index `k` in `(lo, hi)` holding a binary `+` or `-`, or -1: one
/// whose nearest non-blank character before it is no operator.
pub open spec fn last_additive(s: Seq<char>, lo: int, hi: int) -> int
    decreases hi - lo,
{
    if hi - 1 <= lo {
        -1
    } else if (s[hi - 1] == '+' || s[hi - 1] == '-') && skip_back(s, lo, hi - 1) > lo
        && !is_op_char(s[skip_back(s, lo, hi - 1) - 1]) {
        hi - 1
    } else {
        last_additive(s, lo, hi - 1)
    }
}

/// The last index `k` in `(lo, hi)` holding `*` or `/`, or -1.
pub open spec fn last_multiplicative(s: Seq<char>, lo: int, hi: int) -> int
    decreases hi - lo,
{
    if hi - 1 <= lo {
        -1
    } else if s[hi - 1] == '*' || s[hi - 1] == '/' {
        hi - 1
    } else {
        last_multiplicative(s, lo, hi - 1)
    }
}

/// The comparison operators, in the order they are looked for.
pub open spec fn cmp_op_text(op: nat) -> Seq<char> {
    if op == 0 {
        seq!['=', '=']
    } else if op == 1 {
        seq!['!', '=']
    } else if op == 2 {
        seq!['>', '=']
    } else if op == 3 {
        seq!['<', '=']
    } else if op == 4 {
        seq!['>']
    } else {
        seq!['<']
    }
}

/// The first comparison operator that occurs in `[lo, hi)`, with its index.
pub open spec fn find_cmp(s: Seq<char>, lo: int, hi: int) -> (nat, int) {
    if find2(s, lo, hi, '=', '=') >= 0 {
        (0, find2(s, lo, hi, '=', '='))
    } else if find2(s, lo, hi, '!', '=') >= 0 {
        (1, find2(s, lo, hi, '!', '='))
    } else if find2(s, lo, hi, '>', '=') >= 0 {
        (2, find2(s, lo, hi, '>', '='))
    } else if find2(s, lo, hi, '<', '=') >= 0 {
        (3, find2(s, lo, hi, '<', '='))
    } else if find1(s, lo, hi, '>') >= 0 {
        (4, find1(s, lo, hi, '>'))
    } else if find1(s, lo, hi, '<') >= 0 {
        (5, find1(s, lo, hi, '<'))
    } else {
        (6, -1)
    }
}

/// Whether every character of `[lo, hi)` is a decimal digit.
pub open spec fn all_digits(s: Seq<char>, lo: int, hi: int) -> bool {
    forall|i: int| lo <= i < hi ==> '0' <= #[trigger] s[i] && s[i] <= '9'
}

/// The value of the digits in `[lo, hi)`.
pub open spec fn digits_value(s: Seq<char>, lo: int, hi: int) -> nat
    decreases hi - lo,
{
    if hi <= lo {
        0
    } else {
        digits_value(s, lo, hi - 1) * 10 + ((s[hi - 1] as nat) - ('0' as nat)) as nat
    }
}

/// The integer written in `[lo, hi)`: an optional `-` then at least one digit,
/// within the range of a 64-bit signed integer.
pub open spec fn parse_int(s: Seq<char>, lo: int, hi: int) -> Option<int> {
    if lo < hi && s[lo] == '-' {
        if lo + 1 < hi && all_digits(s, lo + 1, hi) && fits_i64(-(digits_value(s, lo + 1, hi) as int)) {
            Some(-(digits_value(s, lo + 1, hi) as int))
        } else {
            None
        }
    } else if lo < hi && all_digits(s, lo, hi) && fits_i64(digits_value(s, lo, hi) as int) {
        Some(digits_value(s, lo, hi) as int)
    } else {
        None
    }
}

/// The number a result text stands for: an integer, `true` (1), `false` (0),
/// or a character literal (its code point).
pub open spec fn numeric(t: Seq<char>) -> Option<int> {
    if parse_int(t, 0, t.len() as int) is Some {
        parse_int(t, 0, t.len() as int)
    } else if t == "true"@ {
        Some(1)
    } else if t == "false"@ {
        Some(0)
    } else if t.len() == 3 && t[0] == '\'' && t[2] == '\'' {
        Some((t[1] as u32) as int)
    } else {
        None
    }
}

/// The text of a boolean.
pub open spec fn bool_text(b: bool) -> Seq<char> {
    if b {
        "true"@
    } else {
        "false"@
    }
}

/// Whether `a` comes before `b` in lexicographic order of characters, both
/// read from index `i` on.
pub open spec fn lex_lt_from(a: Seq<char>, b: Seq<char>, i: int) -> bool
    decreases a.len() - i,
{
    if i < 0 || i >= b.len() {
        false
    } else if i >= a.len() {
        true
    } else if a[i] != b[i] {
        (a[i] as u32) < (b[i] as u32)
    } else {
        lex_lt_from(a, b, i + 1)
    }
}

/// Whether `a` comes before `b` in lexicographic order of characters.
pub open spec fn lex_lt(a: Seq<char>, b: Seq<char>) -> bool {
    lex_lt_from(a, b, 0)
}

/// The absolute value of `x`.
pub open spec fn abs(x: int) -> nat {
    if x < 0 {
        (-x) as nat
    } else {
        x as nat
    }
}

/// Whether result text `t` is a quoted string.
pub open spec fn is_quoted(t: Seq<char>) -> bool {
    t.len() >= 2 && t[0] == '"' && t[t.len() - 1] == '"'
}

/// The result of comparing two evaluated operands: numbers by value; other
/// texts by equality, and by lexicographic order only when both are strings.
pub open spec fn compare_text(l: Option<Seq<char>>, r: Option<Seq<char>>, op: nat) -> Option<
    Seq<char>,
> {
    match (l, r) {
        (Some(a), Some(b)) => if numeric(a) is Some && numeric(b) is Some {
            let x = numeric(a)->0;
            let y = numeric(b)->0;
            Some(
                bool_text(
                    if op == 0 {
                        x == y
                    } else if op == 1 {
                        x != y
                    } else if op == 2 {
                        x >= y
                    } else if op == 3 {
                        x <= y
                    } else if op == 4 {
                        x > y
                    } else {
                        x < y
                    },
                ),
            )
        } else if op == 0 {
            Some(bool_text(a == b))
        } else if op == 1 {
            Some(bool_text(a != b))
        } else if is_quoted(a) && is_quoted(b) {
            Some(
                bool_text(
                    if op == 2 {
                        !lex_lt(a, b)
                    } else if op == 3 {
                        !lex_lt(b, a)
                    } else if op == 4 {
                        lex_lt(b, a)
                    } else {
                        lex_lt(a, b)
                    },
                ),
            )
        } else {
            None
        },
        _ => None,
    }
}

/// Whether `x` fits a 64-bit signed integer.
pub open spec fn fits_i64(x: int) -> bool {
    i64::MIN <= x <= i64::MAX
}

/// The placeholder for a division by zero.
pub open spec fn division_by_zero_text() -> Seq<char> {
    "[Division by zero]"@
}

/// The result of an arithmetic operator on two evaluated operands.
pub open spec fn arith_text(l: Option<Seq<char>>, r: Option<Seq<char>>, op: char) -> Option<Seq<char>> {
    match (l, r) {
        (Some(a), Some(b)) => if numeric(a) is Some && numeric(b) is Some {
            let x = numeric(a)->0;
            let y = numeric(b)->0;
            if op == '/' && y == 0 {
                Some(division_by_zero_text())
            } else if op == '/' && abs(x) % abs(y) != 0 {
                None
            } else {
                let z = if op == '+' {
                    x + y
                } else if op == '-' {
                    x - y
                } else if op == '*' {
                    x * y
                } else if (x < 0) != (y < 0) {
                    -((abs(x) / abs(y)) as int)
                } else {
                    (abs(x) / abs(y)) as int
                };
                if !(op == '+' || op == '-' || op == '*' || op == '/') {
                    None
                } else if fits_i64(z) {
                    Some(int_text(z))
                } else {
                    None
                }
            }
        } else {
            None
        },
        _ => None,
    }
}

/// The index of the first field named `name`, or -1.
pub open spec fn field_position(f: Seq<(String, VariableValue)>, name: Seq<char>) -> int
    decreases f.len(),
{
    if f.len() == 0 {
        -1
    } else if field_position(f.drop_last(), name) >= 0 {
        field_position(f.drop_last(), name)
    } else if f.last().0@ == name {
        f.len() - 1
    } else {
        -1
    }
}

/// Descends into structure fields along the dotted path in `[lo, hi)`.
pub open spec fn member_text(v: VariableValue, s: Seq<char>, lo: int, hi: int) -> Option<Seq<char>>
    decreases hi - lo,
{
    let k = find1(s, lo, hi, '.');
    let name = if k < 0 {
        s.subrange(lo, hi)
    } else {
        s.subrange(lo, k)
    };
    match v {
        VariableValue::Struct(f) => {
            let p = field_position(f@, name);
            if p < 0 {
                None
            } else if k < 0 {
                Some(render(f@[p].1, 0))
            } else if lo <= k < hi {
                member_text(f@[p].1, s, k + 1, hi)
            } else {
                None
            }
        },
        _ => None,
    }
}

/// The value reached from `v` along the dotted field path in `[lo, hi)`.
pub open spec fn member_value(v: VariableValue, s: Seq<char>, lo: int, hi: int) -> Option<VariableValue>
    decreases hi - lo,
{
    let k = find1(s, lo, hi, '.');
    let name = if k < 0 {
        s.subrange(lo, hi)
    } else {
        s.subrange(lo, k)
    };
    match v {
        VariableValue::Struct(f) => {
            let p = field_position(f@, name);
            if p < 0 {
                None
            } else if k < 0 {
                Some(f@[p].1)
            } else if lo <= k < hi {
                member_value(f@[p].1, s, k + 1, hi)
            } else {
                None
            }
        },
        _ => None,
    }
}

/// The element at `idx` of an array or vector value, when within range.
pub open spec fn element_value(v: VariableValue, idx: nat) -> Option<VariableValue> {
    match v {
        VariableValue::Array(a) => if idx < a@.len() {
            Some(a@[idx as int])
        } else {
            None
        },
        VariableValue::Vec { elements, .. } => if idx < elements@.len() {
            Some(elements@[idx as int])
        } else {
            None
        },
        _ => None,
    }
}

/// The placeholder for an index past the end of a collection.
pub open spec fn out_of_range_text() -> Seq<char> {
    "[Index out of range]"@
}

/// The element at `idx` of an array or vector value.
pub open spec fn element_text(v: VariableValue, idx: nat) -> Option<Seq<char>> {
    match v {
        VariableValue::Array(a) => if idx < a@.len() {
            Some(render(a@[idx as int], 0))
        } else {
            Some(out_of_range_text())
        },
        VariableValue::Vec { elements, .. } => if idx < elements@.len() {
            Some(render(elements@[idx as int], 0))
        } else {
            Some(out_of_range_text())
        },
        _ => None,
    }
}

/// Whether the text of a floating-point value stands for a number other than
/// zero: it holds a nonzero digit, or is an infinity.
pub open spec fn float_truthy(t: Seq<char>) -> bool {
    t != "NaN"@ && ((exists|i: int| 0 <= i < t.len() && '1' <= #[trigger] t[i] && t[i] <= '9')
        || t == "inf"@ || t == "-inf"@)
}

/// Whether a value counts as true in a condition.
pub open spec fn truthy(v: VariableValue) -> bool {
    match v {
        VariableValue::Boolean(b) => b,
        VariableValue::Integer(i) => i != 0,
        VariableValue::Float(t) => float_truthy(t@),
        VariableValue::Char(c) => c != '\0',
        VariableValue::String(s) => s@.len() > 0,
        VariableValue::Array(a) => a@.len() > 0,
        VariableValue::Struct(f) => f@.len() > 0,
        VariableValue::Vec { elements, .. } => elements@.len() > 0,
        VariableValue::HashMap { entries, .. } => entries@.len() > 0,
        VariableValue::Option(o) => o is Some,
        VariableValue::Reference(_) => true,
        VariableValue::Complex { .. } => true,
        VariableValue::Null => false,
    }
}


/// The result of evaluating the expression in `[lo, hi)` of `s` against `vars`.
pub open spec fn eval(s: Seq<char>, lo: int, hi: int, vars: Seq<Variable>) -> Option<Seq<char>>
    decreases hi - lo, 0int,
{
    let l = skip_front(s, lo, hi);
    let h = skip_back(s, l, hi);
    if !(0 <= lo <= l && l < h && h <= hi && hi <= s.len()) {
        None
    } else if position_of(vars, s.subrange(l, h)) >= 0 {
        Some(render(vars[position_of(vars, s.subrange(l, h))].value, 0))
    } else if find2(s, l, h, '|', '|') >= 0 {
        let k = find2(s, l, h, '|', '|');
        if l <= k && k + 2 <= h {
            Some(bool_text(truth(s, l, k, vars) || truth(s, k + 2, h, vars)))
        } else {
            None
        }
    } else if find2(s, l, h, '&', '&') >= 0 {
        let k = find2(s, l, h, '&', '&');
        if l <= k && k + 2 <= h {
            Some(bool_text(truth(s, l, k, vars) && truth(s, k + 2, h, vars)))
        } else {
            None
        }
    } else if find_cmp(s, l, h).1 >= 0 {
        let op = find_cmp(s, l, h).0;
        let k = find_cmp(s, l, h).1;
        let w = if op < 4 { 2int } else { 1int };
        if l <= k && k + w <= h {
            compare_text(eval(s, l, k, vars), eval(s, k + w, h, vars), op)
        } else {
            None
        }
    } else if last_additive(s, l, h) >= 0 {
        let k = last_additive(s, l, h);
        if l <= k && k + 1 <= h {
            arith_text(eval(s, l, k, vars), eval(s, k + 1, h, vars), s[k])
        } else {
            None
        }
    } else if last_multiplicative(s, l, h) >= 0 {
        let k = last_multiplicative(s, l, h);
        if l <= k && k + 1 <= h {
            arith_text(eval(s, l, k, vars), eval(s, k + 1, h, vars), s[k])
        } else {
            None
        }
    } else if find1(s, l, h, '.') > l {
        let k = find1(s, l, h, '.');
        let b = position_of(vars, s.subrange(l, k));
        if b >= 0 && k < h {
            member_text(vars[b].value, s, k + 1, h)
        } else {
            None
        }
    } else if s[h - 1] == ']' && find1(s, l, h, '[') > l {
        let k = find1(s, l, h, '[');
        let b = position_of(vars, s.subrange(l, k));
        if b >= 0 && k + 1 < h - 1 && all_digits(s, k + 1, h - 1) {
            element_text(vars[b].value, digits_value(s, k + 1, h - 1))
        } else {
            None
        }
    } else if parse_int(s, l, h) is Some {
        Some(int_text(parse_int(s, l, h)->0))
    } else if s.subrange(l, h) == "true"@ || s.subrange(l, h) == "false"@ || (h - l >= 2 && s[l]
        == '"' && s[h - 1] == '"') {
        Some(s.subrange(l, h))
    } else {
        None
    }
}

/// The value that the expression in `[lo, hi)` names, when it is a
/// variable, a member path or an index within range; `None` for any other
/// expression, even one that names a value among operators.
pub open spec fn value_of(s: Seq<char>, lo: int, hi: int, vars: Seq<Variable>) -> Option<VariableValue> {
    let l = skip_front(s, lo, hi);
    let h = skip_back(s, l, hi);
    if !(0 <= lo <= l && l < h && h <= hi && hi <= s.len()) {
        None
    } else if position_of(vars, s.subrange(l, h)) >= 0 {
        Some(vars[position_of(vars, s.subrange(l, h))].value)
    } else if find2(s, l, h, '|', '|') >= 0 || find2(s, l, h, '&', '&') >= 0 || find_cmp(s, l, h).1
        >= 0 || last_additive(s, l, h) >= 0 || last_multiplicative(s, l, h) >= 0 {
        None
    } else if find1(s, l, h, '.') > l {
        let k = find1(s, l, h, '.');
        let b = position_of(vars, s.subrange(l, k));
        if b >= 0 && k < h {
            member_value(vars[b].value, s, k + 1, h)
        } else {
            None
        }
    } else if s[h - 1] == ']' && find1(s, l, h, '[') > l {
        let k = find1(s, l, h, '[');
        let b = position_of(vars, s.subrange(l, k));
        if b >= 0 && k + 1 < h - 1 && all_digits(s, k + 1, h - 1) {
            element_value(vars[b].value, digits_value(s, k + 1, h - 1))
        } else {
            None
        }
    } else {
        None
    }
}

/// Whether the expression in `[lo, hi)` holds as a condition: a value that
/// it names (a variable, a member, an element) by its truthiness; any other
/// result by its text, which holds when it is `true`, a number other than
/// zero, or a non-empty quoted string.
pub open spec fn truth(s: Seq<char>, lo: int, hi: int, vars: Seq<Variable>) -> bool
    decreases hi - lo, 1int,
{
    match value_of(s, lo, hi, vars) {
        Some(v) => truthy(v),
        None => match eval(s, lo, hi, vars) {
            Some(t) => (numeric(t) is Some && numeric(t)->0 != 0) || (is_quoted(t) && t.len() > 2),
            None => false,
        },
    }
}

/// The characters of `t`.
pub fn to_chars(t: &str) -> (r: Vec<char>)
    ensures
        r@ == t@,
{
    let n = t.unicode_len();
    let mut r: Vec<char> = Vec::new();
    let mut i: usize = 0;
    while i < n
        invariant
            n == t@.len(),
            i <= n,
            r@ == t@.subrange(0, i as int),
        decreases n - i,
    {
        r.push(t.get_char(i));
        i = i + 1;
        assert(r@ =~= t@.subrange(0, i as int));
    }
    assert(t@.subrange(0, n as int) =~= t@);
    r
}

/// The characters `s[lo..hi]` as a string.
pub fn chars_to_string(s: &Vec<char>, lo: usize, hi: usize) -> (r: String)
    requires
        lo <= hi <= s@.len(),
    ensures
        r@ == s@.subrange(lo as int, hi as int),
{
    let mut r = String::new();
    let mut i: usize = lo;
    while i < hi
        invariant
            lo <= i <= hi <= s@.len(),
            r@ == s@.subrange(lo as int, i as int),
        decreases hi - i,
    {
        let c = char_to_string(s[i]);
        r.append(c.as_str());
        i = i + 1;
        assert(r@ =~= s@.subrange(lo as int, i as int));
    }
    r
}

fn is_ws_exec(c: char) -> (r: bool)
    ensures
        r == is_ws(c),
{
    ('\u{9}' <= c && c <= '\u{D}') || c == ' ' || c == '\u{85}' || c == '\u{A0}' || c == '\u{1680}'
        || ('\u{2000}' <= c && c <= '\u{200A}') || c == '\u{2028}' || c == '\u{2029}' || c
        == '\u{202F}' || c == '\u{205F}' || c == '\u{3000}'
}

fn skip_front_exec(s: &Vec<char>, lo: usize, hi: usize) -> (r: usize)
    requires
        lo <= hi <= s@.len(),
    ensures
        r == skip_front(s@, lo as int, hi as int),
        lo <= r <= hi,
    decreases hi - lo,
{
    if lo < hi && is_ws_exec(s[lo]) {
        skip_front_exec(s, lo + 1, hi)
    } else {
        lo
    }
}

fn skip_back_exec(s: &Vec<char>, lo: usize, hi: usize) -> (r: usize)
    requires
        lo <= hi <= s@.len(),
    ensures
        r == skip_back(s@, lo as int, hi as int),
        lo <= r <= hi,
    decreases hi - lo,
{
    if lo < hi && is_ws_exec(s[hi - 1]) {
        skip_back_exec(s, lo, hi - 1)
    } else {
        hi
    }
}

fn find1_exec(s: &Vec<char>, lo: usize, hi: usize, a: char) -> (r: Option<usize>)
    requires
        lo <= hi <= s@.len(),
    ensures
        match r {
            Some(k) => find1(s@, lo as int, hi as int, a) == k && lo <= k < hi,
            None => find1(s@, lo as int, hi as int, a) == -1,
        },
    decreases hi - lo,
{
    if lo >= hi {
        None
    } else if s[lo] == a {
        Some(lo)
    } else {
        find1_exec(s, lo + 1, hi, a)
    }
}

fn find2_exec(s: &Vec<char>, lo: usize, hi: usize, a: char, b: char) -> (r: Option<usize>)
    requires
        lo <= hi <= s@.len(),
    ensures
        match r {
            Some(k) => find2(s@, lo as int, hi as int, a, b) == k && lo <= k && k + 2 <= hi,
            None => find2(s@, lo as int, hi as int, a, b) == -1,
        },
    decreases hi - lo,
{
    if hi - lo <= 1 {
        None
    } else if s[lo] == a && s[lo + 1] == b {
        Some(lo)
    } else {
        find2_exec(s, lo + 1, hi, a, b)
    }
}

fn is_op_char_exec(c: char) -> (r: bool)
    ensures
        r == is_op_char(c),
{
    c == '+' || c == '-' || c == '*' || c == '/'
}

fn last_additive_exec(s: &Vec<char>, lo: usize, hi: usize) -> (r: Option<usize>)
    requires
        lo <= hi <= s@.len(),
    ensures
        match r {
            Some(k) => last_additive(s@, lo as int, hi as int) == k && lo < k < hi,
            None => last_additive(s@, lo as int, hi as int) == -1,
        },
    decreases hi - lo,
{
    if hi - lo <= 1 {
        None
    } else if (s[hi - 1] == '+' || s[hi - 1] == '-') && {
        let b = skip_back_exec(s, lo, hi - 1);
        b > lo && !is_op_char_exec(s[b - 1])
    } {
        Some(hi - 1)
    } else {
        last_additive_exec(s, lo, hi - 1)
    }
}

fn last_multiplicative_exec(s: &Vec<char>, lo: usize, hi: usize) -> (r: Option<usize>)
    requires
        lo <= hi <= s@.len(),
    ensures
        match r {
            Some(k) => last_multiplicative(s@, lo as int, hi as int) == k && lo < k < hi,
            None => last_multiplicative(s@, lo as int, hi as int) == -1,
        },
    decreases hi - lo,
{
    if hi - lo <= 1 {
        None
    } else if s[hi - 1] == '*' || s[hi - 1] == '/' {
        Some(hi - 1)
    } else {
        last_multiplicative_exec(s, lo, hi - 1)
    }
}

fn find_cmp_exec(s: &Vec<char>, lo: usize, hi: usize) -> (r: Option<(u8, usize)>)
    requires
        lo <= hi <= s@.len(),
    ensures
        match r {
            Some((op, k)) => find_cmp(s@, lo as int, hi as int) == (op as nat, k as int) && op < 6
                && lo <= k && k + (if op < 4 { 2int } else { 1int }) <= hi,
            None => find_cmp(s@, lo as int, hi as int).1 == -1,
        },
{
    if let Some(k) = find2_exec(s, lo, hi, '=', '=') {
        return Some((0, k));
    }
    if let Some(k) = find2_exec(s, lo, hi, '!', '=') {
        return Some((1, k));
    }
    if let Some(k) = find2_exec(s, lo, hi, '>', '=') {
        return Some((2, k));
    }
    if let Some(k) = find2_exec(s, lo, hi, '<', '=') {
        return Some((3, k));
    }
    if let Some(k) = find1_exec(s, lo, hi, '>') {
        return Some((4, k));
    }
    if let Some(k) = find1_exec(s, lo, hi, '<') {
        return Some((5, k));
    }
    None
}

/// A prefix of a digit run is worth no more than the whole run.
pub proof fn lemma_digits_monotone(s: Seq<char>, lo: int, j: int, hi: int)
    requires
        lo <= j <= hi,
    ensures
        digits_value(s, lo, j) <= digits_value(s, lo, hi),
    decreases hi - j,
{
    if j < hi {
        lemma_digits_monotone(s, lo, j, hi - 1);
    }
}

fn digits_exec(s: &Vec<char>, lo: usize, hi: usize) -> (r: Option<u64>)
    requires
        lo <= hi <= s@.len(),
    ensures
        match r {
            Some(v) => all_digits(s@, lo as int, hi as int) && v as nat == digits_value(
                s@,
                lo as int,
                hi as int,
            ),
            None => !all_digits(s@, lo as int, hi as int) || digits_value(s@, lo as int, hi as int)
                > u64::MAX,
        },
{
    let mut v: u64 = 0;
    let mut i: usize = lo;
    while i < hi
        invariant
            lo <= i <= hi <= s@.len(),
            all_digits(s@, lo as int, i as int),
            v as nat == digits_value(s@, lo as int, i as int),
        decreases hi - i,
    {
        let c = s[i];
        if !('0' <= c && c <= '9') {
            return None;
        }
        let d = (c as u32 - '0' as u32) as u64;
        proof {
            lemma_digits_monotone(s@, lo as int, i as int + 1, hi as int);
        }
        if v > (u64::MAX - d) / 10 {
            assert(digits_value(s@, lo as int, i as int + 1) > u64::MAX) by (nonlinear_arith)
                requires
                    v > (u64::MAX - d) / 10,
                    digits_value(s@, lo as int, i as int + 1) == v * 10 + d,
            ;
            return None;
        }
        assert(v * 10 + d <= u64::MAX) by (nonlinear_arith)
            requires
                v <= (u64::MAX - d) / 10,
                d <= 9,
        ;
        v = v * 10 + d;
        i = i + 1;
    }
    Some(v)
}

/// The integer written in `s[lo..hi]`, as `parse_int` reads it.
pub fn parse_int_exec(s: &Vec<char>, lo: usize, hi: usize) -> (r: Option<i64>)
    requires
        lo <= hi <= s@.len(),
    ensures
        match r {
            Some(v) => parse_int(s@, lo as int, hi as int) == Some(v as int),
            None => parse_int(s@, lo as int, hi as int) is None,
        },
{
    if lo < hi && s[lo] == '-' {
        if lo + 1 < hi {
            match digits_exec(s, lo + 1, hi) {
                Some(v) => {
                    if v <= 9223372036854775808u64 {
                        if v == 9223372036854775808u64 {
                            Some(i64::MIN)
                        } else {
                            Some(0 - (v as i64))
                        }
                    } else {
                        None
                    }
                },
                None => None,
            }
        } else {
            None
        }
    } else if lo < hi {
        match digits_exec(s, lo, hi) {
            Some(v) => {
                if v <= i64::MAX as u64 {
                    Some(v as i64)
                } else {
                    None
                }
            },
            None => None,
        }
    } else {
        None
    }
}


fn is_true_text(t: &Vec<char>) -> (r: bool)
    ensures
        r == (t@ == "true"@),
{
    proof {
        reveal_strlit("true");
    }
    t.len() == 4 && t[0] == 't' && t[1] == 'r' && t[2] == 'u' && t[3] == 'e' && {
        assert(t@ =~= "true"@);
        true
    }
}

fn is_false_text(t: &Vec<char>) -> (r: bool)
    ensures
        r == (t@ == "false"@),
{
    proof {
        reveal_strlit("false");
    }
    t.len() == 5 && t[0] == 'f' && t[1] == 'a' && t[2] == 'l' && t[3] == 's' && t[4] == 'e' && {
        assert(t@ =~= "false"@);
        true
    }
}

fn numeric_exec(t: &Vec<char>) -> (r: Option<i64>)
    ensures
        match r {
            Some(v) => numeric(t@) == Some(v as int),
            None => numeric(t@) is None,
        },
{
    if let Some(v) = parse_int_exec(t, 0, t.len()) {
        return Some(v);
    }
    if is_true_text(t) {
        return Some(1);
    }
    if is_false_text(t) {
        return Some(0);
    }
    if t.len() == 3 && t[0] == '\'' && t[2] == '\'' {
        return Some(t[1] as u32 as i64);
    }
    None
}

fn lex_lt_exec(a: &Vec<char>, b: &Vec<char>) -> (r: bool)
    ensures
        r == lex_lt(a@, b@),
{
    let mut i: usize = 0;
    while i < a.len() && i < b.len() && a[i] == b[i]
        invariant
            i <= a@.len(),
            i <= b@.len(),
            lex_lt(a@, b@) == lex_lt_from(a@, b@, i as int),
        decreases a@.len() - i,
    {
        i = i + 1;
    }
    if i >= b.len() {
        false
    } else if i >= a.len() {
        true
    } else {
        (a[i] as u32) < (b[i] as u32)
    }
}

fn bool_string(b: bool) -> (r: String)
    ensures
        r@ == bool_text(b),
{
    if b {
        String::from_str("true")
    } else {
        String::from_str("false")
    }
}

fn compare_exec(l: Option<String>, r: Option<String>, op: u8) -> (res: Option<String>)
    requires
        op < 6,
    ensures
        match res {
            Some(t) => compare_text(
                match l { Some(x) => Some(x@), None => None },
                match r { Some(x) => Some(x@), None => None },
                op as nat,
            ) == Some(t@),
            None => compare_text(
                match l { Some(x) => Some(x@), None => None },
                match r { Some(x) => Some(x@), None => None },
                op as nat,
            ) is None,
        },
{
    match (l, r) {
        (Some(a), Some(b)) => {
            let ac = to_chars(a.as_str());
            let bc = to_chars(b.as_str());
            match (numeric_exec(&ac), numeric_exec(&bc)) {
                (Some(x), Some(y)) => {
                    let v = if op == 0 {
                        x == y
                    } else if op == 1 {
                        x != y
                    } else if op == 2 {
                        x >= y
                    } else if op == 3 {
                        x <= y
                    } else if op == 4 {
                        x > y
                    } else {
                        x < y
                    };
                    Some(bool_string(v))
                },
                _ => {
                    if op == 0 {
                        return Some(bool_string(a == b));
                    } else if op == 1 {
                        return Some(bool_string(!(a == b)));
                    }
                    let quoted = ac.len() >= 2 && ac[0] == '"' && ac[ac.len() - 1] == '"'
                        && bc.len() >= 2 && bc[0] == '"' && bc[bc.len() - 1] == '"';
                    if !quoted {
                        return None;
                    }
                    let v = if op == 2 {
                        !lex_lt_exec(&ac, &bc)
                    } else if op == 3 {
                        !lex_lt_exec(&bc, &ac)
                    } else if op == 4 {
                        lex_lt_exec(&bc, &ac)
                    } else {
                        lex_lt_exec(&ac, &bc)
                    };
                    Some(bool_string(v))
                },
            }
        },
        _ => None,
    }
}

fn arith_exec(l: Option<String>, r: Option<String>, op: char) -> (res: Option<String>)
    ensures
        match res {
            Some(t) => arith_text(
                match l { Some(x) => Some(x@), None => None },
                match r { Some(x) => Some(x@), None => None },
                op,
            ) == Some(t@),
            None => arith_text(
                match l { Some(x) => Some(x@), None => None },
                match r { Some(x) => Some(x@), None => None },
                op,
            ) is None,
        },
{
    match (l, r) {
        (Some(a), Some(b)) => {
            let ac = to_chars(a.as_str());
            let bc = to_chars(b.as_str());
            match (numeric_exec(&ac), numeric_exec(&bc)) {
                (Some(x), Some(y)) => {
                    let xi = x as i128;
                    let yi = y as i128;
                    if op == '/' && y == 0 {
                        return Some(String::from_str("[Division by zero]"));
                    }
                    let z: i128 = if op == '+' {
                        xi + yi
                    } else if op == '-' {
                        xi - yi
                    } else if op == '*' {
                        assert(-0x8000_0000_0000_0000 * 0x8000_0000_0000_0000 <= xi * yi
                            <= 0x8000_0000_0000_0000 * 0x8000_0000_0000_0000) by (nonlinear_arith)
                            requires
                                -0x8000_0000_0000_0000 <= xi <= 0x7fff_ffff_ffff_ffff,
                                -0x8000_0000_0000_0000 <= yi <= 0x7fff_ffff_ffff_ffff,
                        ;
                        xi * yi
                    } else if op == '/' {
                        let ax: u128 = if xi < 0 { (0 - xi) as u128 } else { xi as u128 };
                        let ay: u128 = if yi < 0 { (0 - yi) as u128 } else { yi as u128 };
                        if ax % ay != 0 {
                            return None;
                        }
                        let q = ax / ay;
                        assert(q <= ax) by (nonlinear_arith)
                            requires
                                ay >= 1,
                                q == ax / ay,
                        ;
                        if (xi < 0) != (yi < 0) {
                            0 - (q as i128)
                        } else {
                            q as i128
                        }
                    } else {
                        return None;
                    };
                    if z < i64::MIN as i128 || z > i64::MAX as i128 {
                        None
                    } else {
                        Some(int_to_string(z as i64))
                    }
                },
                _ => None,
            }
        },
        _ => None,
    }
}


proof fn lemma_field_position_bounds(f: Seq<(String, VariableValue)>, name: Seq<char>)
    ensures
        -1 <= field_position(f, name) < f.len(),
        field_position(f, name) >= 0 ==> f[field_position(f, name)].0@ == name,
    decreases f.len(),
{
    if f.len() > 0 {
        lemma_field_position_bounds(f.drop_last(), name);
    }
}

proof fn lemma_field_prefix(f: Seq<(String, VariableValue)>, name: Seq<char>, i: int)
    requires
        0 <= i < f.len(),
        field_position(f.subrange(0, i), name) == -1,
        f[i].0@ == name,
    ensures
        field_position(f, name) == i,
    decreases f.len(),
{
    let t = f.subrange(0, i + 1);
    assert(t.drop_last() =~= f.subrange(0, i));
    if f.len() > i + 1 {
        assert(f.drop_last().subrange(0, i) =~= f.subrange(0, i));
        lemma_field_prefix(f.drop_last(), name, i);
    } else {
        assert(t =~= f);
    }
}

fn field_position_exec(f: &Vec<(String, VariableValue)>, name: &str) -> (r: Option<usize>)
    ensures
        match r {
            Some(i) => field_position(f@, name@) == i as int && i < f@.len(),
            None => field_position(f@, name@) == -1,
        },
{
    let mut i: usize = 0;
    while i < f.len()
        invariant
            i <= f@.len(),
            field_position(f@.subrange(0, i as int), name@) == -1,
        decreases f@.len() - i,
    {
        let t = Ghost(f@.subrange(0, i as int + 1));
        assert(t@.drop_last() =~= f@.subrange(0, i as int));
        if str_eq(f[i].0.as_str(), name) {
            proof {
                lemma_field_prefix(f@, name@, i as int);
            }
            return Some(i);
        }
        i = i + 1;
    }
    assert(f@.subrange(0, f@.len() as int) =~= f@);
    None
}

/// The index of the first field named `name`, if any.
pub fn field_position_pub(f: &Vec<(String, VariableValue)>, name: &str) -> (r: Option<usize>)
    ensures
        match r {
            Some(i) => field_position(f@, name@) == i as int && i < f@.len(),
            None => field_position(f@, name@) == -1,
        },
{
    field_position_exec(f, name)
}

fn member_exec(v: &VariableValue, s: &Vec<char>, lo: usize, hi: usize) -> (r: Option<String>)
    requires
        lo <= hi <= s@.len(),
    ensures
        match r {
            Some(t) => member_text(*v, s@, lo as int, hi as int) == Some(t@),
            None => member_text(*v, s@, lo as int, hi as int) is None,
        },
    decreases hi - lo,
{
    let k = find1_exec(s, lo, hi, '.');
    let name = match k {
        Some(k) => chars_to_string(s, lo, k),
        None => chars_to_string(s, lo, hi),
    };
    match v {
        VariableValue::Struct(f) => {
            proof {
                lemma_field_position_bounds(f@, name@);
            }
            match field_position_exec(f, name.as_str()) {
                None => None,
                Some(p) => match k {
                    None => Some(f[p].1.to_string()),
                    Some(k) => member_exec(&f[p].1, s, k + 1, hi),
                },
            }
        },
        _ => None,
    }
}

fn element_exec(v: &VariableValue, idx: u64) -> (r: Option<String>)
    ensures
        match r {
            Some(t) => element_text(*v, idx as nat) == Some(t@),
            None => element_text(*v, idx as nat) is None,
        },
{
    match v {
        VariableValue::Array(a) => {
            if idx < a.len() as u64 {
                Some(a[idx as usize].to_string())
            } else {
                Some(String::from_str("[Index out of range]"))
            }
        },
        VariableValue::Vec { elements, .. } => {
            if idx < elements.len() as u64 {
                Some(elements[idx as usize].to_string())
            } else {
                Some(String::from_str("[Index out of range]"))
            }
        },
        _ => None,
    }
}

fn element_far(v: &VariableValue, idx: Ghost<nat>) -> (r: Option<String>)
    requires
        idx@ > u64::MAX,
    ensures
        opt_view(r) == element_text(*v, idx@),
{
    match v {
        VariableValue::Array(a) => {
            // A length is a `usize`, so it stands below the index.
            let _len = a.len();
            Some(String::from_str("[Index out of range]"))
        },
        VariableValue::Vec { elements, .. } => {
            let _len = elements.len();
            Some(String::from_str("[Index out of range]"))
        },
        _ => None,
    }
}

fn has_nonzero_digit(t: &Vec<char>) -> (r: bool)
    ensures
        r == exists|i: int| 0 <= i < t@.len() && '1' <= #[trigger] t@[i] && t@[i] <= '9',
{
    let mut i: usize = 0;
    while i < t.len()
        invariant
            i <= t@.len(),
            forall|j: int| 0 <= j < i ==> !('1' <= #[trigger] t@[j] && t@[j] <= '9'),
        decreases t@.len() - i,
    {
        if '1' <= t[i] && t[i] <= '9' {
            return true;
        }
        i = i + 1;
    }
    false
}

fn float_truthy_exec(t: &String) -> (r: bool)
    ensures
        r == float_truthy(t@),
{
    let c = to_chars(t.as_str());
    !str_eq(t.as_str(), "NaN") && (has_nonzero_digit(&c) || str_eq(t.as_str(), "inf") || str_eq(
        t.as_str(),
        "-inf",
    ))
}

/// Whether `v` counts as true in a condition.
pub fn truthy_exec(v: &VariableValue) -> (r: bool)
    ensures
        r == truthy(*v),
{
    match v {
        VariableValue::Boolean(b) => *b,
        VariableValue::Integer(i) => *i != 0,
        VariableValue::Float(t) => float_truthy_exec(t),
        VariableValue::Char(c) => *c != '\0',
        VariableValue::String(s) => s.unicode_len() > 0,
        VariableValue::Array(a) => a.len() > 0,
        VariableValue::Struct(f) => f.len() > 0,
        VariableValue::Vec { elements, .. } => elements.len() > 0,
        VariableValue::HashMap { entries, .. } => entries.len() > 0,
        VariableValue::Option(o) => o.is_some(),
        VariableValue::Reference(_) => true,
        VariableValue::Complex { .. } => true,
        VariableValue::Null => false,
    }
}


/// The spec view of an optional result string.
pub open spec fn opt_view(r: Option<String>) -> Option<Seq<char>> {
    match r {
        Some(t) => Some(t@),
        None => None,
    }
}

fn all_digits_exec(s: &Vec<char>, lo: usize, hi: usize) -> (r: bool)
    requires
        lo <= hi <= s@.len(),
    ensures
        r == all_digits(s@, lo as int, hi as int),
{
    let mut i: usize = lo;
    while i < hi
        invariant
            lo <= i <= hi <= s@.len(),
            all_digits(s@, lo as int, i as int),
        decreases hi - i,
    {
        if !('0' <= s[i] && s[i] <= '9') {
            return false;
        }
        i = i + 1;
    }
    true
}

fn lookup_range<'a>(s: &Vec<char>, lo: usize, hi: usize, vars: &'a VariableInspector) -> (r: Option<
    &'a Variable,
>)
    requires
        lo <= hi <= s@.len(),
    ensures
        match r {
            Some(v) => position_of(vars.vars(), s@.subrange(lo as int, hi as int)) >= 0 && *v
                == vars.vars()[position_of(vars.vars(), s@.subrange(lo as int, hi as int))],
            None => position_of(vars.vars(), s@.subrange(lo as int, hi as int)) == -1,
        },
{
    let name = chars_to_string(s, lo, hi);
    vars.get_variable(name.as_str())
}

#[verifier::rlimit(60)]
fn eval_exec(s: &Vec<char>, lo: usize, hi: usize, vars: &VariableInspector) -> (r: Option<String>)
    requires
        lo <= hi <= s@.len(),
    ensures
        opt_view(r) == eval(s@, lo as int, hi as int, vars.vars()),
    decreases hi - lo, 0int,
{
    let ghost vs = vars.vars();
    let l = skip_front_exec(s, lo, hi);
    let h = skip_back_exec(s, l, hi);
    if l >= h {
        return None;
    }
    if let Some(v) = lookup_range(s, l, h, vars) {
        return Some(v.value.to_string());
    }
    if let Some(k) = find2_exec(s, l, h, '|', '|') {
        let a = truth_exec(s, l, k, vars);
        let b = truth_exec(s, k + 2, h, vars);
        return Some(bool_string(a || b));
    }
    if let Some(k) = find2_exec(s, l, h, '&', '&') {
        let a = truth_exec(s, l, k, vars);
        let b = truth_exec(s, k + 2, h, vars);
        return Some(bool_string(a && b));
    }
    if let Some((op, k)) = find_cmp_exec(s, l, h) {
        let w: usize = if op < 4 { 2 } else { 1 };
        let a = eval_exec(s, l, k, vars);
        let b = eval_exec(s, k + w, h, vars);
        return compare_exec(a, b, op);
    }
    if let Some(k) = last_additive_exec(s, l, h) {
        let a = eval_exec(s, l, k, vars);
        let b = eval_exec(s, k + 1, h, vars);
        return arith_exec(a, b, s[k]);
    }
    if let Some(k) = last_multiplicative_exec(s, l, h) {
        let a = eval_exec(s, l, k, vars);
        let b = eval_exec(s, k + 1, h, vars);
        return arith_exec(a, b, s[k]);
    }
    let dot = find1_exec(s, l, h, '.');
    if dot.is_some() && dot.unwrap() > l {
        let k = dot.unwrap();
        return match lookup_range(s, l, k, vars) {
            Some(v) => member_exec(&v.value, s, k + 1, h),
            None => None,
        };
    }
    let bracket = find1_exec(s, l, h, '[');
    if s[h - 1] == ']' && bracket.is_some() && bracket.unwrap() > l {
        let k = bracket.unwrap();
        return match lookup_range(s, l, k, vars) {
            Some(v) => {
                if k + 1 < h - 1 {
                    if !all_digits_exec(s, k + 1, h - 1) {
                        None
                    } else {
                        match digits_exec(s, k + 1, h - 1) {
                            Some(idx) => element_exec(&v.value, idx),
                            None => element_far(&v.value, Ghost(digits_value(s@, k + 1, h - 1))),
                        }
                    }
                } else {
                    None
                }
            },
            None => None,
        };
    }
    if let Some(n) = parse_int_exec(s, l, h) {
        return Some(int_to_string(n));
    }
    let t = chars_to_string(s, l, h);
    let piece = to_chars(t.as_str());
    if is_true_text(&piece) || is_false_text(&piece) || (h - l >= 2 && s[l] == '"' && s[h - 1] == '"') {
        return Some(t);
    }
    None
}

fn member_ref<'a>(v: &'a VariableValue, s: &Vec<char>, lo: usize, hi: usize) -> (r: Option<&'a VariableValue>)
    requires
        lo <= hi <= s@.len(),
    ensures
        match r {
            Some(x) => member_value(*v, s@, lo as int, hi as int) == Some(*x),
            None => member_value(*v, s@, lo as int, hi as int) is None,
        },
    decreases hi - lo,
{
    let k = find1_exec(s, lo, hi, '.');
    let name = match k {
        Some(k) => chars_to_string(s, lo, k),
        None => chars_to_string(s, lo, hi),
    };
    match v {
        VariableValue::Struct(f) => {
            proof {
                lemma_field_position_bounds(f@, name@);
            }
            match field_position_exec(f, name.as_str()) {
                None => None,
                Some(p) => match k {
                    None => Some(&f[p].1),
                    Some(k) => member_ref(&f[p].1, s, k + 1, hi),
                },
            }
        },
        _ => None,
    }
}

fn element_ref(v: &VariableValue, idx: Option<u64>) -> (r: Option<&VariableValue>)
    ensures
        match idx {
            Some(i) => match r {
                Some(x) => element_value(*v, i as nat) == Some(*x),
                None => element_value(*v, i as nat) is None,
            },
            None => r is None,
        },
{
    let i = match idx {
        Some(i) => i,
        None => {
            return None;
        },
    };
    match v {
        VariableValue::Array(a) => {
            if i < a.len() as u64 {
                Some(&a[i as usize])
            } else {
                None
            }
        },
        VariableValue::Vec { elements, .. } => {
            if i < elements.len() as u64 {
                Some(&elements[i as usize])
            } else {
                None
            }
        },
        _ => None,
    }
}

fn value_of_exec<'a>(s: &Vec<char>, lo: usize, hi: usize, vars: &'a VariableInspector) -> (r: Option<
    &'a VariableValue,
>)
    requires
        lo <= hi <= s@.len(),
    ensures
        match r {
            Some(v) => value_of(s@, lo as int, hi as int, vars.vars()) == Some(*v),
            None => value_of(s@, lo as int, hi as int, vars.vars()) is None,
        },
{
    let l = skip_front_exec(s, lo, hi);
    let h = skip_back_exec(s, l, hi);
    if l >= h {
        return None;
    }
    if let Some(v) = lookup_range(s, l, h, vars) {
        return Some(&v.value);
    }
    if find2_exec(s, l, h, '|', '|').is_some() || find2_exec(s, l, h, '&', '&').is_some()
        || find_cmp_exec(s, l, h).is_some() || last_additive_exec(s, l, h).is_some()
        || last_multiplicative_exec(s, l, h).is_some() {
        return None;
    }
    let dot = find1_exec(s, l, h, '.');
    if dot.is_some() && dot.unwrap() > l {
        let k = dot.unwrap();
        return match lookup_range(s, l, k, vars) {
            Some(v) => member_ref(&v.value, s, k + 1, h),
            None => None,
        };
    }
    let bracket = find1_exec(s, l, h, '[');
    if s[h - 1] == ']' && bracket.is_some() && bracket.unwrap() > l {
        let k = bracket.unwrap();
        return match lookup_range(s, l, k, vars) {
            Some(v) => {
                if k + 1 < h - 1 && all_digits_exec(s, k + 1, h - 1) {
                    match digits_exec(s, k + 1, h - 1) {
                        Some(idx) => element_ref(&v.value, Some(idx)),
                        None => {
                            element_far_ref(&v.value, Ghost(digits_value(s@, k + 1, h - 1)))
                        },
                    }
                } else {
                    None
                }
            },
            None => None,
        };
    }
    None
}

fn element_far_ref(v: &VariableValue, idx: Ghost<nat>) -> (r: Option<&VariableValue>)
    requires
        idx@ > u64::MAX,
    ensures
        r is None,
        element_value(*v, idx@) is None,
{
    match v {
        VariableValue::Array(a) => {
            // A length is a `usize`, so it stands below the index.
            let _len = a.len();
            None
        },
        VariableValue::Vec { elements, .. } => {
            let _len = elements.len();
            None
        },
        _ => None,
    }
}

fn truth_exec(s: &Vec<char>, lo: usize, hi: usize, vars: &VariableInspector) -> (r: bool)
    requires
        lo <= hi <= s@.len(),
    ensures
        r == truth(s@, lo as int, hi as int, vars.vars()),
    decreases hi - lo, 1int,
{
    if let Some(v) = value_of_exec(s, lo, hi, vars) {
        return truthy_exec(v);
    }
    match eval_exec(s, lo, hi, vars) {
        Some(t) => {
            let c = to_chars(t.as_str());
            let nonzero = match numeric_exec(&c) {
                Some(n) => n != 0,
                None => false,
            };
            nonzero || (c.len() > 2 && c[0] == '"' && c[c.len() - 1] == '"')
        },
        None => false,
    }
}

/// Evaluates `expression` against the variables in scope; `None` when it
/// cannot be evaluated.
pub fn evaluate_expression(expression: &str, variables: &VariableInspector) -> (r: Option<String>)
    ensures
        opt_view(r) == eval(expression@, 0, expression@.len() as int, variables.vars()),
{
    let s = to_chars(expression);
    eval_exec(&s, 0, s.len(), variables)
}

/// Whether `condition` holds against the variables in scope.
pub fn condition_holds(condition: &str, variables: &VariableInspector) -> (r: bool)
    ensures
        r == truth(condition@, 0, condition@.len() as int, variables.vars()),
{
    let s = to_chars(condition);
    truth_exec(&s, 0, s.len(), variables)
}


/// The first index in `s[lo..hi]` that holds no white space, or `hi`.
pub fn skip_front_pub(s: &Vec<char>, lo: usize, hi: usize) -> (r: usize)
    requires
        lo <= hi <= s@.len(),
    ensures
        r == skip_front(s@, lo as int, hi as int),
        lo <= r <= hi,
{
    skip_front_exec(s, lo, hi)
}

/// The end of `s[lo..hi]` once trailing white space is dropped.
pub fn skip_back_pub(s: &Vec<char>, lo: usize, hi: usize) -> (r: usize)
    requires
        lo <= hi <= s@.len(),
    ensures
        r == skip_back(s@, lo as int, hi as int),
        lo <= r <= hi,
{
    skip_back_exec(s, lo, hi)
}

} // verus!
