use vstd::prelude::*;

use super::regex_ops::{is_regex_digit, regex_digit};
use super::types::BentoError;
use crate::text::{chars_of, decimal, push_all, is_ascii_ws, is_ascii_ws_exec, is_ws, is_ws_exec, string_of, trim, trim_range, u32_to_string};

verus! {

/// A binding named in shader source: descriptor set, binding number when
/// the source gives one, the variable's name, and the order of declaration.
#[derive(Clone, Debug, PartialEq, Eq)]
pub struct SourceBinding {
    pub set: u32,
    pub binding: Option<u32>,
    pub name: String,
    pub order: usize,
}

impl SourceBinding {
    pub open spec fn view_tuple(&self) -> (u32, Option<u32>, Seq<char>, usize) {
        (self.set, self.binding, self.name@, self.order)
    }
}

// ---------------------------------------------------------------- u32 parse

pub open spec fn is_ascii_digit(c: char) -> bool {
    '0' <= c && c <= '9'
}

/// Value of the decimal digit string `s` (most significant first).
pub open spec fn digits_value(s: Seq<char>) -> nat
    decreases s.len(),
{
    if s.len() == 0 {
        0
    } else {
        digits_value(s.drop_last()) * 10 + ((s.last() as u32) - ('0' as u32)) as nat
    }
}

/// `str::parse::<u32>` on a string without sign: `Some` exactly when it is a
/// non-empty run of ASCII digits whose value fits in 32 bits.
pub open spec fn parse_u32(s: Seq<char>) -> Option<u32> {
    if s.len() > 0 && (forall|i: int| 0 <= i < s.len() ==> is_ascii_digit(#[trigger] s[i])) && digits_value(s) <= u32::MAX {
        Some(digits_value(s) as u32)
    } else {
        None
    }
}

proof fn lemma_digits_value_mono(s: Seq<char>, k: int)
    requires
        0 <= k <= s.len(),
        forall|i: int| 0 <= i < s.len() ==> is_ascii_digit(#[trigger] s[i]),
    ensures
        digits_value(s.take(k)) <= digits_value(s),
    decreases s.len() - k,
{
    if k < s.len() {
        lemma_digits_value_mono(s, k + 1);
        assert(s.take(k + 1).drop_last() =~= s.take(k));
    } else {
        assert(s.take(k) =~= s);
    }
}

/// Parses the digits `s[a..b]` as a `u32`.
pub fn parse_u32_range(s: &Vec<char>, a: usize, b: usize) -> (r: Option<u32>)
    requires
        a <= b <= s@.len(),
    ensures
        r == parse_u32(s@.subrange(a as int, b as int)),
{
    let ghost sub = s@.subrange(a as int, b as int);
    if a == b {
        return None;
    }
    let mut i = a;
    while i < b
        invariant
            a <= i <= b <= s@.len(),
            sub == s@.subrange(a as int, b as int),
            forall|j: int| 0 <= j < i - a ==> is_ascii_digit(#[trigger] sub[j]),
        decreases b - i,
    {
        if !('0' <= s[i] && s[i] <= '9') {
            assert(sub[i - a] == s@[i as int]);
            return None;
        }
        assert(sub[i - a] == s@[i as int]);
        i = i + 1;
    }
    let mut value: u64 = 0;
    let mut i = a;
    assert(sub.take(0) =~= Seq::<char>::empty());
    while i < b
        invariant
            a <= i <= b <= s@.len(),
            sub == s@.subrange(a as int, b as int),
            forall|j: int| 0 <= j < sub.len() ==> is_ascii_digit(#[trigger] sub[j]),
            value == digits_value(sub.take(i - a)),
            value <= u32::MAX,
        decreases b - i,
    {
        assert(sub[i - a] == s@[i as int]);
        let d = (s[i] as u32 - '0' as u32) as u64;
        assert(sub.take(i - a + 1).drop_last() =~= sub.take(i - a));
        let next = value * 10 + d;
        if next > u32::MAX as u64 {
            proof {
                lemma_digits_value_mono(sub, i - a + 1);
            }
            return None;
        }
        value = next;
        i = i + 1;
    }
    assert(sub.take(b - a) =~= sub);
    Some(value as u32)
}

// ------------------------------------------------------------- layout scan

/// First index at or after `i` that is not whitespace (`\s*`).
pub open spec fn skip_ws(s: Seq<char>, i: int) -> int
    decreases s.len() - i,
{
    if 0 <= i < s.len() && is_ws(s[i]) { skip_ws(s, i + 1) } else { i }
}

/// First index at or after `i` that is not a `\d` digit.
pub open spec fn skip_digits(s: Seq<char>, i: int) -> int
    decreases s.len() - i,
{
    if 0 <= i < s.len() && regex_digit(s[i]) { skip_digits(s, i + 1) } else { i }
}

pub open spec fn lit_at(s: Seq<char>, i: int, lit: Seq<char>) -> bool {
    0 <= i && i + lit.len() <= s.len() && s.subrange(i, i + lit.len()) == lit
}

/// A match of `layout\s*\(\s*set\s*=\s*(\d+)\s*,\s*binding\s*=\s*(\d+)\s*\)`
/// starting at `i`: the spans of the two digit groups and the end of the
/// match.
pub struct LayoutMatch {
    pub set_start: int,
    pub set_end: int,
    pub binding_start: int,
    pub binding_end: int,
    pub end: int,
}

pub open spec fn layout_match(s: Seq<char>, i: int) -> Option<LayoutMatch> {
    if !lit_at(s, i, "layout"@) {
        None
    } else {
        let a = skip_ws(s, i + 6);
        if !lit_at(s, a, "("@) {
            None
        } else {
            let b = skip_ws(s, a + 1);
            if !lit_at(s, b, "set"@) {
                None
            } else {
                let c = skip_ws(s, b + 3);
                if !lit_at(s, c, "="@) {
                    None
                } else {
                    let d = skip_ws(s, c + 1);
                    let e = skip_digits(s, d);
                    if e == d {
                        None
                    } else {
                        let f = skip_ws(s, e);
                        if !lit_at(s, f, ","@) {
                            None
                        } else {
                            let g = skip_ws(s, f + 1);
                            if !lit_at(s, g, "binding"@) {
                                None
                            } else {
                                let h = skip_ws(s, g + 7);
                                if !lit_at(s, h, "="@) {
                                    None
                                } else {
                                    let k = skip_ws(s, h + 1);
                                    let m = skip_digits(s, k);
                                    if m == k {
                                        None
                                    } else {
                                        let p = skip_ws(s, m);
                                        if !lit_at(s, p, ")"@) {
                                            None
                                        } else {
                                            Some(LayoutMatch { set_start: d, set_end: e, binding_start: k, binding_end: m, end: p + 1 })
                                        }
                                    }
                                }
                            }
                        }
                    }
                }
            }
        }
    }
}

pub proof fn lemma_skip_ws(s: Seq<char>, i: int)
    requires
        0 <= i,
    ensures
        i <= skip_ws(s, i),
        i <= s.len() ==> skip_ws(s, i) <= s.len(),
    decreases s.len() - i,
{
    if 0 <= i < s.len() && is_ws(s[i]) {
        lemma_skip_ws(s, i + 1);
    }
}

pub proof fn lemma_skip_digits(s: Seq<char>, i: int)
    requires
        0 <= i,
    ensures
        i <= skip_digits(s, i),
        i <= s.len() ==> skip_digits(s, i) <= s.len(),
    decreases s.len() - i,
{
    if 0 <= i < s.len() && regex_digit(s[i]) {
        lemma_skip_digits(s, i + 1);
    }
}

pub proof fn lemma_layout_match(s: Seq<char>, i: int)
    requires
        0 <= i,
    ensures
        layout_match(s, i) matches Some(m) ==> i < m.set_start <= m.set_end <= m.binding_start <= m.binding_end < m.end <= s.len(),
{
    reveal_strlit("layout");
    reveal_strlit("(");
    reveal_strlit("set");
    reveal_strlit("=");
    reveal_strlit(",");
    reveal_strlit("binding");
    reveal_strlit(")");
    if lit_at(s, i, "layout"@) {
        lemma_skip_ws(s, i + 6);
        let a = skip_ws(s, i + 6);
        lemma_skip_ws(s, a + 1);
        let b = skip_ws(s, a + 1);
        lemma_skip_ws(s, b + 3);
        let c = skip_ws(s, b + 3);
        lemma_skip_ws(s, c + 1);
        let d = skip_ws(s, c + 1);
        lemma_skip_digits(s, d);
        let e = skip_digits(s, d);
        lemma_skip_ws(s, e);
        let f = skip_ws(s, e);
        lemma_skip_ws(s, f + 1);
        let g = skip_ws(s, f + 1);
        lemma_skip_ws(s, g + 7);
        let h = skip_ws(s, g + 7);
        lemma_skip_ws(s, h + 1);
        let k = skip_ws(s, h + 1);
        lemma_skip_digits(s, k);
        let m = skip_digits(s, k);
        lemma_skip_ws(s, m);
    }
}

fn skip_ws_exec(s: &Vec<char>, i: usize) -> (r: usize)
    requires
        i <= s@.len(),
    ensures
        r == skip_ws(s@, i as int),
        i <= r <= s@.len(),
{
    let mut j = i;
    while j < s.len() && is_ws_exec(s[j])
        invariant
            i <= j <= s@.len(),
            skip_ws(s@, i as int) == skip_ws(s@, j as int),
        decreases s@.len() - j,
    {
        j = j + 1;
    }
    j
}

fn skip_digits_exec(s: &Vec<char>, i: usize) -> (r: usize)
    requires
        i <= s@.len(),
    ensures
        r == skip_digits(s@, i as int),
        i <= r <= s@.len(),
{
    let mut j = i;
    while j < s.len() && is_regex_digit(s[j])
        invariant
            i <= j <= s@.len(),
            skip_digits(s@, i as int) == skip_digits(s@, j as int),
        decreases s@.len() - j,
    {
        j = j + 1;
    }
    j
}

fn lit_at_exec(s: &Vec<char>, i: usize, lit: &str) -> (r: bool)
    requires
        i <= s@.len(),
    ensures
        r == lit_at(s@, i as int, lit@),
{
    let p = chars_of(lit);
    crate::text::matches_at(s, i, s.len(), &p)
}

/// The layout match at `i`, as `(set_start, set_end, binding_start,
/// binding_end, end)`.
fn layout_match_exec(s: &Vec<char>, i: usize) -> (r: Option<(usize, usize, usize, usize, usize)>)
    requires
        i <= s@.len(),
    ensures
        match layout_match(s@, i as int) {
            None => r is None,
            Some(m) => r == Some((m.set_start as usize, m.set_end as usize, m.binding_start as usize, m.binding_end as usize, m.end as usize)),
        },
{
    proof {
        reveal_strlit("layout");
        reveal_strlit("(");
        reveal_strlit("set");
        reveal_strlit("=");
        reveal_strlit(",");
        reveal_strlit("binding");
        reveal_strlit(")");
        lemma_layout_match(s@, i as int);
        lemma_skip_ws(s@, i + 6);
    }
    let _n = s.len();
    if !lit_at_exec(s, i, "layout") {
        return None;
    }
    let a = skip_ws_exec(s, i + 6);
    if !lit_at_exec(s, a, "(") {
        return None;
    }
    let b = skip_ws_exec(s, a + 1);
    if !lit_at_exec(s, b, "set") {
        return None;
    }
    let c = skip_ws_exec(s, b + 3);
    if !lit_at_exec(s, c, "=") {
        return None;
    }
    let d = skip_ws_exec(s, c + 1);
    let e = skip_digits_exec(s, d);
    if e == d {
        return None;
    }
    let f = skip_ws_exec(s, e);
    if !lit_at_exec(s, f, ",") {
        return None;
    }
    let g = skip_ws_exec(s, f + 1);
    if !lit_at_exec(s, g, "binding") {
        return None;
    }
    let h = skip_ws_exec(s, g + 7);
    if !lit_at_exec(s, h, "=") {
        return None;
    }
    let k = skip_ws_exec(s, h + 1);
    let m = skip_digits_exec(s, k);
    if m == k {
        return None;
    }
    let p = skip_ws_exec(s, m);
    if !lit_at_exec(s, p, ")") {
        return None;
    }
    Some((d, e, k, m, p + 1))
}

// ------------------------------------------------------ declaration extent

/// First index at or after `i` that is not ASCII whitespace.
pub open spec fn skip_ascii_ws(s: Seq<char>, i: int) -> int
    decreases s.len() - i,
{
    if 0 <= i < s.len() && is_ascii_ws(s[i]) { skip_ascii_ws(s, i + 1) } else { i }
}

/// Index of the first `;` at brace depth 0 from `i` on, where `{` opens a
/// level and `}` closes one (never below 0).
pub open spec fn decl_end(s: Seq<char>, i: int, depth: nat) -> Option<int>
    decreases s.len() - i,
{
    if i < 0 || i >= s.len() {
        None
    } else if s[i] == '{' {
        decl_end(s, i + 1, depth + 1)
    } else if s[i] == '}' {
        decl_end(s, i + 1, if depth > 0 { (depth - 1) as nat } else { 0 })
    } else if s[i] == ';' && depth == 0 {
        Some(i)
    } else {
        decl_end(s, i + 1, depth)
    }
}

/// The declaration that follows a layout qualifier ending at `start`: the
/// text up to the first `;` outside braces, trimmed.
pub open spec fn declaration_from(s: Seq<char>, start: int) -> Option<Seq<char>> {
    let o = skip_ascii_ws(s, start);
    match decl_end(s, o, 0) {
        Some(e) => Some(trim(s.subrange(o, e))),
        None => None,
    }
}

/// The declaration following position `start` of `source`, up to the first
/// `;` outside braces and trimmed; `None` when no such `;` follows.
pub fn glsl_declaration_from(source: &Vec<char>, start: usize) -> (r: Option<String>)
    requires
        start <= source@.len(),
    ensures
        match declaration_from(source@, start as int) {
            Some(d) => r matches Some(x) && x@ == d,
            None => r is None,
        },
{
    let n = source.len();
    let mut offset = start;
    while offset < n && is_ascii_ws_exec(source[offset])
        invariant
            start <= offset <= n == source@.len(),
            skip_ascii_ws(source@, start as int) == skip_ascii_ws(source@, offset as int),
        decreases n - offset,
    {
        offset = offset + 1;
    }
    let mut depth: usize = 0;
    let mut index = offset;
    while index < n
        invariant
            offset <= index <= n == source@.len(),
            offset == skip_ascii_ws(source@, start as int),
            decl_end(source@, offset as int, 0) == decl_end(source@, index as int, depth as nat),
            depth <= index - offset,
        decreases n - index,
    {
        let c = source[index];
        if c == '{' {
            depth = depth + 1;
        } else if c == '}' {
            if depth > 0 {
                depth = depth - 1;
            }
        } else if c == ';' && depth == 0 {
            let (a, b) = trim_range(source, offset, index);
            let v = slice_chars(source, a, b);
            return Some(string_of(v.as_slice()));
        }
        index = index + 1;
    }
    None
}

/// A copy of `s[a..b]`.
pub fn slice_chars(s: &Vec<char>, a: usize, b: usize) -> (r: Vec<char>)
    requires
        a <= b <= s@.len(),
    ensures
        r@ == s@.subrange(a as int, b as int),
{
    let mut r: Vec<char> = Vec::new();
    let mut i = a;
    while i < b
        invariant
            a <= i <= b <= s@.len(),
            r@ == s@.subrange(a as int, i as int),
        decreases b - i,
    {
        r.push(s[i]);
        i = i + 1;
        assert(r@ =~= s@.subrange(a as int, i as int));
    }
    r
}

// ------------------------------------------------------------ identifiers

pub open spec fn is_ident_start(c: char) -> bool {
    ('A' <= c && c <= 'Z') || ('a' <= c && c <= 'z') || c == '_'
}

pub open spec fn is_ident_char(c: char) -> bool {
    is_ident_start(c) || ('0' <= c && c <= '9')
}

/// End of the run of identifier characters starting at `i`.
pub open spec fn ident_end(s: Seq<char>, i: int) -> int
    decreases s.len() - i,
{
    if 0 <= i < s.len() && is_ident_char(s[i]) { ident_end(s, i + 1) } else { i }
}

pub proof fn lemma_ident_end(s: Seq<char>, i: int)
    requires
        0 <= i <= s.len(),
    ensures
        i <= ident_end(s, i) <= s.len(),
    decreases s.len() - i,
{
    if i < s.len() && is_ident_char(s[i]) {
        lemma_ident_end(s, i + 1);
    }
}

/// The first match of `[A-Za-z_][A-Za-z0-9_]*` in `s` at or after `i`.
pub open spec fn first_ident(s: Seq<char>, i: int) -> Option<Seq<char>>
    decreases s.len() - i,
{
    if i < 0 || i >= s.len() {
        None
    } else if is_ident_start(s[i]) {
        Some(s.subrange(i, ident_end(s, i + 1)))
    } else {
        first_ident(s, i + 1)
    }
}

/// The last of the non-overlapping matches of `[A-Za-z_][A-Za-z0-9_]*` in
/// `s` at or after `i`, or `found` when there is none.
pub open spec fn last_ident(s: Seq<char>, i: int, found: Option<Seq<char>>) -> Option<Seq<char>>
    decreases s.len() - i,
{
    if i < 0 || i >= s.len() {
        found
    } else if is_ident_start(s[i]) {
        let e = ident_end(s, i + 1);
        proof {
            lemma_ident_end(s, i + 1);
        }
        last_ident(s, e, Some(s.subrange(i, e)))
    } else {
        last_ident(s, i + 1, found)
    }
}

/// Index of the first `c` in `s`, or its length.
pub open spec fn first_index(s: Seq<char>, c: char) -> int
    decreases s.len(),
{
    if s.len() == 0 {
        0
    } else if s[0] == c {
        0
    } else {
        1 + first_index(s.drop_first(), c)
    }
}

/// `s.split(c).next()`: what precedes the first `c`.
pub open spec fn before_first(s: Seq<char>, c: char) -> Seq<char> {
    s.take(first_index(s, c))
}

/// `s.rsplit(c).next()`: what follows the last `c`.
pub open spec fn after_last_char(s: Seq<char>, c: char) -> Seq<char> {
    s.skip(super::lang::after_last(s, c))
}

/// The name a declaration binds: for a block declaration the instance name
/// after the closing brace when there is one, else the last identifier
/// before the opening brace; otherwise the last identifier; type
/// annotations after `:` are ignored.
pub open spec fn binding_name(declaration: Seq<char>) -> Option<Seq<char>> {
    let t = trim(declaration);
    if t.contains('{') {
        let before = before_first(before_first(t, '{'), ':');
        let after = before_first(after_last_char(t, '}'), ':');
        if t.contains('}') && first_ident(after, 0) is Some {
            first_ident(after, 0)
        } else {
            last_ident(before, 0, None)
        }
    } else {
        last_ident(before_first(t, ':'), 0, None)
    }
}

fn is_ident_start_exec(c: char) -> (b: bool)
    ensures
        b == is_ident_start(c),
{
    ('A' <= c && c <= 'Z') || ('a' <= c && c <= 'z') || c == '_'
}

fn is_ident_char_exec(c: char) -> (b: bool)
    ensures
        b == is_ident_char(c),
{
    is_ident_start_exec(c) || ('0' <= c && c <= '9')
}

fn ident_end_exec(s: &Vec<char>, i: usize) -> (r: usize)
    requires
        i <= s@.len(),
    ensures
        r == ident_end(s@, i as int),
        i <= r <= s@.len(),
{
    let mut j = i;
    while j < s.len() && is_ident_char_exec(s[j])
        invariant
            i <= j <= s@.len(),
            ident_end(s@, i as int) == ident_end(s@, j as int),
        decreases s@.len() - j,
    {
        j = j + 1;
    }
    j
}

fn first_ident_exec(s: &Vec<char>) -> (r: Option<Vec<char>>)
    ensures
        match first_ident(s@, 0) {
            Some(x) => r matches Some(v) && v@ == x,
            None => r is None,
        },
{
    let n = s.len();
    let mut i: usize = 0;
    while i < n
        invariant
            i <= n == s@.len(),
            first_ident(s@, 0) == first_ident(s@, i as int),
        decreases n - i,
    {
        if is_ident_start_exec(s[i]) {
            let e = ident_end_exec(s, i + 1);
            return Some(slice_chars(s, i, e));
        }
        i = i + 1;
    }
    None
}

fn last_ident_exec(s: &Vec<char>) -> (r: Option<Vec<char>>)
    ensures
        match last_ident(s@, 0, None) {
            Some(x) => r matches Some(v) && v@ == x,
            None => r is None,
        },
{
    let n = s.len();
    let mut i: usize = 0;
    let mut found: Option<Vec<char>> = None;
    let ghost mut found_view: Option<Seq<char>> = None;
    while i < n
        invariant
            i <= n == s@.len(),
            last_ident(s@, 0, None) == last_ident(s@, i as int, found_view),
            match found_view {
                Some(x) => found matches Some(v) && v@ == x,
                None => found is None,
            },
        decreases n - i,
    {
        if is_ident_start_exec(s[i]) {
            let e = ident_end_exec(s, i + 1);
            let v = slice_chars(s, i, e);
            proof {
                found_view = Some(v@);
            }
            found = Some(v);
            i = e;
        } else {
            i = i + 1;
        }
    }
    found
}

pub fn first_index_exec(s: &Vec<char>, c: char) -> (r: usize)
    ensures
        r == first_index(s@, c),
        r <= s@.len(),
        (r < s@.len()) == s@.contains(c),
{
    let n = s.len();
    let mut i: usize = 0;
    while i < n && s[i] != c
        invariant
            i <= n == s@.len(),
            forall|j: int| 0 <= j < i ==> s@[j] != c,
        decreases n - i,
    {
        i = i + 1;
    }
    proof {
        lemma_first_index(s@, c, i as int);
        if i < n {
            assert(s@[i as int] == c);
        }
    }
    i
}

proof fn lemma_first_index(s: Seq<char>, c: char, i: int)
    requires
        0 <= i <= s.len(),
        forall|j: int| 0 <= j < i ==> s[j] != c,
        i == s.len() || s[i] == c,
    ensures
        first_index(s, c) == i,
    decreases s.len(),
{
    if i > 0 {
        let t = s.drop_first();
        assert forall|j: int| 0 <= j < i - 1 implies t[j] != c by {
            assert(t[j] == s[j + 1]);
        }
        if i < s.len() {
            assert(t[i - 1] == s[i]);
        }
        lemma_first_index(t, c, i - 1);
    }
}

/// The name of a block declaration `t` (one that holds `{`).
fn block_binding_name(t: &Vec<char>) -> (r: Option<String>)
    requires
        t@.contains('{'),
    ensures
        match (if t@.contains('}') && first_ident(before_first(after_last_char(t@, '}'), ':'), 0) is Some {
            first_ident(before_first(after_last_char(t@, '}'), ':'), 0)
        } else {
            last_ident(before_first(before_first(t@, '{'), ':'), 0, None)
        }) {
            Some(x) => r matches Some(v) && v@ == x,
            None => r is None,
        },
{
    let open_at = first_index_exec(t, '{');
    let head = slice_chars(t, 0, open_at);
    let colon = first_index_exec(&head, ':');
    let before = slice_chars(&head, 0, colon);
    assert(before@ =~= before_first(before_first(t@, '{'), ':'));
    let close_at = first_index_exec(t, '}');
    if close_at < t.len() {
        let start = super::lang::after_last_pub(t, 0, t.len(), '}');
        let tail = slice_chars(t, start, t.len());
        assert(t@.subrange(0, t@.len() as int) =~= t@);
        assert(tail@ =~= after_last_char(t@, '}'));
        let colon2 = first_index_exec(&tail, ':');
        let after = slice_chars(&tail, 0, colon2);
        assert(after@ =~= before_first(after_last_char(t@, '}'), ':'));
        if let Some(name) = first_ident_exec(&after) {
            return Some(string_of(name.as_slice()));
        }
    }
    match last_ident_exec(&before) {
        Some(name) => Some(string_of(name.as_slice())),
        None => None,
    }
}

/// The name bound by `declaration` (see `binding_name`).
pub fn extract_binding_name(declaration: &Vec<char>) -> (r: Option<String>)
    ensures
        match binding_name(declaration@) {
            Some(x) => r matches Some(v) && v@ == x,
            None => r is None,
        },
{
    let (a, b) = trim_range(declaration, 0, declaration.len());
    let t = slice_chars(declaration, a, b);
    assert(declaration@.subrange(0, declaration@.len() as int) =~= declaration@);
    assert(t@ == trim(declaration@));
    let open_at = first_index_exec(&t, '{');
    if open_at < t.len() {
        block_binding_name(&t)
    } else {
        let colon = first_index_exec(&t, ':');
        let seg = slice_chars(&t, 0, colon);
        assert(seg@ =~= before_first(t@, ':'));
        match last_ident_exec(&seg) {
            Some(name) => Some(string_of(name.as_slice())),
            None => None,
        }
    }
}

// ------------------------------------------------------------ GLSL scan

/// A binding as plain values: set, binding, name, order.
pub type BindingView = (u32, Option<u32>, Seq<char>, usize);

pub open spec fn binding_views(v: Seq<SourceBinding>) -> Seq<BindingView> {
    v.map_values(|b: SourceBinding| b.view_tuple())
}

pub open spec fn unnamed_glsl_message(set: u32, binding: u32) -> Seq<char> {
    "Unable to determine GLSL binding name for set "@ + decimal(set as nat) + " binding "@ + decimal(
        binding as nat,
    )
}

/// The binding that the layout match `m` (the `index`-th) declares, or the
/// message of the error it raises.
pub open spec fn glsl_entry(s: Seq<char>, m: LayoutMatch, index: nat) -> Result<BindingView, Seq<char>> {
    match parse_u32(s.subrange(m.set_start, m.set_end)) {
        None => Err("Missing GLSL descriptor set index"@),
        Some(set) => match parse_u32(s.subrange(m.binding_start, m.binding_end)) {
            None => Err("Missing GLSL descriptor binding index"@),
            Some(binding) => match declaration_from(s, m.end) {
                None => Err("Missing GLSL binding declaration"@),
                Some(d) => match binding_name(d) {
                    None => Err(unnamed_glsl_message(set, binding)),
                    Some(name) => Ok((set, Some(binding), name, index as usize)),
                },
            },
        },
    }
}

pub open spec fn prepend(a: Seq<BindingView>, r: Result<Seq<BindingView>, Seq<char>>) -> Result<Seq<BindingView>, Seq<char>> {
    match r {
        Ok(rest) => Ok(a + rest),
        Err(e) => Err(e),
    }
}

/// The bindings of the layout qualifiers found from `from` on (leftmost
/// first, without overlap), numbered from `index`; the first error stops
/// the scan.
pub open spec fn glsl_scan(s: Seq<char>, from: int, index: nat) -> Result<Seq<BindingView>, Seq<char>>
    decreases s.len() + 1 - from,
{
    if from < 0 || from > s.len() {
        Ok(Seq::empty())
    } else {
        match layout_match(s, from) {
            Some(m) => {
                proof {
                    lemma_layout_match(s, from);
                }
                match glsl_entry(s, m, index) {
                    Err(e) => Err(e),
                    Ok(b) => prepend(seq![b], glsl_scan(s, m.end, index + 1)),
                }
            },
            None => glsl_scan(s, from + 1, index),
        }
    }
}

proof fn lemma_glsl_scan_orders(s: Seq<char>, from: int, index: nat)
    ensures
        glsl_scan(s, from, index) matches Ok(v) ==> forall|i: int| 0 <= i < v.len() ==> (#[trigger] v[i]).3 == (index + i) as usize,
    decreases s.len() + 1 - from,
{
    if 0 <= from <= s.len() {
        match layout_match(s, from) {
            Some(m) => {
                lemma_layout_match(s, from);
                lemma_glsl_scan_orders(s, m.end, index + 1);
                if let Ok(b) = glsl_entry(s, m, index) {
                    if let Ok(rest) = glsl_scan(s, m.end, index + 1) {
                        let v = seq![b] + rest;
                        assert forall|i: int| 0 <= i < v.len() implies (#[trigger] v[i]).3 == (index + i) as usize by {
                            if i > 0 {
                                assert(v[i] == rest[i - 1]);
                            }
                        }
                    }
                }
            },
            None => {
                lemma_glsl_scan_orders(s, from + 1, index);
            },
        }
    }
}

/// The GLSL bindings are numbered in source order: the `i`-th binding
/// found has order `i`.
pub proof fn law_glsl_orders_follow_source(s: Seq<char>)
    ensures
        glsl_scan(s, 0, 0) matches Ok(v) ==> forall|i: int| 0 <= i < v.len() ==> (#[trigger] v[i]).3 == i as usize,
{
    lemma_glsl_scan_orders(s, 0, 0);
}

fn glsl_entry_exec(s: &Vec<char>, m: (usize, usize, usize, usize, usize), index: usize) -> (r: Result<SourceBinding, String>)
    requires
        m.0 <= m.1 <= m.2 <= m.3 <= m.4 <= s@.len(),
    ensures
        match glsl_entry(
            s@,
            LayoutMatch { set_start: m.0 as int, set_end: m.1 as int, binding_start: m.2 as int, binding_end: m.3 as int, end: m.4 as int },
            index as nat,
        ) {
            Ok(b) => r matches Ok(x) && x.view_tuple() == b,
            Err(e) => r matches Err(x) && x@ == e,
        },
{
    proof {
        reveal_strlit("Missing GLSL descriptor set index");
        reveal_strlit("Missing GLSL descriptor binding index");
        reveal_strlit("Missing GLSL binding declaration");
    }
    let set = match parse_u32_range(s, m.0, m.1) {
        Some(v) => v,
        None => return Err(string_of(chars_of("Missing GLSL descriptor set index").as_slice())),
    };
    let binding = match parse_u32_range(s, m.2, m.3) {
        Some(v) => v,
        None => return Err(string_of(chars_of("Missing GLSL descriptor binding index").as_slice())),
    };
    let declaration = match glsl_declaration_from(s, m.4) {
        Some(d) => d,
        None => return Err(string_of(chars_of("Missing GLSL binding declaration").as_slice())),
    };
    let dchars = chars_of(declaration.as_str());
    match extract_binding_name(&dchars) {
        Some(name) => Ok(SourceBinding { set, binding: Some(binding), name, order: index }),
        None => {
            let mut msg = String::new();
            push_all(&mut msg, "Unable to determine GLSL binding name for set ");
            let set_text = u32_to_string(set);
            push_all(&mut msg, set_text.as_str());
            push_all(&mut msg, " binding ");
            let binding_text = u32_to_string(binding);
            push_all(&mut msg, binding_text.as_str());
            assert(msg@ =~= unnamed_glsl_message(set, binding));
            Err(msg)
        },
    }
}

proof fn lemma_prepend_push(a: Seq<BindingView>, b: BindingView, r: Result<Seq<BindingView>, Seq<char>>)
    ensures
        prepend(a, prepend(seq![b], r)) == prepend(a.push(b), r),
{
    if let Ok(rest) = r {
        assert(a + (seq![b] + rest) =~= a.push(b) + rest);
    }
}

/// The bindings that the GLSL layout qualifiers
/// `layout(set = S, binding = B)` of `source` declare, in source order;
/// a qualifier whose numbers do not parse, whose declaration has no `;`, or
/// whose declaration names nothing stops the scan with a
/// `ShaderCompilation` error.
pub fn parse_glsl_bindings(source: &str) -> (r: Result<Vec<SourceBinding>, BentoError>)
    ensures
        match glsl_scan(source@, 0, 0) {
            Ok(v) => r matches Ok(bs) && binding_views(bs@) == v,
            Err(e) => r matches Err(BentoError::ShaderCompilation(x)) && x@ == e,
        },
{
    let s = chars_of(source);
    let n = s.len();
    let mut acc: Vec<SourceBinding> = Vec::new();
    let mut pos: usize = 0;
    assert(binding_views(acc@) =~= Seq::<BindingView>::empty());
    assert(prepend(Seq::<BindingView>::empty(), glsl_scan(s@, 0, 0)) == glsl_scan(s@, 0, 0)) by {
        if let Ok(rest) = glsl_scan(s@, 0, 0) {
            assert(Seq::<BindingView>::empty() + rest =~= rest);
        }
    }
    while pos < n
        invariant
            n == s@.len(),
            s@ == source@,
            pos <= n,
            acc@.len() <= pos,
            glsl_scan(s@, 0, 0) == prepend(binding_views(acc@), glsl_scan(s@, pos as int, acc@.len() as nat)),
        decreases n - pos,
    {
        match layout_match_exec(&s, pos) {
            Some(m) => {
                proof {
                    lemma_layout_match(s@, pos as int);
                }
                let index = acc.len();
                match glsl_entry_exec(&s, m, index) {
                    Err(msg) => {
                        return Err(BentoError::ShaderCompilation(msg));
                    },
                    Ok(b) => {
                        let ghost before = acc@;
                        let ghost bv = b.view_tuple();
                        acc.push(b);
                        proof {
                            assert(binding_views(acc@) =~= binding_views(before).push(bv));
                            lemma_prepend_push(binding_views(before), bv, glsl_scan(s@, m.4 as int, acc@.len() as nat));
                        }
                        pos = m.4;
                    },
                }
            },
            None => {
                pos = pos + 1;
            },
        }
    }
    proof {
        reveal_strlit("layout");
        assert(layout_match(s@, n as int) is None);
        assert(glsl_scan(s@, n + 1, acc@.len() as nat) == Ok::<Seq<BindingView>, Seq<char>>(Seq::empty()));
        assert(glsl_scan(s@, n as int, acc@.len() as nat) == Ok::<Seq<BindingView>, Seq<char>>(Seq::empty()));
        assert(binding_views(acc@) + Seq::<BindingView>::empty() =~= binding_views(acc@));
    }
    Ok(acc)
}

} // verus!
