//! Why a resolved source holds no `import` line: every line of the result
//! is a kept line, a `#line` directive or an include marker.

use vstd::prelude::*;

use crate::bento::lang::{lemma_next_newline, next_newline};
use crate::miso::includes::{
    begin_include, end_include, file_at, import_path, imported_module, include_dir, lemma_unvisited_drop, line_directive,
    lines_from, resolve_file, resolve_lines, strip_flags, trim_semicolons, unvisited, FileView,
};
use crate::text::{decimal, digit_char, is_ws, lead_ws, trail_ws, trim};

verus! {

/// `s` has no line feed.
pub open spec fn no_newline(s: Seq<char>) -> bool {
    forall|i: int| 0 <= i < s.len() ==> s[i] != '\n'
}

/// `s` is empty or ends with a line feed.
pub open spec fn line_ended(s: Seq<char>) -> bool {
    s.len() == 0 || s.last() == '\n'
}

proof fn lemma_decimal_no_newline(n: nat)
    ensures
        no_newline(decimal(n)),
    decreases n,
{
    assert(digit_char((n % 10) as nat) != '\n');
    if n >= 10 {
        lemma_decimal_no_newline(n / 10);
    }
}

/// Searching `a + b` from inside `b` finds the line feed that `b` has.
proof fn lemma_next_newline_shift(a: Seq<char>, b: Seq<char>, j: int)
    requires
        0 <= j <= b.len(),
    ensures
        next_newline(a + b, a.len() + j) == a.len() + next_newline(b, j),
    decreases b.len() - j,
{
    if j < b.len() {
        assert((a + b)[a.len() + j] == b[j]);
        if b[j] != '\n' {
            lemma_next_newline_shift(a, b, j + 1);
        }
    }
}

proof fn lemma_lines_shift(a: Seq<char>, b: Seq<char>, j: int)
    requires
        0 <= j <= b.len(),
    ensures
        lines_from(a + b, a.len() + j) == lines_from(b, j),
    decreases b.len() - j,
{
    if j < b.len() {
        lemma_next_newline_shift(a, b, j);
        lemma_next_newline(b, j);
        let e = next_newline(b, j);
        assert((a + b).subrange(a.len() + j, a.len() + e) =~= b.subrange(j, e));
        if e < b.len() {
            lemma_lines_shift(a, b, e + 1);
        }
    }
}

/// Searching `a + b` inside a line-ended `a` stops within `a`.
proof fn lemma_next_newline_prefix(a: Seq<char>, b: Seq<char>, from: int)
    requires
        0 <= from < a.len(),
        a.last() == '\n',
    ensures
        next_newline(a + b, from) == next_newline(a, from),
        next_newline(a, from) < a.len(),
    decreases a.len() - from,
{
    assert((a + b)[from] == a[from]);
    if a[from] != '\n' {
        lemma_next_newline_prefix(a, b, from + 1);
    }
}

proof fn lemma_lines_concat_from(a: Seq<char>, b: Seq<char>, from: int)
    requires
        0 <= from <= a.len(),
        line_ended(a),
    ensures
        lines_from(a + b, from) == lines_from(a, from) + lines_from(b, 0),
    decreases a.len() - from,
{
    if from == a.len() {
        lemma_lines_shift(a, b, 0);
        assert(lines_from(a, from) + lines_from(b, 0) =~= lines_from(b, 0));
    } else {
        lemma_next_newline_prefix(a, b, from);
        lemma_next_newline(a, from);
        let e = next_newline(a, from);
        assert((a + b).subrange(from, e) =~= a.subrange(from, e));
        lemma_lines_concat_from(a, b, e + 1);
        let piece = a.subrange(from, e);
        let line = if piece.len() > 0 && piece.last() == '\r' {
            piece.drop_last()
        } else {
            piece
        };
        assert(seq![line] + lines_from(a + b, e + 1) =~= seq![line] + lines_from(a, e + 1) + lines_from(b, 0));
    }
}

/// The lines of a line-ended text followed by another are the lines of
/// each, in turn.
pub proof fn lemma_lines_concat(a: Seq<char>, b: Seq<char>)
    requires
        line_ended(a),
    ensures
        lines_from(a + b, 0) == lines_from(a, 0) + lines_from(b, 0),
{
    lemma_lines_concat_from(a, b, 0);
}

/// The line that `lines_from` makes of `piece` when a line feed follows.
pub open spec fn strip_cr(piece: Seq<char>) -> Seq<char> {
    if piece.len() > 0 && piece.last() == '\r' {
        piece.drop_last()
    } else {
        piece
    }
}

/// A line without a line feed, then one, is that one line.
proof fn lemma_lines_single(x: Seq<char>)
    requires
        no_newline(x),
    ensures
        lines_from(x + seq!['\n'], 0) == seq![strip_cr(x)],
{
    let s = x + seq!['\n'];
    lemma_next_newline(s, 0);
    let e = next_newline(s, 0);
    assert(s[x.len() as int] == '\n');
    if e < x.len() {
        assert(s[e] == x[e]);
    }
    assert(e == x.len());
    assert(s.subrange(0, e) =~= x);
    assert(lines_from(s, e + 1) =~= Seq::<Seq<char>>::empty());
}

proof fn lemma_lead_ws_props(s: Seq<char>)
    ensures
        lead_ws(s) <= s.len(),
        forall|j: int| 0 <= j < lead_ws(s) ==> is_ws(#[trigger] s[j]),
        lead_ws(s) < s.len() ==> !is_ws(s[lead_ws(s) as int]),
    decreases s.len(),
{
    if s.len() > 0 && is_ws(s[0]) {
        let t = s.drop_first();
        lemma_lead_ws_props(t);
        assert forall|j: int| 0 <= j < lead_ws(s) implies is_ws(#[trigger] s[j]) by {
            if j > 0 {
                assert(s[j] == t[j - 1]);
            }
        }
        if lead_ws(s) < s.len() {
            assert(s[lead_ws(s) as int] == t[lead_ws(t) as int]);
        }
    }
}

proof fn lemma_trail_ws_props(s: Seq<char>)
    ensures
        trail_ws(s) <= s.len(),
        forall|j: int| s.len() - trail_ws(s) <= j < s.len() ==> is_ws(#[trigger] s[j]),
        trail_ws(s) < s.len() ==> !is_ws(s[s.len() - 1 - trail_ws(s)]),
    decreases s.len(),
{
    if s.len() > 0 && is_ws(s.last()) {
        let t = s.drop_last();
        lemma_trail_ws_props(t);
        assert forall|j: int| s.len() - trail_ws(s) <= j < s.len() implies is_ws(#[trigger] s[j]) by {
            if j < s.len() - 1 {
                assert(s[j] == t[j]);
            }
        }
        if trail_ws(s) < s.len() {
            assert(s[s.len() - 1 - trail_ws(s)] == t[t.len() - 1 - trail_ws(t)]);
        }
    }
}

/// A trailing whitespace character makes no difference to `trim`.
proof fn lemma_trim_drop_ws(s: Seq<char>)
    requires
        s.len() > 0,
        is_ws(s.last()),
    ensures
        trim(s.drop_last()) == trim(s),
{
    let t = s.drop_last();
    lemma_lead_ws_props(s);
    lemma_lead_ws_props(t);
    lemma_trail_ws_props(t);
    assert(trail_ws(s) == 1 + trail_ws(t));
    if lead_ws(t) < t.len() {
        // the first non-space character of `t` is also the first of `s`
        if lead_ws(s) < lead_ws(t) {
            assert(s[lead_ws(s) as int] == t[lead_ws(s) as int]);
        }
        if lead_ws(t) < lead_ws(s) {
            assert(s[lead_ws(t) as int] == t[lead_ws(t) as int]);
        }
        assert(lead_ws(s) == lead_ws(t));
        assert(s.subrange(lead_ws(s) as int, s.len() - trail_ws(s)) =~= t.subrange(lead_ws(t) as int, t.len() - trail_ws(t)));
    } else {
        if lead_ws(s) < s.len() {
            if lead_ws(s) < t.len() {
                assert(s[lead_ws(s) as int] == t[lead_ws(s) as int]);
            }
        }
    }
}

/// Dropping the carriage return before a line feed changes no import.
proof fn lemma_strip_cr_import(x: Seq<char>)
    ensures
        imported_module(strip_cr(x)) == imported_module(x),
{
    if x.len() > 0 && x.last() == '\r' {
        assert(is_ws('\r'));
        lemma_trim_drop_ws(x);
    }
}

/// No line of `s` is an `import` line.
pub open spec fn clean(s: Seq<char>) -> bool {
    forall|k: int| 0 <= k < lines_from(s, 0).len() ==> imported_module(#[trigger] lines_from(s, 0)[k]) is None
}

proof fn lemma_clean_line(x: Seq<char>)
    requires
        no_newline(x),
        imported_module(x) is None,
    ensures
        clean(x + seq!['\n']),
        line_ended(x + seq!['\n']),
{
    lemma_lines_single(x);
    lemma_strip_cr_import(x);
    assert(lines_from(x + seq!['\n'], 0)[0] == strip_cr(x));
}

proof fn lemma_clean_concat(a: Seq<char>, b: Seq<char>)
    requires
        clean(a),
        line_ended(a),
        clean(b),
        line_ended(b),
    ensures
        clean(a + b),
        line_ended(a + b),
{
    lemma_lines_concat(a, b);
    let la = lines_from(a, 0);
    let lb = lines_from(b, 0);
    assert forall|k: int| 0 <= k < lines_from(a + b, 0).len() implies imported_module(#[trigger] lines_from(a + b, 0)[k]) is None by {
        if k < la.len() {
            assert(lines_from(a + b, 0)[k] == la[k]);
        } else {
            assert(lines_from(a + b, 0)[k] == lb[k - la.len()]);
        }
    }
    if b.len() > 0 {
        assert((a + b).last() == b.last());
    } else {
        assert(a + b =~= a);
    }
}

/// A line whose first character is neither whitespace nor `i` imports
/// nothing.
proof fn lemma_not_import(x: Seq<char>)
    requires
        x.len() > 0,
        !is_ws(x[0]),
        x[0] != 'i',
    ensures
        imported_module(x) is None,
{
    lemma_trail_ws_props(x);
    assert(lead_ws(x) == 0);
    if trail_ws(x) == x.len() {
        assert(is_ws(x[0]));
    }
    let t = trim(x);
    assert(t[0] == x[0]);
    reveal_strlit("import ");
    if t.len() >= 7 {
        assert(t.subrange(0, 7)[0] == t[0]);
    }
}

proof fn lemma_sub_no_newline(s: Seq<char>, a: int, b: int)
    requires
        no_newline(s),
        0 <= a <= b <= s.len(),
    ensures
        no_newline(s.subrange(a, b)),
{
    assert forall|i: int| 0 <= i < b - a implies s.subrange(a, b)[i] != '\n' by {
        assert(s.subrange(a, b)[i] == s[a + i]);
    }
}

proof fn lemma_trim_no_newline(s: Seq<char>)
    requires
        no_newline(s),
    ensures
        no_newline(trim(s)),
{
    lemma_lead_ws_props(s);
    lemma_trail_ws_props(s);
    if lead_ws(s) < s.len() {
        if lead_ws(s) > s.len() - trail_ws(s) {
            assert(is_ws(s[lead_ws(s) as int]));
        }
        lemma_sub_no_newline(s, lead_ws(s) as int, s.len() - trail_ws(s));
    }
}

proof fn lemma_trim_semicolons_no_newline(s: Seq<char>)
    requires
        no_newline(s),
    ensures
        no_newline(trim_semicolons(s)),
    decreases s.len(),
{
    if s.len() > 0 && s.last() == ';' {
        lemma_sub_no_newline(s, 0, s.len() - 1);
        lemma_trim_semicolons_no_newline(s.drop_last());
    }
}

/// The module an import line names has no line feed.
proof fn lemma_module_no_newline(x: Seq<char>)
    requires
        no_newline(x),
        imported_module(x) is Some,
    ensures
        no_newline(imported_module(x)->0),
{
    let t = trim(x);
    reveal_strlit("import ");
    lemma_trim_no_newline(x);
    lemma_sub_no_newline(t, 7, t.len() as int);
    assert(t.skip(7) =~= t.subrange(7, t.len() as int));
    lemma_trim_semicolons_no_newline(t.skip(7));
    lemma_trim_no_newline(trim_semicolons(t.skip(7)));
}

proof fn lemma_concat_no_newline(a: Seq<char>, b: Seq<char>)
    requires
        no_newline(a),
        no_newline(b),
    ensures
        no_newline(a + b),
{
    assert forall|i: int| 0 <= i < (a + b).len() implies (a + b)[i] != '\n' by {
        if i < a.len() {
            assert((a + b)[i] == a[i]);
        } else {
            assert((a + b)[i] == b[i - a.len()]);
        }
    }
}

proof fn lemma_import_path_no_newline(dir: Seq<char>, module: Seq<char>)
    requires
        no_newline(dir),
        no_newline(module),
    ensures
        no_newline(import_path(dir, module)),
{
    reveal_strlit(".slang");
    reveal_strlit("/");
    let name = module + ".slang"@;
    lemma_concat_no_newline(module, ".slang"@);
    lemma_concat_no_newline(dir, name);
    lemma_concat_no_newline(dir, "/"@);
    lemma_concat_no_newline(dir + "/"@, name);
}

proof fn lemma_strip_flags_no_newline(s: Seq<char>)
    requires
        no_newline(s),
    ensures
        no_newline(strip_flags(s)),
    decreases s.len(),
{
    if s.len() >= 2 && s.subrange(0, 2) == "-I"@ {
        lemma_sub_no_newline(s, 2, s.len() as int);
        assert(s.skip(2) =~= s.subrange(2, s.len() as int));
        lemma_strip_flags_no_newline(s.skip(2));
    }
}

/// No line of a text has a line feed.
proof fn lemma_lines_no_newline(s: Seq<char>, from: int)
    ensures
        forall|k: int| 0 <= k < lines_from(s, from).len() ==> no_newline(#[trigger] lines_from(s, from)[k]),
    decreases s.len() - from,
{
    if 0 <= from < s.len() {
        lemma_next_newline(s, from);
        let e = next_newline(s, from);
        let piece = s.subrange(from, e);
        assert forall|i: int| 0 <= i < piece.len() implies piece[i] != '\n' by {
            assert(piece[i] == s[from + i]);
        }
        if piece.len() > 0 {
            lemma_sub_no_newline(piece, 0, piece.len() - 1);
            assert(piece.drop_last() =~= piece.subrange(0, piece.len() - 1));
        }
        if e < s.len() {
            lemma_lines_no_newline(s, e + 1);
            let rest = lines_from(s, e + 1);
            assert forall|k: int| 0 <= k < lines_from(s, from).len() implies no_newline(#[trigger] lines_from(s, from)[k]) by {
                if k > 0 {
                    assert(lines_from(s, from)[k] == rest[k - 1]);
                }
            }
        }
    }
}

/// A `#line` directive is a clean line of its own.
proof fn lemma_directive_clean(n: nat, path: Seq<char>)
    requires
        no_newline(path),
    ensures
        clean(line_directive(n, path)),
        line_ended(line_directive(n, path)),
{
    reveal_strlit("#line ");
    reveal_strlit(" \"");
    reveal_strlit("\"\n");
    reveal_strlit("\"");
    let x = "#line "@ + decimal(n) + " \""@ + path + "\""@;
    lemma_decimal_no_newline(n);
    lemma_concat_no_newline("#line "@, decimal(n));
    lemma_concat_no_newline("#line "@ + decimal(n), " \""@);
    lemma_concat_no_newline("#line "@ + decimal(n) + " \""@, path);
    lemma_concat_no_newline("#line "@ + decimal(n) + " \""@ + path, "\""@);
    assert(x[0] == '#');
    lemma_not_import(x);
    lemma_clean_line(x);
    assert(line_directive(n, path) =~= x + seq!['\n']);
}

/// An include marker line, `prefix` then the module, after an empty line.
proof fn lemma_marker_clean(prefix: Seq<char>, module: Seq<char>)
    requires
        no_newline(prefix),
        no_newline(module),
        prefix.len() > 0,
        prefix[0] == '/',
    ensures
        clean(seq!['\n'] + (prefix + module + seq!['\n'])),
        line_ended(seq!['\n'] + (prefix + module + seq!['\n'])),
{
    let empty = Seq::<char>::empty();
    lemma_not_import_empty();
    lemma_clean_line(empty);
    assert(empty + seq!['\n'] =~= seq!['\n']);
    let x = prefix + module;
    lemma_concat_no_newline(prefix, module);
    assert(x[0] == '/');
    lemma_not_import(x);
    lemma_clean_line(x);
    lemma_clean_concat(seq!['\n'], x + seq!['\n']);
}

proof fn lemma_not_import_empty()
    ensures
        imported_module(Seq::<char>::empty()) is None,
{
    reveal_strlit("import ");
}

proof fn lemma_begin_clean(module: Seq<char>)
    requires
        no_newline(module),
    ensures
        clean(begin_include(module)),
        line_ended(begin_include(module)),
{
    reveal_strlit("\n// begin include ");
    reveal_strlit("// begin include ");
    reveal_strlit("\n");
    lemma_marker_clean("// begin include "@, module);
    assert(begin_include(module) =~= seq!['\n'] + ("// begin include "@ + module + seq!['\n']));
}

proof fn lemma_end_clean(module: Seq<char>)
    requires
        no_newline(module),
    ensures
        clean(end_include(module)),
        line_ended(end_include(module)),
{
    reveal_strlit("\n// end include ");
    reveal_strlit("// end include ");
    reveal_strlit("\n");
    lemma_marker_clean("// end include "@, module);
    assert(end_include(module) =~= seq!['\n'] + ("// end include "@ + module + seq!['\n']));
}

proof fn lemma_resolve_file_clean(files: Seq<FileView>, path: Seq<char>, dir: Seq<char>, visited: Set<Seq<char>>)
    requires
        no_newline(path),
        no_newline(dir),
    ensures
        resolve_file(files, path, dir, visited) matches Ok((text, _)) ==> clean(text) && line_ended(text),
    decreases unvisited(files, visited), 1int, 0int,
{
    match file_at(files, path) {
        None => {},
        Some(text) => {
            lemma_directive_clean(1, path);
            lemma_lines_no_newline(text, 0);
            lemma_resolve_lines_clean(files, path, dir, lines_from(text, 0), 0, line_directive(1, path), visited, visited);
        },
    }
}

proof fn lemma_resolve_lines_clean(
    files: Seq<FileView>,
    path: Seq<char>,
    dir: Seq<char>,
    lines: Seq<Seq<char>>,
    k: int,
    acc: Seq<char>,
    visited: Set<Seq<char>>,
    floor: Set<Seq<char>>,
)
    requires
        no_newline(path),
        no_newline(dir),
        forall|i: int| 0 <= i < lines.len() ==> no_newline(#[trigger] lines[i]),
        clean(acc),
        line_ended(acc),
    ensures
        resolve_lines(files, path, dir, lines, k, acc, visited, floor) matches Ok((text, _)) ==> clean(text)
            && line_ended(text),
    decreases unvisited(files, floor), 0int, lines.len() - k,
{
    if k < 0 || k >= lines.len() || !floor.subset_of(visited) {
    } else {
        match imported_module(lines[k]) {
            None => {
                lemma_clean_line(lines[k]);
                assert(lines[k] + "\n"@ =~= lines[k] + seq!['\n']) by {
                    reveal_strlit("\n");
                }
                lemma_clean_concat(acc, lines[k] + "\n"@);
                assert(acc + lines[k] + "\n"@ =~= acc + (lines[k] + "\n"@));
                lemma_resolve_lines_clean(files, path, dir, lines, k + 1, acc + lines[k] + "\n"@, visited, floor);
            },
            Some(m) => {
                let mp = import_path(dir, m);
                lemma_module_no_newline(lines[k]);
                lemma_import_path_no_newline(dir, m);
                lemma_directive_clean((k + 2) as nat, path);
                if visited.contains(mp) {
                    lemma_clean_concat(acc, line_directive((k + 2) as nat, path));
                    lemma_resolve_lines_clean(files, path, dir, lines, k + 1, acc + line_directive((k + 2) as nat, path), visited, floor);
                } else if file_at(files, mp) is None {
                } else {
                    let inner = visited.insert(mp);
                    lemma_unvisited_drop(files, floor, inner, mp);
                    lemma_resolve_file_clean(files, mp, dir, inner);
                    match resolve_file(files, mp, dir, inner) {
                        Err(e) => {},
                        Ok((text, after)) => {
                            lemma_begin_clean(m);
                            lemma_end_clean(m);
                            let d = line_directive((k + 2) as nat, path);
                            lemma_clean_concat(acc, begin_include(m));
                            lemma_clean_concat(acc + begin_include(m), text);
                            lemma_clean_concat(acc + begin_include(m) + text, end_include(m));
                            lemma_clean_concat(acc + begin_include(m) + text + end_include(m), d);
                            lemma_resolve_lines_clean(
                                files,
                                path,
                                dir,
                                lines,
                                k + 1,
                                acc + begin_include(m) + text + end_include(m) + d,
                                after.union(inner),
                                floor,
                            );
                        },
                    }
                }
            },
        }
    }
}

/// Resolving a source inlines every import: no line of the resolved text
/// (as `str::lines` splits it) is an `import` line, for a source path and
/// an include flag without line feeds.
pub proof fn law_resolved_source_has_no_imports(files: Seq<FileView>, source: Seq<char>, flag: Seq<char>)
    requires
        no_newline(source),
        no_newline(flag),
    ensures
        resolve_file(files, source, include_dir(flag), Set::empty()) matches Ok((text, _)) ==> forall|k: int|
            0 <= k < lines_from(text, 0).len() ==> imported_module(#[trigger] lines_from(text, 0)[k]) is None,
{
    lemma_trim_no_newline(flag);
    lemma_strip_flags_no_newline(trim(flag));
    lemma_resolve_file_clean(files, source, include_dir(flag), Set::empty());
}

} // verus!
