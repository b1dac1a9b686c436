use vstd::prelude::*;

use crate::bento::glsl::slice_chars;
use crate::bento::lang::{lemma_next_newline, next_newline};
use crate::text::{chars_of, decimal, push_all, starts_with, string_of, trim, trim_range, usize_to_string};

verus! {

// ------------------------------------------------------------------ files

/// Shader sources by path: what the include resolver reads.
pub struct SourceTree {
    files: Vec<(String, String)>,
}

pub type FileView = (Seq<char>, Seq<char>);

pub open spec fn file_views(v: Seq<(String, String)>) -> Seq<FileView> {
    v.map_values(|f: (String, String)| (f.0@, f.1@))
}

/// The contents of the first file at `path`.
pub open spec fn file_at(files: Seq<FileView>, path: Seq<char>) -> Option<Seq<char>>
    decreases files.len(),
{
    if files.len() == 0 {
        None
    } else if files[0].0 == path {
        Some(files[0].1)
    } else {
        file_at(files.drop_first(), path)
    }
}

/// How many files have a path outside `visited`.
pub open spec fn unvisited(files: Seq<FileView>, visited: Set<Seq<char>>) -> nat
    decreases files.len(),
{
    if files.len() == 0 {
        0
    } else {
        unvisited(files.drop_first(), visited) + if visited.contains(files[0].0) {
            0nat
        } else {
            1nat
        }
    }
}

pub proof fn lemma_unvisited_mono(files: Seq<FileView>, a: Set<Seq<char>>, b: Set<Seq<char>>)
    requires
        a.subset_of(b),
    ensures
        unvisited(files, b) <= unvisited(files, a),
    decreases files.len(),
{
    if files.len() > 0 {
        lemma_unvisited_mono(files.drop_first(), a, b);
    }
}

/// Visiting a file's path leaves fewer files unvisited.
pub proof fn lemma_unvisited_drop(files: Seq<FileView>, a: Set<Seq<char>>, b: Set<Seq<char>>, p: Seq<char>)
    requires
        a.subset_of(b),
        file_at(files, p) is Some,
        !a.contains(p),
        b.contains(p),
    ensures
        unvisited(files, b) < unvisited(files, a),
    decreases files.len(),
{
    if files[0].0 == p {
        lemma_unvisited_mono(files.drop_first(), a, b);
    } else {
        lemma_unvisited_drop(files.drop_first(), a, b, p);
    }
}

impl SourceTree {
    pub closed spec fn view(&self) -> Seq<FileView> {
        file_views(self.files@)
    }

    pub fn new() -> (r: Self)
        ensures
            r@ == Seq::<FileView>::empty(),
    {
        let r = SourceTree { files: Vec::new() };
        assert(r@ =~= Seq::<FileView>::empty());
        r
    }

    /// Adds the file `path` with `contents` (an earlier file at the same
    /// path still wins).
    pub fn add(&mut self, path: &str, contents: &str)
        ensures
            final(self)@ == old(self)@.push((path@, contents@)),
    {
        let p = string_of(chars_of(path).as_slice());
        let c = string_of(chars_of(contents).as_slice());
        let ghost before = self@;
        self.files.push((p, c));
        assert(self@ =~= before.push((path@, contents@)));
    }

    fn read(&self, path: &Vec<char>) -> (r: Option<Vec<char>>)
        ensures
            match file_at(self@, path@) {
                Some(c) => r matches Some(v) && v@ == c,
                None => r is None,
            },
    {
        let ghost fv = self@;
        let n = self.files.len();
        let mut i: usize = 0;
        assert(fv.skip(0) =~= fv);
        while i < n
            invariant
                i <= n == self.files@.len(),
                fv == self@,
                file_at(fv, path@) == file_at(fv.skip(i as int), path@),
            decreases n - i,
        {
            let name = chars_of(self.files[i].0.as_str());
            assert(fv.skip(i as int)[0] == fv[i as int]);
            assert(fv.skip(i as int).drop_first() =~= fv.skip(i + 1));
            if chars_equal(&name, path) {
                return Some(chars_of(self.files[i].1.as_str()));
            }
            i = i + 1;
        }
        None
    }
}

fn chars_equal(a: &Vec<char>, b: &Vec<char>) -> (r: bool)
    ensures
        r == (a@ == b@),
{
    if a.len() != b.len() {
        return false;
    }
    let n = a.len();
    let mut i: usize = 0;
    while i < n
        invariant
            i <= n == a@.len() == b@.len(),
            forall|j: int| 0 <= j < i ==> a@[j] == b@[j],
        decreases n - i,
    {
        if a[i] != b[i] {
            return false;
        }
        i = i + 1;
    }
    assert(a@ =~= b@);
    true
}

// ------------------------------------------------------------------ lines

/// `str::lines`: the pieces between line feeds from `from` on, a `\r`
/// before a line feed dropped; a final line feed ends the last line.
pub open spec fn lines_from(s: Seq<char>, from: int) -> Seq<Seq<char>>
    decreases s.len() - from,
{
    if from < 0 || from >= s.len() {
        Seq::empty()
    } else {
        let e = next_newline(s, from);
        proof {
            lemma_next_newline(s, from);
        }
        let piece = s.subrange(from, e);
        if e < s.len() {
            let line = if piece.len() > 0 && piece.last() == '\r' {
                piece.drop_last()
            } else {
                piece
            };
            seq![line] + lines_from(s, e + 1)
        } else {
            seq![piece]
        }
    }
}

/// `s` without its trailing `;` characters.
pub open spec fn trim_semicolons(s: Seq<char>) -> Seq<char>
    decreases s.len(),
{
    if s.len() > 0 && s.last() == ';' {
        trim_semicolons(s.drop_last())
    } else {
        s
    }
}

/// The module that a line imports: a trimmed line `import NAME;` names
/// `NAME` (trailing `;` and spaces dropped).
pub open spec fn imported_module(line: Seq<char>) -> Option<Seq<char>> {
    let t = trim(line);
    if starts_with(t, "import "@) {
        Some(trim(trim_semicolons(t.skip(7))))
    } else {
        None
    }
}

/// `Path::join` of `/`-separated paths: an absolute `name` replaces `dir`;
/// otherwise a separator goes between them when `dir` lacks one.
pub open spec fn join_path(dir: Seq<char>, name: Seq<char>) -> Seq<char> {
    if name.len() > 0 && name[0] == '/' {
        name
    } else if dir.len() == 0 || dir.last() == '/' {
        dir + name
    } else {
        dir + "/"@ + name
    }
}

pub open spec fn import_path(dir: Seq<char>, module: Seq<char>) -> Seq<char> {
    join_path(dir, module + ".slang"@)
}

pub open spec fn line_directive(line: nat, path: Seq<char>) -> Seq<char> {
    "#line "@ + decimal(line) + " \""@ + path + "\"\n"@
}

pub open spec fn begin_include(module: Seq<char>) -> Seq<char> {
    "\n// begin include "@ + module + "\n"@
}

pub open spec fn end_include(module: Seq<char>) -> Seq<char> {
    "\n// end include "@ + module + "\n"@
}

// ---------------------------------------------------------------- resolve

/// The text of file `path` with every `import` line replaced by the
/// imported module's own resolved text (once per module path over the whole
/// walk) between `begin include`/`end include` markers and followed by a
/// `#line` directive back into `path`; the other lines are kept.  The
/// result comes with the module paths visited; a file that is missing is
/// the error, by its path.
pub open spec fn resolve_file(files: Seq<FileView>, path: Seq<char>, dir: Seq<char>, visited: Set<Seq<char>>) -> Result<(Seq<char>, Set<Seq<char>>), Seq<char>>
    decreases unvisited(files, visited), 1int, 0int,
{
    match file_at(files, path) {
        None => Err(path),
        Some(text) => resolve_lines(files, path, dir, lines_from(text, 0), 0, line_directive(1, path), visited, visited),
    }
}

/// The lines `k..` of file `path`, appended to `acc`.  `floor` is the set
/// visited when the file was entered; the walk only adds to it.
pub open spec fn resolve_lines(
    files: Seq<FileView>,
    path: Seq<char>,
    dir: Seq<char>,
    lines: Seq<Seq<char>>,
    k: int,
    acc: Seq<char>,
    visited: Set<Seq<char>>,
    floor: Set<Seq<char>>,
) -> Result<(Seq<char>, Set<Seq<char>>), Seq<char>>
    decreases unvisited(files, floor), 0int, lines.len() - k,
{
    if k < 0 || k >= lines.len() || !floor.subset_of(visited) {
        Ok((acc, visited))
    } else {
        match imported_module(lines[k]) {
            None => resolve_lines(files, path, dir, lines, k + 1, acc + lines[k] + "\n"@, visited, floor),
            Some(m) => {
                let mp = import_path(dir, m);
                if visited.contains(mp) {
                    resolve_lines(files, path, dir, lines, k + 1, acc + line_directive((k + 2) as nat, path), visited, floor)
                } else if file_at(files, mp) is None {
                    Err(mp)
                } else {
                    let inner = visited.insert(mp);
                    proof {
                        lemma_unvisited_drop(files, floor, inner, mp);
                    }
                    match resolve_file(files, mp, dir, inner) {
                        Err(e) => Err(e),
                        Ok((text, after)) => resolve_lines(
                            files,
                            path,
                            dir,
                            lines,
                            k + 1,
                            acc + begin_include(m) + text + end_include(m) + line_directive((k + 2) as nat, path),
                            after.union(inner),
                            floor,
                        ),
                    }
                }
            },
        }
    }
}

// ----------------------------------------------------------- executable

pub open spec fn paths_view(v: Seq<Vec<char>>) -> Set<Seq<char>> {
    v.map_values(|p: Vec<char>| p@).to_set()
}

fn newline_from(s: &Vec<char>, from: usize) -> (r: usize)
    requires
        from <= s@.len(),
    ensures
        r == next_newline(s@, from as int),
        from <= r <= s@.len(),
{
    proof {
        lemma_next_newline(s@, from as int);
    }
    let mut i = from;
    while i < s.len() && s[i] != '\n'
        invariant
            from <= i <= s@.len(),
            next_newline(s@, from as int) == next_newline(s@, i as int),
        decreases s@.len() - i,
    {
        i = i + 1;
    }
    i
}

pub open spec fn lines_view(v: Seq<Vec<char>>) -> Seq<Seq<char>> {
    v.map_values(|l: Vec<char>| l@)
}

/// The lines of `s` (see `lines_from`).
pub fn lines_of(s: &Vec<char>) -> (r: Vec<Vec<char>>)
    ensures
        lines_view(r@) == lines_from(s@, 0),
{
    let n = s.len();
    let mut out: Vec<Vec<char>> = Vec::new();
    let mut pos: usize = 0;
    assert(lines_view(out@) + lines_from(s@, 0) =~= lines_from(s@, 0));
    while pos < n
        invariant
            pos <= n == s@.len(),
            lines_view(out@) + lines_from(s@, pos as int) == lines_from(s@, 0),
        decreases n - pos,
    {
        let e = newline_from(s, pos);
        let piece = slice_chars(s, pos, e);
        let ghost before = lines_view(out@);
        if e < n {
            let line = if piece.len() > 0 && piece[piece.len() - 1] == '\r' {
                slice_chars(&piece, 0, piece.len() - 1)
            } else {
                piece
            };
            proof {
                if piece@.len() > 0 && piece@.last() == '\r' {
                    assert(line@ =~= piece@.drop_last());
                }
            }
            let ghost lv = line@;
            out.push(line);
            assert(lines_view(out@) =~= before.push(lv));
            assert(before + (seq![lv] + lines_from(s@, e + 1)) =~= before.push(lv) + lines_from(s@, e + 1));
            pos = e + 1;
        } else {
            let ghost pv = piece@;
            out.push(piece);
            assert(lines_view(out@) =~= before.push(pv));
            assert(lines_from(s@, n as int) =~= Seq::<Seq<char>>::empty());
            assert(before + seq![pv] =~= before.push(pv) + lines_from(s@, n as int));
            pos = n;
        }
    }
    assert(lines_view(out@) + Seq::<Seq<char>>::empty() =~= lines_view(out@));
    out
}

fn imported_module_exec(line: &Vec<char>) -> (r: Option<Vec<char>>)
    ensures
        match imported_module(line@) {
            Some(m) => r matches Some(v) && v@ == m,
            None => r is None,
        },
{
    let (a, b) = trim_range(line, 0, line.len());
    assert(line@.subrange(0, line@.len() as int) =~= line@);
    let t = slice_chars(line, a, b);
    if !crate::text::range_starts_with(&t, 0, t.len(), "import ") {
        assert(t@.subrange(0, t@.len() as int) =~= t@);
        return None;
    }
    proof {
        reveal_strlit("import ");
        assert(t@.subrange(0, t@.len() as int) =~= t@);
    }
    let mut end = t.len();
    assert(t@.subrange(7, end as int) =~= t@.skip(7));
    while end > 7 && t[end - 1] == ';'
        invariant
            7 <= end <= t@.len(),
            trim_semicolons(t@.skip(7)) == trim_semicolons(t@.subrange(7, end as int)),
        decreases end,
    {
        assert(t@.subrange(7, end as int).drop_last() =~= t@.subrange(7, end - 1));
        end = end - 1;
    }
    let (x, y) = trim_range(&t, 7, end);
    Some(slice_chars(&t, x, y))
}

fn contains_path(visited: &Vec<Vec<char>>, p: &Vec<char>) -> (r: bool)
    ensures
        r == paths_view(visited@).contains(p@),
{
    let ghost pv = visited@.map_values(|q: Vec<char>| q@);
    let n = visited.len();
    let mut i: usize = 0;
    while i < n
        invariant
            i <= n == visited@.len(),
            pv == visited@.map_values(|q: Vec<char>| q@),
            forall|j: int| 0 <= j < i ==> #[trigger] pv[j] != p@,
        decreases n - i,
    {
        assert(pv[i as int] == visited@[i as int]@);
        if chars_equal(&visited[i], p) {
            assert(pv.contains(p@));
            return true;
        }
        i = i + 1;
    }
    assert(!pv.contains(p@));
    false
}

fn join_exec(dir: &Vec<char>, module: &Vec<char>) -> (r: Vec<char>)
    ensures
        r@ == import_path(dir@, module@),
{
    let mut name = slice_chars(module, 0, module.len());
    assert(name@ =~= module@);
    let ext = chars_of(".slang");
    let mut i: usize = 0;
    let ghost base = name@;
    while i < ext.len()
        invariant
            i <= ext@.len(),
            ext@ == ".slang"@,
            name@ == base + ext@.take(i as int),
        decreases ext@.len() - i,
    {
        name.push(ext[i]);
        i = i + 1;
        assert(name@ =~= base + ext@.take(i as int));
    }
    assert(ext@.take(ext@.len() as int) =~= ext@);
    if name.len() > 0 && name[0] == '/' {
        return name;
    }
    let mut out = slice_chars(dir, 0, dir.len());
    assert(out@ =~= dir@);
    if !(dir.len() == 0 || dir[dir.len() - 1] == '/') {
        out.push('/');
        proof {
            reveal_strlit("/");
        }
        assert(out@ =~= dir@ + "/"@);
    }
    let ghost prefix = out@;
    let mut j: usize = 0;
    while j < name.len()
        invariant
            j <= name@.len(),
            out@ == prefix + name@.take(j as int),
        decreases name@.len() - j,
    {
        out.push(name[j]);
        j = j + 1;
        assert(out@ =~= prefix + name@.take(j as int));
    }
    assert(name@.take(name@.len() as int) =~= name@);
    out
}

fn push_line_directive(out: &mut String, line: u128, path: &Vec<char>)
    ensures
        final(out)@ == old(out)@ + line_directive(line as nat, path@),
{
    let ghost before = out@;
    push_all(out, "#line ");
    let n = crate::text::u128_to_string(line);
    push_all(out, n.as_str());
    push_all(out, " \"");
    crate::text::push_chars(out, path);
    push_all(out, "\"\n");
    assert(out@ =~= before + line_directive(line as nat, path@));
}

fn copy_chars(v: &Vec<char>) -> (r: Vec<char>)
    ensures
        r@ == v@,
{
    let r = slice_chars(v, 0, v.len());
    assert(r@ =~= v@);
    r
}

/// Resolves the imports of file `path` (see `resolve_file`); `visited`
/// holds the module paths already inlined and gains those inlined now.
pub fn resolve_imports(tree: &SourceTree, path: &Vec<char>, dir: &Vec<char>, visited: &mut Vec<Vec<char>>) -> (r: Result<String, Vec<char>>)
    ensures
        paths_view(old(visited)@).subset_of(paths_view(final(visited)@)),
        match resolve_file(tree@, path@, dir@, paths_view(old(visited)@)) {
            Ok((text, after)) => r matches Ok(x) && x@ == text && paths_view(final(visited)@) == after,
            Err(e) => r matches Err(x) && x@ == e,
        },
    decreases unvisited(tree@, paths_view(old(visited)@)), 1int, 0int,
{
    let ghost floor = paths_view(visited@);
    let text = match tree.read(path) {
        None => {
            return Err(copy_chars(path));
        },
        Some(t) => t,
    };
    let lines = lines_of(&text);
    let mut acc = String::new();
    push_line_directive(&mut acc, 1, path);
    assert(acc@ =~= line_directive(1, path@));
    let n = lines.len();
    let mut k: usize = 0;
    while k < n
        invariant
            k <= n == lines@.len(),
            floor == paths_view(old(visited)@),
            floor.subset_of(paths_view(visited@)),
            resolve_file(tree@, path@, dir@, floor) == resolve_lines(tree@, path@, dir@, lines_view(lines@), k as int, acc@, paths_view(visited@), floor),
        decreases n - k,
    {
        let ghost lv = lines_view(lines@);
        let ghost cur = paths_view(visited@);
        assert(lv[k as int] == lines@[k as int]@);
        match imported_module_exec(&lines[k]) {
            None => {
                crate::text::push_chars(&mut acc, &lines[k]);
                push_all(&mut acc, "\n");
            },
            Some(m) => {
                let mp = join_exec(dir, &m);
                if contains_path(visited, &mp) {
                    push_line_directive(&mut acc, (k as u128) + 2, path);
                } else {
                    if tree.read(&mp).is_none() {
                        return Err(mp);
                    }
                    let ghost before_push = visited@;
                    visited.push(copy_chars(&mp));
                    let ghost inner = paths_view(visited@);
                    proof {
                        assert(visited@.map_values(|q: Vec<char>| q@) =~= before_push.map_values(|q: Vec<char>| q@).push(mp@));
                        before_push.map_values(|q: Vec<char>| q@).lemma_push_to_set_commute(mp@);
                        assert(inner =~= cur.insert(mp@));
                        lemma_unvisited_drop(tree@, floor, inner, mp@);
                    }
                    let inner_text = match resolve_imports(tree, &mp, dir, visited) {
                        Ok(t) => t,
                        Err(e) => {
                            return Err(e);
                        },
                    };
                    proof {
                        assert(paths_view(visited@).union(inner) =~= paths_view(visited@));
                    }
                    let ghost acc_before = acc@;
                    push_all(&mut acc, "\n// begin include ");
                    crate::text::push_chars(&mut acc, &m);
                    push_all(&mut acc, "\n");
                    push_all(&mut acc, inner_text.as_str());
                    push_all(&mut acc, "\n// end include ");
                    crate::text::push_chars(&mut acc, &m);
                    push_all(&mut acc, "\n");
                    push_line_directive(&mut acc, (k as u128) + 2, path);
                    assert(acc@ =~= acc_before + begin_include(m@) + inner_text@ + end_include(m@) + line_directive((k + 2) as nat, path@));
                }
            },
        }
        k = k + 1;
    }
    Ok(acc)
}

fn flag_dir(flag: &str) -> (r: Vec<char>)
    ensures
        r@ == include_dir(flag@),
{
    let inc = chars_of(flag);
    let (a, b) = trim_range(&inc, 0, inc.len());
    assert(inc@.subrange(0, inc@.len() as int) =~= inc@);
    let mut start = a;
    proof {
        reveal_strlit("-I");
    }
    assert(include_dir(flag@) == strip_flags(inc@.subrange(start as int, b as int)));
    while b - start >= 2 && inc[start] == '-' && inc[start + 1] == 'I'
        invariant
            a <= start <= b <= inc@.len(),
            include_dir(flag@) == strip_flags(inc@.subrange(start as int, b as int)),
        decreases b - start,
    {
        proof {
            reveal_strlit("-I");
            let t = inc@.subrange(start as int, b as int);
            assert(t[0] == inc@[start as int]);
            assert(t[1] == inc@[start + 1]);
            assert(t.subrange(0, 2) =~= "-I"@);
            assert(t.skip(2) =~= inc@.subrange(start + 2, b as int));
        }
        start = start + 2;
    }
    proof {
        let t = inc@.subrange(start as int, b as int);
        if t.len() >= 2 && t.subrange(0, 2) == "-I"@ {
            assert(t.subrange(0, 2)[0] == '-');
            assert(t.subrange(0, 2)[1] == 'I');
            assert(t[0] == t.subrange(0, 2)[0]);
            assert(t[1] == t.subrange(0, 2)[1]);
        }
    }
    slice_chars(&inc, start, b)
}

/// Resolves the imports of the file `source`, with modules looked up in the
/// directory that `flag` names (an `-I` flag, spaces around it dropped).
/// A file that the tree does not hold (the source or a module it imports)
/// is answered with `Err` of its path, for the caller to report; the
/// resolution does not stop the program over it.
pub fn resolve_with_includes_impl(source: &str, flag: &str, tree: &SourceTree) -> (r: Result<String, String>)
    ensures
        match resolve_file(tree@, source@, include_dir(flag@), Set::empty()) {
            Ok((text, _)) => r matches Ok(x) && x@ == text,
            Err(e) => r matches Err(x) && x@ == e,
        },
{
    let dir = flag_dir(flag);
    let path = chars_of(source);
    let mut visited: Vec<Vec<char>> = Vec::new();
    assert(paths_view(visited@) =~= Set::<Seq<char>>::empty());
    match resolve_imports(tree, &path, &dir, &mut visited) {
        Ok(text) => Ok(text),
        Err(p) => Err(string_of(p.as_slice())),
    }
}

/// `str::trim_start_matches("-I")`.
pub open spec fn strip_flags(s: Seq<char>) -> Seq<char>
    decreases s.len(),
{
    if s.len() >= 2 && s.subrange(0, 2) == "-I"@ {
        strip_flags(s.skip(2))
    } else {
        s
    }
}

/// The directory an include flag names.
pub open spec fn include_dir(flag: Seq<char>) -> Seq<char> {
    strip_flags(trim(flag))
}

} // verus!
