use vstd::prelude::*;

use super::types::ShaderLang;
use crate::text::{chars_of, contains, range_contains, range_starts_with, starts_with, trim, trim_range};

verus! {

/// The language a single trimmed source line gives away, if any: Slang
/// imports and module declarations, GLSL directives, HLSL semantics,
/// registers and resource types, then GLSL layouts and built-ins.
pub open spec fn line_lang(t: Seq<char>) -> Option<ShaderLang> {
    if t.len() == 0 {
        None
    } else if starts_with(t, "import "@) || starts_with(t, "module "@) {
        Some(ShaderLang::Slang)
    } else if starts_with(t, "#version"@) || starts_with(t, "#extension"@) {
        Some(ShaderLang::Glsl)
    } else if contains(t, ": SV_"@) || contains(t, ": register("@) || contains(t, "[[vk::binding"@)
        || contains(t, "cbuffer"@) || contains(t, "RWStructuredBuffer"@) || contains(t, "StructuredBuffer"@)
        || contains(t, "SamplerState"@) || contains(t, "Texture2D"@) || contains(t, "Texture3D"@)
        || contains(t, "TextureCube"@) || contains(t, "[numthreads("@) {
        Some(ShaderLang::Hlsl)
    } else if contains(t, "layout("@) || contains(t, "gl_"@) {
        Some(ShaderLang::Glsl)
    } else {
        None
    }
}

/// Index of the first line feed at or after `from`, or the length of `s`.
pub open spec fn next_newline(s: Seq<char>, from: int) -> int
    decreases s.len() - from,
{
    if from >= s.len() {
        s.len() as int
    } else if s[from] == '\n' {
        from
    } else {
        next_newline(s, from + 1)
    }
}

pub proof fn lemma_next_newline(s: Seq<char>, from: int)
    requires
        0 <= from <= s.len(),
    ensures
        from <= next_newline(s, from) <= s.len(),
        next_newline(s, from) < s.len() ==> s[next_newline(s, from)] == '\n',
        forall|j: int| from <= j < next_newline(s, from) ==> s[j] != '\n',
    decreases s.len() - from,
{
    if from < s.len() && s[from] != '\n' {
        lemma_next_newline(s, from + 1);
    }
}

/// The language given away by the first telling line at or after `from`.
/// Lines are the pieces between line feeds; each is trimmed, so carriage
/// returns of CRLF endings and the empty piece after a final line feed make
/// no difference.
pub open spec fn detect_from(s: Seq<char>, from: int) -> Option<ShaderLang>
    decreases s.len() + 1 - from,
{
    if from < 0 || from > s.len() {
        None
    } else {
        let end = next_newline(s, from);
        proof {
            lemma_next_newline(s, from);
        }
        match line_lang(trim(s.subrange(from, end))) {
            Some(l) => Some(l),
            None => if end < s.len() { detect_from(s, end + 1) } else { None },
        }
    }
}

/// `Path::file_name` followed by `Path::extension` on a `/`-separated path,
/// ignoring trailing separators.
pub open spec fn strip_trailing_slashes(p: Seq<char>) -> Seq<char>
    decreases p.len(),
{
    if p.len() > 1 && p.last() == '/' { strip_trailing_slashes(p.drop_last()) } else { p }
}

/// Index just after the last `c` in `s`, or 0 when there is none.
pub open spec fn after_last(s: Seq<char>, c: char) -> int
    decreases s.len(),
{
    if s.len() == 0 {
        0
    } else if s.last() == c {
        s.len() as int
    } else {
        after_last(s.drop_last(), c)
    }
}

pub open spec fn file_name(p: Seq<char>) -> Seq<char> {
    let q = strip_trailing_slashes(p);
    q.subrange(after_last(q, '/'), q.len() as int)
}

/// The extension of the file name of `p`: what follows its last `.`, unless
/// the name has no `.`, begins with its only `.`, or is `..`.
pub open spec fn extension(p: Seq<char>) -> Option<Seq<char>> {
    let name = file_name(p);
    let d = after_last(name, '.');
    if name == ".."@ || d <= 1 {
        None
    } else {
        Some(name.subrange(d, name.len() as int))
    }
}

pub open spec fn ascii_lower(c: char) -> char {
    if 'A' <= c && c <= 'Z' { ((c as u32) + 32) as char } else { c }
}

pub open spec fn lowercase(s: Seq<char>) -> Seq<char> {
    s.map_values(|c: char| ascii_lower(c))
}

/// The language named by a (lower-cased) file extension.
pub open spec fn ext_lang(e: Seq<char>) -> Option<ShaderLang> {
    if e == "slang"@ {
        Some(ShaderLang::Slang)
    } else if e == "hlsl"@ || e == "hlsli"@ {
        Some(ShaderLang::Hlsl)
    } else if e == "glsl"@ || e == "vert"@ || e == "frag"@ || e == "comp"@ {
        Some(ShaderLang::Glsl)
    } else {
        None
    }
}

/// The language inferred for `source` read from `filename`: the file
/// extension decides when it is a known one; otherwise the first telling
/// line; GLSL when nothing tells.
pub open spec fn inferred_lang(source: Seq<char>, filename: Option<Seq<char>>) -> ShaderLang {
    let from_ext = match filename {
        Some(f) => match extension(f) {
            Some(e) => ext_lang(lowercase(e)),
            None => None,
        },
        None => None,
    };
    match from_ext {
        Some(l) => l,
        None => match detect_from(source, 0) {
            Some(l) => l,
            None => ShaderLang::Glsl,
        },
    }
}

fn line_lang_exec(s: &Vec<char>, a: usize, b: usize) -> (r: Option<ShaderLang>)
    requires
        a <= b <= s@.len(),
    ensures
        r == line_lang(s@.subrange(a as int, b as int)),
{
    if a == b {
        return None;
    }
    if range_starts_with(s, a, b, "import ") || range_starts_with(s, a, b, "module ") {
        return Some(ShaderLang::Slang);
    }
    if range_starts_with(s, a, b, "#version") || range_starts_with(s, a, b, "#extension") {
        return Some(ShaderLang::Glsl);
    }
    if range_contains(s, a, b, ": SV_") || range_contains(s, a, b, ": register(")
        || range_contains(s, a, b, "[[vk::binding") || range_contains(s, a, b, "cbuffer")
        || range_contains(s, a, b, "RWStructuredBuffer") || range_contains(s, a, b, "StructuredBuffer")
        || range_contains(s, a, b, "SamplerState") || range_contains(s, a, b, "Texture2D")
        || range_contains(s, a, b, "Texture3D") || range_contains(s, a, b, "TextureCube")
        || range_contains(s, a, b, "[numthreads(") {
        return Some(ShaderLang::Hlsl);
    }
    if range_contains(s, a, b, "layout(") || range_contains(s, a, b, "gl_") {
        return Some(ShaderLang::Glsl);
    }
    None
}

fn ext_lang_exec(e: &Vec<char>) -> (r: Option<ShaderLang>)
    ensures
        r == ext_lang(e@),
{
    let n = e.len();
    if range_eq(e, "slang") {
        Some(ShaderLang::Slang)
    } else if range_eq(e, "hlsl") || range_eq(e, "hlsli") {
        Some(ShaderLang::Hlsl)
    } else if range_eq(e, "glsl") || range_eq(e, "vert") || range_eq(e, "frag") || range_eq(e, "comp") {
        Some(ShaderLang::Glsl)
    } else {
        None
    }
}

fn range_eq(e: &Vec<char>, lit: &str) -> (r: bool)
    ensures
        r == (e@ == lit@),
{
    let n = e.len();
    let r = range_starts_with(e, 0, n, lit);
    let p = chars_of(lit);
    if r && p.len() == n {
        assert(e@.subrange(0, n as int) =~= e@);
        assert(e@ =~= lit@);
        true
    } else {
        proof {
            if e@ == lit@ {
                assert(e@.subrange(0, n as int) =~= e@);
            }
        }
        false
    }
}

proof fn lemma_after_last(s: Seq<char>, c: char, i: int)
    requires
        0 <= i <= s.len(),
        i == 0 || s[i - 1] == c,
        forall|j: int| i <= j < s.len() ==> s[j] != c,
    ensures
        after_last(s, c) == i,
    decreases s.len(),
{
    if s.len() > 0 && s.len() != i {
        let t = s.drop_last();
        assert forall|j: int| i <= j < t.len() implies t[j] != c by {
            assert(t[j] == s[j]);
        }
        if i > 0 {
            assert(t[i - 1] == s[i - 1]);
        }
        lemma_after_last(t, c, i);
    }
}

/// Index just after the last `c` in `v[lo..hi]`, relative to `lo`.
pub fn after_last_pub(v: &Vec<char>, lo: usize, hi: usize, c: char) -> (r: usize)
    requires
        lo <= hi <= v@.len(),
    ensures
        r <= hi - lo,
        r == after_last(v@.subrange(lo as int, hi as int), c),
{
    after_last_exec(v, lo, hi, c)
}

fn after_last_exec(v: &Vec<char>, lo: usize, hi: usize, c: char) -> (r: usize)
    requires
        lo <= hi <= v@.len(),
    ensures
        r <= hi - lo,
        r == after_last(v@.subrange(lo as int, hi as int), c),
{
    let ghost sub = v@.subrange(lo as int, hi as int);
    let mut i = hi;
    while i > lo && v[i - 1] != c
        invariant
            lo <= i <= hi <= v@.len(),
            sub == v@.subrange(lo as int, hi as int),
            forall|j: int| i - lo <= j < sub.len() ==> sub[j] != c,
        decreases i,
    {
        assert(sub[i - 1 - lo] == v@[i - 1]);
        i = i - 1;
    }
    proof {
        if i > lo {
            assert(sub[i - 1 - lo] == v@[i - 1]);
        }
        lemma_after_last(sub, c, (i - lo) as int);
    }
    i - lo
}

fn ascii_lower_exec(c: char) -> (r: char)
    ensures
        r == ascii_lower(c),
{
    if 'A' <= c && c <= 'Z' {
        ((c as u8) + 32) as char
    } else {
        c
    }
}

/// The extension of `path`, lower-cased.
fn lowercase_extension(path: &str) -> (r: Option<Vec<char>>)
    ensures
        r matches Some(v) ==> extension(path@) matches Some(e) && v@ == lowercase(e),
        r is None ==> extension(path@) is None,
{
    let p = chars_of(path);
    let mut end = p.len();
    assert(p@.take(end as int) =~= p@);
    while end > 1 && p[end - 1] == '/'
        invariant
            end <= p@.len(),
            p@ == path@,
            strip_trailing_slashes(p@.take(end as int)) == strip_trailing_slashes(p@),
        decreases end,
    {
        assert(p@.take(end - 1) =~= p@.take(end as int).drop_last());
        end = end - 1;
    }
    let ghost q = p@.take(end as int);
    assert(strip_trailing_slashes(q) == q);
    assert(q =~= p@.subrange(0, end as int));
    let start = after_last_exec(&p, 0, end, '/');
    let ghost name = q.subrange(start as int, end as int);
    assert(name == file_name(path@));
    let d = after_last_exec(&p, start, end, '.');
    assert(p@.subrange(start as int, end as int) =~= name);
    let is_dotdot = end - start == 2 && p[start] == '.' && p[start + 1] == '.';
    proof {
        if name == ".."@ {
            reveal_strlit("..");
            assert(name.len() == 2 && name[0] == '.' && name[1] == '.');
        }
        if is_dotdot {
            reveal_strlit("..");
            assert(name =~= ".."@);
        }
    }
    if is_dotdot || d <= 1 {
        return None;
    }
    let mut out: Vec<char> = Vec::new();
    let mut i = start + d;
    let ghost e = name.subrange(d as int, name.len() as int);
    while i < end
        invariant
            start + d <= i <= end <= p@.len(),
            e == p@.subrange(start + d, end as int),
            out@ == lowercase(e.take(i - start - d)),
        decreases end - i,
    {
        out.push(ascii_lower_exec(p[i]));
        i = i + 1;
        assert(out@ =~= lowercase(e.take(i - start - d)));
    }
    assert(e.take(e.len() as int) =~= e);
    Some(out)
}

/// The language of a shader: the extension of `filename` decides when it
/// names a known language, otherwise the first line that gives a language
/// away; GLSL when nothing does.
pub fn infer_shader_lang(source: &str, filename: Option<&str>) -> (r: ShaderLang)
    ensures
        r == inferred_lang(source@, match filename { Some(f) => Some(f@), None => None }),
{
    let from_ext = match filename {
        Some(f) => match lowercase_extension(f) {
            Some(e) => ext_lang_exec(&e),
            None => None,
        },
        None => None,
    };
    if let Some(lang) = from_ext {
        return lang;
    }
    let ghost fopt = match filename { Some(f) => Some(f@), None => None::<Seq<char>> };
    let s = chars_of(source);
    let n = s.len();
    let mut from: usize = 0;
    assert(inferred_lang(source@, fopt) == (match detect_from(source@, 0) {
        Some(l) => l,
        None => ShaderLang::Glsl,
    }));
    while from <= n
        invariant
            n == s@.len(),
            s@ == source@,
            fopt == (match filename { Some(f) => Some(f@), None => None::<Seq<char>> }),
            inferred_lang(source@, fopt) == (match detect_from(source@, 0) {
                Some(l) => l,
                None => ShaderLang::Glsl,
            }),
            detect_from(s@, 0) == detect_from(s@, from as int),
            from <= n + 1,
        decreases n + 1 - from,
    {
        let mut end = from;
        while end < n && s[end] != '\n'
            invariant
                from <= end <= n,
                n == s@.len(),
                forall|j: int| from <= j < end ==> s@[j] != '\n',
            decreases n - end,
        {
            end = end + 1;
        }
        proof {
            lemma_next_newline(s@, from as int);
            lemma_newline_is(s@, from as int, end as int);
        }
        let (a, b) = trim_range(&s, from, end);
        let found = line_lang_exec(&s, a, b);
        proof {
            assert(next_newline(s@, from as int) == end);
            assert(found == line_lang(trim(s@.subrange(from as int, end as int))));
            assert(detect_from(s@, from as int) == (match found {
                Some(l) => Some(l),
                None => if end < n { detect_from(s@, end + 1) } else { None },
            }));
        }
        if let Some(lang) = found {
            return lang;
        }
        if end == n {
            return ShaderLang::Glsl;
        }
        from = end + 1;
    }
    ShaderLang::Glsl
}

proof fn lemma_newline_is(s: Seq<char>, from: int, end: int)
    requires
        0 <= from <= end <= s.len(),
        forall|j: int| from <= j < end ==> s[j] != '\n',
        end == s.len() || s[end] == '\n',
    ensures
        next_newline(s, from) == end,
    decreases end - from,
{
    if from < end {
        lemma_newline_is(s, from + 1, end);
    }
}

/// The extension table: a file whose extension, lower-cased, is `slang`
/// is Slang, `hlsl` or `hlsli` HLSL, and `glsl`, `vert`, `frag` or `comp`
/// GLSL, whatever the source says; any other extension leaves the choice
/// to the source.
pub proof fn law_extension_decides(source: Seq<char>, path: Seq<char>)
    ensures
        extension(path) matches Some(e) ==> {
            let l = lowercase(e);
            &&& l == "slang"@ ==> inferred_lang(source, Some(path)) == ShaderLang::Slang
            &&& (l == "hlsl"@ || l == "hlsli"@) ==> inferred_lang(source, Some(path)) == ShaderLang::Hlsl
            &&& (l == "glsl"@ || l == "vert"@ || l == "frag"@ || l == "comp"@) ==> inferred_lang(source, Some(path))
                == ShaderLang::Glsl
            &&& !(l == "slang"@ || l == "hlsl"@ || l == "hlsli"@ || l == "glsl"@ || l == "vert"@ || l == "frag"@ || l
                == "comp"@) ==> inferred_lang(source, Some(path)) == inferred_lang(source, None)
        },
{
    reveal_strlit("slang");
    reveal_strlit("hlsl");
    reveal_strlit("hlsli");
    reveal_strlit("glsl");
    reveal_strlit("vert");
    reveal_strlit("frag");
    reveal_strlit("comp");
    assert("slang"@.len() == 5 && "slang"@[0] == 's');
    assert("hlsl"@.len() == 4 && "hlsl"@[0] == 'h');
    assert("hlsli"@.len() == 5 && "hlsli"@[0] == 'h');
    assert("glsl"@.len() == 4 && "glsl"@[0] == 'g');
    assert("vert"@.len() == 4 && "vert"@[0] == 'v');
    assert("frag"@.len() == 4 && "frag"@[0] == 'f');
    assert("comp"@.len() == 4 && "comp"@[0] == 'c');
}

/// Without a known extension the first line decides when it tells: a
/// line (trimmed) opening with `#version` or `#extension` is GLSL, one
/// opening with `import ` or `module ` Slang; a source with no telling line
/// at all is GLSL.
pub proof fn law_first_line_decides(source: Seq<char>)
    ensures
        ({
            let t = trim(source.subrange(0, next_newline(source, 0)));
            &&& (starts_with(t, "#version"@) || starts_with(t, "#extension"@)) ==> inferred_lang(source, None)
                == ShaderLang::Glsl
            &&& (starts_with(t, "import "@) || starts_with(t, "module "@)) ==> inferred_lang(source, None)
                == ShaderLang::Slang
            &&& detect_from(source, 0) is None ==> inferred_lang(source, None) == ShaderLang::Glsl
        }),
{
    lemma_next_newline(source, 0);
    let t = trim(source.subrange(0, next_newline(source, 0)));
    reveal_strlit("#version");
    reveal_strlit("#extension");
    reveal_strlit("import ");
    reveal_strlit("module ");
    if starts_with(t, "#version"@) || starts_with(t, "#extension"@) {
        assert(t[0] == '#') by {
            if starts_with(t, "#version"@) {
                assert(t.subrange(0, 8)[0] == t[0]);
            } else {
                assert(t.subrange(0, 10)[0] == t[0]);
            }
        }
        if starts_with(t, "import "@) {
            assert(t.subrange(0, 7)[0] == t[0]);
        }
        if starts_with(t, "module "@) {
            assert(t.subrange(0, 7)[0] == t[0]);
        }
    }
}

} // verus!
