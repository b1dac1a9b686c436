use vstd::prelude::*;

use super::defines::DefineMap;
use super::glsl::{first_index, first_index_exec, slice_chars};
use super::lang::after_last;
use super::types::{OptimizationLevel, Request, ShaderLang, ShaderType};
use crate::miso::strings_view;
use crate::text::{chars_of, push_all, string_of, trim, trim_range};

verus! {

// ------------------------------------------------------------- definitions

/// A command-line definition `NAME[=VALUE]`: the name (and value) trimmed;
/// an empty definition, or one whose name is blank, is refused with its
/// message.
pub open spec fn parsed_define(d: Seq<char>) -> Result<(Seq<char>, Option<Seq<char>>), Seq<char>> {
    if d.len() == 0 {
        Err("definition cannot be empty"@)
    } else {
        let i = first_index(d, '=');
        if i < d.len() {
            if trim(d.take(i)).len() == 0 {
                Err("definition is missing a name"@)
            } else {
                Ok((trim(d.take(i)), Some(trim(d.skip(i + 1)))))
            }
        } else {
            Ok((trim(d), None))
        }
    }
}

/// The definitions of `ds` (a later one of a name replacing an earlier
/// one), or the message of the first one refused.
pub open spec fn parsed_defines(ds: Seq<Seq<char>>) -> Result<Map<Seq<char>, Option<Seq<char>>>, Seq<char>>
    decreases ds.len(),
{
    if ds.len() == 0 {
        Ok(Map::empty())
    } else {
        match parsed_defines(ds.drop_last()) {
            Err(e) => Err(e),
            Ok(m) => match parsed_define(ds.last()) {
                Err(e) => Err(e),
                Ok((name, value)) => Ok(m.insert(name, value)),
            },
        }
    }
}

fn trimmed(v: &Vec<char>, a: usize, b: usize) -> (r: Vec<char>)
    requires
        a <= b <= v@.len(),
    ensures
        r@ == trim(v@.subrange(a as int, b as int)),
{
    let (x, y) = trim_range(v, a, b);
    slice_chars(v, x, y)
}

proof fn lemma_parsed_defines_prefix_err(ds: Seq<Seq<char>>, k: int)
    requires
        0 <= k <= ds.len(),
        parsed_defines(ds.take(k)) is Err,
    ensures
        parsed_defines(ds) == parsed_defines(ds.take(k)),
    decreases ds.len() - k,
{
    if k < ds.len() {
        assert(ds.take(k + 1).drop_last() =~= ds.take(k));
        lemma_parsed_defines_prefix_err(ds, k + 1);
    } else {
        assert(ds.take(k) =~= ds);
    }
}

/// Parses command-line definitions (see `parsed_defines`).
pub fn parse_defines(raw_defines: &Vec<String>) -> (r: Result<DefineMap, String>)
    ensures
        match parsed_defines(strings_view(raw_defines@)) {
            Ok(m) => r matches Ok(x) && x.wf() && x@ == m,
            Err(e) => r matches Err(x) && x@ == e,
        },
{
    let ghost ds = strings_view(raw_defines@);
    let mut map = DefineMap::new();
    let n = raw_defines.len();
    let mut i: usize = 0;
    proof {
        reveal_strlit("definition cannot be empty");
        reveal_strlit("definition is missing a name");
    }
    while i < n
        invariant
            i <= n == raw_defines@.len(),
            ds == strings_view(raw_defines@),
            map.wf(),
            parsed_defines(ds.take(i as int)) == Ok::<Map<Seq<char>, Option<Seq<char>>>, Seq<char>>(map@),
        decreases n - i,
    {
        let d = chars_of(raw_defines[i].as_str());
        assert(ds[i as int] == d@);
        assert(ds.take(i + 1).drop_last() =~= ds.take(i as int));
        assert(ds.take(i + 1).last() == d@);
        if d.len() == 0 {
            proof {
                lemma_parsed_defines_prefix_err(ds, i + 1);
            }
            return Err(string_of(chars_of("definition cannot be empty").as_slice()));
        }
        let eq = first_index_exec(&d, '=');
        if eq < d.len() {
            let name = trimmed(&d, 0, eq);
            assert(d@.subrange(0, eq as int) =~= d@.take(eq as int));
            if name.len() == 0 {
                proof {
                    lemma_parsed_defines_prefix_err(ds, i + 1);
                }
                return Err(string_of(chars_of("definition is missing a name").as_slice()));
            }
            let value = trimmed(&d, eq + 1, d.len());
            assert(d@.subrange(eq + 1, d@.len() as int) =~= d@.skip(eq + 1));
            map.insert(string_of(name.as_slice()), Some(string_of(value.as_slice())));
        } else {
            let name = trimmed(&d, 0, d.len());
            assert(d@.subrange(0, d@.len() as int) =~= d@);
            map.insert(string_of(name.as_slice()), None);
        }
        i = i + 1;
    }
    assert(ds.take(n as int) =~= ds);
    Ok(map)
}

// ------------------------------------------------------------ output path

/// Start and end of the file name of `p[..hi]` (a `/`-separated path):
/// trailing separators and `.` components are skipped; a path whose last
/// component is `..`, or that has none, has no file name.
pub open spec fn name_span(p: Seq<char>, hi: int) -> Option<(int, int)>
    decreases hi,
{
    if hi <= 0 || hi > p.len() {
        None
    } else if p[hi - 1] == '/' {
        name_span(p, hi - 1)
    } else {
        let lo = after_last(p.take(hi), '/');
        if p.subrange(lo, hi) == "."@ {
            if lo <= 0 || lo >= hi {
                None
            } else {
                name_span(p, lo)
            }
        } else if p.subrange(lo, hi) == ".."@ {
            None
        } else {
            Some((lo, hi))
        }
    }
}

/// End of the file stem of the name `p[lo..hi]`: before its last `.`,
/// unless the name has no `.` or only a leading one.
pub open spec fn stem_end(p: Seq<char>, lo: int, hi: int) -> int {
    let d = after_last(p.subrange(lo, hi), '.');
    if d <= 1 {
        hi
    } else {
        lo + d - 1
    }
}

/// `PathBuf::set_extension("bto")` on a `/`-separated path: what follows
/// the file stem is replaced by `.bto`; a path without a file name is kept.
pub open spec fn with_bto_extension(p: Seq<char>) -> Seq<char> {
    match name_span(p, p.len() as int) {
        None => p,
        Some((lo, hi)) => p.take(stem_end(p, lo, hi)) + ".bto"@,
    }
}

pub proof fn lemma_after_last_bound(s: Seq<char>, c: char)
    ensures
        0 <= after_last(s, c) <= s.len(),
        after_last(s, c) > 0 ==> s[after_last(s, c) - 1] == c,
    decreases s.len(),
{
    if s.len() > 0 && s.last() != c {
        lemma_after_last_bound(s.drop_last(), c);
    }
}

pub proof fn lemma_after_last_props(s: Seq<char>, c: char)
    ensures
        0 <= after_last(s, c) <= s.len(),
        after_last(s, c) > 0 ==> s[after_last(s, c) - 1] == c,
        forall|j: int| after_last(s, c) <= j < s.len() ==> #[trigger] s[j] != c,
    decreases s.len(),
{
    if s.len() > 0 && s.last() != c {
        lemma_after_last_props(s.drop_last(), c);
        assert forall|j: int| after_last(s, c) <= j < s.len() implies #[trigger] s[j] != c by {
            if j < s.len() - 1 {
                assert(s.drop_last()[j] == s[j]);
            }
        }
        if after_last(s, c) > 0 {
            assert(s.drop_last()[after_last(s, c) - 1] == s[after_last(s, c) - 1]);
        }
    }
}

pub proof fn lemma_after_last_is(s: Seq<char>, c: char, k: int)
    requires
        0 <= k <= s.len(),
        k == 0 || s[k - 1] == c,
        forall|j: int| k <= j < s.len() ==> #[trigger] s[j] != c,
    ensures
        after_last(s, c) == k,
    decreases s.len(),
{
    if s.len() > 0 && k < s.len() {
        assert(s.last() == s[s.len() - 1]);
        assert forall|j: int| k <= j < s.drop_last().len() implies #[trigger] s.drop_last()[j] != c by {
            assert(s.drop_last()[j] == s[j]);
        }
        if k > 0 {
            assert(s.drop_last()[k - 1] == s[k - 1]);
        }
        lemma_after_last_is(s.drop_last(), c, k);
    }
}

proof fn lemma_name_span(p: Seq<char>, hi: int)
    ensures
        name_span(p, hi) matches Some((lo, h)) ==> 0 <= lo < h <= p.len() && p[h - 1] != '/' && lo == after_last(
            p.take(h),
            '/',
        ),
    decreases hi,
{
    if 0 < hi <= p.len() {
        if p[hi - 1] == '/' {
            lemma_name_span(p, hi - 1);
        } else {
            let lo = after_last(p.take(hi), '/');
            lemma_after_last_props(p.take(hi), '/');
            assert(p.take(hi)[hi - 1] == p[hi - 1]);
            if p.subrange(lo, hi) == "."@ {
                if 0 < lo < hi {
                    lemma_name_span(p, lo);
                }
            }
        }
    }
}

/// Giving a path the `bto` extension twice is giving it once.
pub proof fn law_bto_extension_idempotent(p: Seq<char>)
    ensures
        with_bto_extension(with_bto_extension(p)) == with_bto_extension(p),
{
    reveal_strlit(".bto");
    reveal_strlit(".");
    reveal_strlit("..");
    lemma_name_span(p, p.len() as int);
    if let Some((lo, hi)) = name_span(p, p.len() as int) {
        let name = p.subrange(lo, hi);
        let e = stem_end(p, lo, hi);
        lemma_after_last_props(p.take(hi), '/');
        lemma_after_last_props(name, '.');
        assert(lo < e <= hi);
        let q = p.take(e) + ".bto"@;
        assert(q == with_bto_extension(p));
        let n = q.len() as int;
        assert(n == e + 4);
        assert(q[n - 1] == 'o');
        assert(q.take(n) =~= q);
        // the last separator of `q` is the one before the name
        assert forall|j: int| lo <= j < n implies #[trigger] q[j] != '/' by {
            if j < e {
                assert(q[j] == p[j]);
                assert(p.take(hi)[j] == p[j]);
            }
        }
        if lo > 0 {
            assert(q[lo - 1] == p[lo - 1]);
            assert(p.take(hi)[lo - 1] == p[lo - 1]);
        }
        lemma_after_last_is(q, '/', lo);
        assert(q.take(n) == q);
        let piece = q.subrange(lo, n);
        assert(piece.len() == e - lo + 4);
        assert(piece != "."@);
        assert(piece != ".."@);
        assert(name_span(q, n) == Some((lo, n)));
        // its stem ends where the old one did
        assert(piece[e - lo] == '.');
        assert forall|j: int| e - lo + 1 <= j < piece.len() implies #[trigger] piece[j] != '.' by {
            assert(piece[j] == q[lo + j]);
        }
        lemma_after_last_is(piece, '.', e - lo + 1);
        assert(stem_end(q, lo, n) == e);
        assert(q.take(e) =~= p.take(e));
    }
}

fn name_span_exec(p: &Vec<char>) -> (r: Option<(usize, usize)>)
    ensures
        match name_span(p@, p@.len() as int) {
            Some((lo, hi)) => r == Some((lo as usize, hi as usize)) && 0 <= lo < hi <= p@.len(),
            None => r is None,
        },
{
    let mut hi = p.len();
    loop
        invariant
            hi <= p@.len(),
            name_span(p@, p@.len() as int) == name_span(p@, hi as int),
        decreases hi,
    {
        if hi == 0 {
            return None;
        }
        if p[hi - 1] == '/' {
            hi = hi - 1;
        } else {
            let lo = super::lang::after_last_pub(p, 0, hi, '/');
            let ghost piece = p@.subrange(lo as int, hi as int);
            proof {
                assert(p@.subrange(0, hi as int) =~= p@.take(hi as int));
                lemma_after_last_bound(p@.take(hi as int), '/');
                assert(p@.take(hi as int)[hi - 1] == p@[hi - 1]);
                reveal_strlit(".");
                reveal_strlit("..");
            }
            assert(lo < hi);
            let len = hi - lo;
            let is_dot = len == 1 && p[lo] == '.';
            let is_dotdot = len == 2 && p[lo] == '.' && p[lo + 1] == '.';
            proof {
                if len >= 1 {
                    assert(piece[0] == p@[lo as int]);
                }
                if len >= 2 {
                    assert(piece[1] == p@[lo + 1]);
                }
                if is_dot {
                    assert(piece =~= "."@);
                }
                if is_dotdot {
                    assert(piece =~= ".."@);
                }
                if piece == "."@ {
                    assert(".."@.len() == 2);
                    assert(piece.len() == 1 && piece[0] == '.');
                    assert(is_dot);
                }
                if piece == ".."@ {
                    assert(piece.len() == 2 && piece[0] == '.' && piece[1] == '.');
                    assert(is_dotdot);
                }
            }
            if is_dot {
                if lo == 0 {
                    return None;
                }
                hi = lo;
            } else if is_dotdot {
                return None;
            } else {
                return Some((lo, hi));
            }
        }
    }
}

/// The output path `path` with the extension `bto` (see
/// `with_bto_extension`).
pub fn ensure_bto_extension(path: &str) -> (r: String)
    ensures
        r@ == with_bto_extension(path@),
{
    let p = chars_of(path);
    match name_span_exec(&p) {
        None => string_of(p.as_slice()),
        Some((lo, hi)) => {
            let d = super::lang::after_last_pub(&p, lo, hi, '.');
            let end = if d <= 1 {
                hi
            } else {
                lo + d - 1
            };
            let stem = slice_chars(&p, 0, end);
            let mut out = string_of(stem.as_slice());
            push_all(&mut out, ".bto");
            assert(stem@ =~= p@.take(end as int));
            out
        },
    }
}

// --------------------------------------------------------------- planning

/// What the compiler's command line asks for, as plain values.
pub struct CompileArgs {
    pub shader: String,
    pub lang: ShaderLang,
    pub stage: ShaderType,
    pub optimization: OptimizationLevel,
    pub debug_symbols: bool,
    pub output: String,
    pub name: Option<String>,
    pub verbose: bool,
    pub defines: Vec<String>,
}

/// The work the compiler's command line asks for: which file to compile,
/// with what request, where the artifact goes, and whether to report it.
pub struct CompilePlan {
    pub shader: String,
    pub request: Request,
    pub output: String,
    pub verbose: bool,
}

/// Turns the command line into a plan: the definitions must parse (the
/// error is `Invalid preprocessor definition: ` and the reason), and the
/// output path gets the `bto` extension.
pub fn run(args: CompileArgs) -> (r: Result<CompilePlan, String>)
    ensures
        match parsed_defines(strings_view(args.defines@)) {
            Err(e) => r matches Err(x) && x@ == "Invalid preprocessor definition: "@ + e,
            Ok(m) => r matches Ok(plan) && plan.shader == args.shader && plan.request.name == args.name
                && plan.request.lang == args.lang && plan.request.stage == args.stage
                && plan.request.optimization == args.optimization && plan.request.debug_symbols
                == args.debug_symbols && plan.request.defines.wf() && plan.request.defines@ == m
                && plan.output@ == with_bto_extension(args.output@) && plan.verbose == args.verbose,
        },
{
    let defines = match parse_defines(&args.defines) {
        Ok(d) => d,
        Err(e) => {
            let mut msg = String::new();
            push_all(&mut msg, "Invalid preprocessor definition: ");
            push_all(&mut msg, e.as_str());
            return Err(msg);
        },
    };
    let output = ensure_bto_extension(args.output.as_str());
    Ok(
        CompilePlan {
            shader: args.shader,
            request: Request {
                name: args.name,
                lang: args.lang,
                stage: args.stage,
                optimization: args.optimization,
                debug_symbols: args.debug_symbols,
                defines,
            },
            output,
            verbose: args.verbose,
        },
    )
}

} // verus!
