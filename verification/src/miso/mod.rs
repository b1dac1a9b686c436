//! Shader-library helpers: preprocessor definitions for the bundled
//! shaders, and the inlining of `import` lines.

pub mod includes;
pub mod inlined;
pub mod programs;

use vstd::prelude::*;

use crate::bento::defines::{opt_view, DefineMap};
use crate::bento::glsl::{first_index, first_index_exec, slice_chars};
use crate::text::{chars_of, string_of};

verus! {

/// `NAME=VALUE` splits at the first `=`; a definition without one is a
/// flag with no value.
pub open spec fn define_entry(d: Seq<char>) -> (Seq<char>, Option<Seq<char>>) {
    let i = first_index(d, '=');
    if i < d.len() {
        (d.take(i), Some(d.skip(i + 1)))
    } else {
        (d, None)
    }
}

/// The definitions of `ds`, a later one of a name replacing an earlier one.
pub open spec fn defines_map(ds: Seq<Seq<char>>) -> Map<Seq<char>, Option<Seq<char>>>
    decreases ds.len(),
{
    if ds.len() == 0 {
        Map::empty()
    } else {
        defines_map(ds.drop_last()).insert(define_entry(ds.last()).0, define_entry(ds.last()).1)
    }
}

pub open spec fn strings_view(v: Seq<String>) -> Seq<Seq<char>> {
    v.map_values(|s: String| s@)
}

/// The define map of `NAME=VALUE` and `NAME` strings.
pub fn build_define_map(defines: &Vec<String>) -> (r: DefineMap)
    ensures
        r.wf(),
        r@ == defines_map(strings_view(defines@)),
{
    let ghost ds = strings_view(defines@);
    let mut map = DefineMap::new();
    let n = defines.len();
    let mut i: usize = 0;
    while i < n
        invariant
            i <= n == defines@.len(),
            ds == strings_view(defines@),
            map.wf(),
            map@ == defines_map(ds.take(i as int)),
        decreases n - i,
    {
        let d = chars_of(defines[i].as_str());
        let eq = first_index_exec(&d, '=');
        assert(ds[i as int] == d@);
        assert(ds.take(i + 1).drop_last() =~= ds.take(i as int));
        if eq < d.len() {
            let name = slice_chars(&d, 0, eq);
            let value = slice_chars(&d, eq + 1, d.len());
            assert(name@ =~= d@.take(eq as int));
            assert(value@ =~= d@.skip(eq + 1));
            map.insert(string_of(name.as_slice()), Some(string_of(value.as_slice())));
        } else {
            map.insert(string_of(d.as_slice()), None);
        }
        i = i + 1;
    }
    assert(ds.take(n as int) =~= ds);
    map
}

} // verus!
