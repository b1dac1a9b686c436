use vstd::prelude::*;

verus! {

/// Opcodes of the SPIR-V debug instructions (`OpSource`, `OpSourceContinued`,
/// `OpSourceExtension`, `OpName`, `OpMemberName`, `OpString`, `OpLine`,
/// `OpNoLine`, `OpModuleProcessed`).
pub const OP_SOURCE_CONTINUED: u32 = 2;
pub const OP_SOURCE: u32 = 3;
pub const OP_SOURCE_EXTENSION: u32 = 4;
pub const OP_NAME: u32 = 5;
pub const OP_MEMBER_NAME: u32 = 6;
pub const OP_STRING: u32 = 7;
pub const OP_LINE: u32 = 8;
pub const OP_NO_LINE: u32 = 317;
pub const OP_MODULE_PROCESSED: u32 = 330;

/// Number of words in a SPIR-V module header.
pub const SPIRV_HEADER_WORDS: usize = 5;

pub open spec fn is_debug_opcode(op: u32) -> bool {
    op == OP_SOURCE || op == OP_SOURCE_CONTINUED || op == OP_SOURCE_EXTENSION || op == OP_NAME
        || op == OP_MEMBER_NAME || op == OP_STRING || op == OP_LINE || op == OP_NO_LINE
        || op == OP_MODULE_PROCESSED
}

/// Word count of the instruction whose first word is `w`.
pub open spec fn word_count(w: u32) -> int {
    (w >> 16u32) as int
}

/// Opcode of the instruction whose first word is `w`.
pub open spec fn opcode(w: u32) -> u32 {
    w & 0xFFFFu32
}

/// The instructions from word `i` on, without the debug ones; the walk
/// stops at an instruction of zero length or one that runs past the end.
pub open spec fn strip_from(w: Seq<u32>, i: int) -> Seq<u32>
    decreases w.len() - i,
{
    if i < 0 || i >= w.len() {
        Seq::empty()
    } else {
        let wc = word_count(w[i]);
        if wc == 0 || i + wc > w.len() {
            Seq::empty()
        } else {
            let kept = if is_debug_opcode(opcode(w[i])) {
                Seq::empty()
            } else {
                w.subrange(i, i + wc)
            };
            kept + strip_from(w, i + wc)
        }
    }
}

/// A module without its debug instructions: the header, then every
/// instruction that is not a debug one.  Shorter inputs come back whole.
pub open spec fn stripped(w: Seq<u32>) -> Seq<u32> {
    if w.len() < 5 {
        w
    } else {
        w.take(5) + strip_from(w, 5)
    }
}

fn is_debug_opcode_exec(op: u32) -> (b: bool)
    ensures
        b == is_debug_opcode(op),
{
    op == OP_SOURCE || op == OP_SOURCE_CONTINUED || op == OP_SOURCE_EXTENSION || op == OP_NAME
        || op == OP_MEMBER_NAME || op == OP_STRING || op == OP_LINE || op == OP_NO_LINE
        || op == OP_MODULE_PROCESSED
}

fn append_range(out: &mut Vec<u32>, w: &[u32], a: usize, b: usize)
    requires
        a <= b <= w@.len(),
    ensures
        final(out)@ == old(out)@ + w@.subrange(a as int, b as int),
{
    let ghost start = out@;
    let mut i = a;
    while i < b
        invariant
            a <= i <= b <= w@.len(),
            out@ == start + w@.subrange(a as int, i as int),
        decreases b - i,
    {
        out.push(w[i]);
        i = i + 1;
        assert(out@ =~= start + w@.subrange(a as int, i as int));
    }
}

/// Removes the debug instructions from a SPIR-V module (see `stripped`).
pub fn strip_debug_instructions(spirv: &[u32]) -> (r: Vec<u32>)
    ensures
        r@ == stripped(spirv@),
{
    let n = spirv.len();
    let mut out: Vec<u32> = Vec::new();
    if n < SPIRV_HEADER_WORDS {
        append_range(&mut out, spirv, 0, n);
        assert(spirv@.subrange(0, n as int) =~= spirv@);
        return out;
    }
    append_range(&mut out, spirv, 0, SPIRV_HEADER_WORDS);
    assert(spirv@.subrange(0, 5) =~= spirv@.take(5));
    let mut index: usize = SPIRV_HEADER_WORDS;
    while index < n
        invariant
            5 <= index <= n == spirv@.len(),
            stripped(spirv@) == out@ + strip_from(spirv@, index as int),
        decreases n - index,
    {
        let word = spirv[index];
        let wc = (word >> 16u32) as usize;
        let op = word & 0xFFFFu32;
        if wc == 0 || wc > n - index {
            assert(out@ + Seq::<u32>::empty() =~= out@);
            return out;
        }
        let ghost before = out@;
        if !is_debug_opcode_exec(op) {
            append_range(&mut out, spirv, index, index + wc);
        }
        proof {
            let kept = if is_debug_opcode(op) {
                Seq::<u32>::empty()
            } else {
                spirv@.subrange(index as int, index + wc)
            };
            assert(out@ == before + kept);
            assert(before + (kept + strip_from(spirv@, index + wc)) =~= out@ + strip_from(spirv@, index + wc));
        }
        index = index + wc;
    }
    assert(out@ + Seq::<u32>::empty() =~= out@);
    out
}

/// `v` is a run of whole instructions, none of them a debug one.
pub open spec fn clean(v: Seq<u32>) -> bool
    decreases v.len(),
{
    if v.len() == 0 {
        true
    } else {
        let wc = word_count(v[0]);
        wc > 0 && wc <= v.len() && !is_debug_opcode(opcode(v[0])) && clean(v.skip(wc))
    }
}

proof fn lemma_clean_concat(a: Seq<u32>, b: Seq<u32>)
    requires
        clean(b),
        a.len() > 0,
        word_count(a[0]) == a.len(),
        !is_debug_opcode(opcode(a[0])),
    ensures
        clean(a + b),
{
    assert((a + b)[0] == a[0]);
    assert((a + b).skip(a.len() as int) =~= b);
}

proof fn lemma_strip_from_clean(w: Seq<u32>, i: int)
    requires
        0 <= i,
    ensures
        clean(strip_from(w, i)),
    decreases w.len() - i,
{
    if i < w.len() {
        let wc = word_count(w[i]);
        if !(wc == 0 || i + wc > w.len()) {
            lemma_strip_from_clean(w, i + wc);
            if !is_debug_opcode(opcode(w[i])) {
                lemma_clean_concat(w.subrange(i, i + wc), strip_from(w, i + wc));
            }
        }
    }
}

proof fn lemma_strip_clean_tail(h: Seq<u32>, v: Seq<u32>, k: int)
    requires
        h.len() == 5,
        0 <= k <= v.len(),
        clean(v.skip(k)),
    ensures
        strip_from(h + v, 5 + k) == v.skip(k),
    decreases v.len() - k,
{
    let s = h + v;
    if k == v.len() {
        assert(v.skip(k) =~= Seq::<u32>::empty());
    } else {
        let c = v.skip(k);
        let wc = word_count(c[0]);
        assert(s[5 + k] == c[0]);
        assert(c.skip(wc) =~= v.skip(k + wc));
        lemma_strip_clean_tail(h, v, k + wc);
        assert(s.subrange(5 + k, 5 + k + wc) =~= c.take(wc));
        assert(c.take(wc) + c.skip(wc) =~= c);
    }
}

/// Stripping is idempotent: a module without its debug instructions has
/// none left to strip.
pub proof fn law_strip_idempotent(w: Seq<u32>)
    ensures
        stripped(stripped(w)) == stripped(w),
{
    if w.len() >= 5 {
        let h = w.take(5);
        let v = strip_from(w, 5);
        lemma_strip_from_clean(w, 5);
        assert(v.skip(0) =~= v);
        lemma_strip_clean_tail(h, v, 0);
        let sw = stripped(w);
        assert(sw == h + v);
        assert(sw.take(5) =~= h);
    }
}

/// One of the nine SPIR-V debug opcodes, by number: `OpSourceContinued` 2,
/// `OpSource` 3, `OpSourceExtension` 4, `OpName` 5, `OpMemberName` 6,
/// `OpString` 7, `OpLine` 8, `OpNoLine` 317, `OpModuleProcessed` 330.
pub open spec fn debug_opcode_number(op: u32) -> bool {
    op == 2 || op == 3 || op == 4 || op == 5 || op == 6 || op == 7 || op == 8 || op == 317 || op == 330
}

/// `v` is a run of whole instructions none of which has a debug opcode.
pub open spec fn free_of_debug(v: Seq<u32>) -> bool
    decreases v.len(),
{
    if v.len() == 0 {
        true
    } else {
        let wc = (v[0] >> 16u32) as int;
        wc > 0 && wc <= v.len() && !debug_opcode_number(v[0] & 0xFFFFu32) && free_of_debug(v.skip(wc))
    }
}

proof fn lemma_clean_free(v: Seq<u32>)
    requires
        clean(v),
    ensures
        free_of_debug(v),
    decreases v.len(),
{
    if v.len() > 0 {
        lemma_clean_free(v.skip(word_count(v[0])));
    }
}

/// Stripping keeps the header and leaves no instruction with a debug
/// opcode.
pub proof fn law_stripped_has_no_debug(w: Seq<u32>)
    ensures
        w.len() >= 5 ==> stripped(w).take(5) == w.take(5) && free_of_debug(stripped(w).skip(5)),
{
    if w.len() >= 5 {
        lemma_strip_from_clean(w, 5);
        let v = strip_from(w, 5);
        assert((w.take(5) + v).take(5) =~= w.take(5));
        assert((w.take(5) + v).skip(5) =~= v);
        lemma_clean_free(v);
    }
}

/// Walking the instructions after the header, a whole instruction with a
/// debug opcode is dropped and any other is kept as it is, in order.
pub proof fn law_strip_keeps_other_instructions(w: Seq<u32>, i: int)
    requires
        5 <= i < w.len(),
    ensures
        ({
            let wc = (w[i] >> 16u32) as int;
            let op = w[i] & 0xFFFFu32;
            0 < wc && i + wc <= w.len() ==> {
                &&& debug_opcode_number(op) ==> strip_from(w, i) == strip_from(w, i + wc)
                &&& !debug_opcode_number(op) ==> strip_from(w, i) == w.subrange(i, i + wc) + strip_from(w, i + wc)
            }
        }),
{
    let wc = (w[i] >> 16u32) as int;
    if 0 < wc && i + wc <= w.len() {
        let kept = if is_debug_opcode(opcode(w[i])) {
            Seq::<u32>::empty()
        } else {
            w.subrange(i, i + wc)
        };
        assert(strip_from(w, i) == kept + strip_from(w, i + wc));
        assert(Seq::<u32>::empty() + strip_from(w, i + wc) =~= strip_from(w, i + wc));
    }
}

/// The little-endian bytes of `w`.
pub open spec fn word_bytes(w: u32) -> Seq<u8> {
    seq![(w & 0xFFu32) as u8, ((w >> 8u32) & 0xFFu32) as u8, ((w >> 16u32) & 0xFFu32) as u8, ((w >> 24u32) & 0xFFu32) as u8]
}

/// The bytes of a word stream, each word little-endian.
pub open spec fn words_bytes(w: Seq<u32>) -> Seq<u8>
    decreases w.len(),
{
    if w.len() == 0 {
        Seq::empty()
    } else {
        words_bytes(w.drop_last()) + word_bytes(w.last())
    }
}

/// The byte stream of a SPIR-V word stream, as reflection reads it.
pub fn spirv_words_to_bytes(words: &[u32]) -> (r: Vec<u8>)
    ensures
        r@ == words_bytes(words@),
{
    let n = words.len();
    let mut out: Vec<u8> = Vec::new();
    let mut i: usize = 0;
    while i < n
        invariant
            i <= n == words@.len(),
            out@ == words_bytes(words@.take(i as int)),
        decreases n - i,
    {
        let w = words[i];
        let ghost before = out@;
        out.push((w & 0xFFu32) as u8);
        out.push(((w >> 8u32) & 0xFFu32) as u8);
        out.push(((w >> 16u32) & 0xFFu32) as u8);
        out.push(((w >> 24u32) & 0xFFu32) as u8);
        assert(words@.take(i + 1).drop_last() =~= words@.take(i as int));
        assert(out@ =~= before + word_bytes(w));
        i = i + 1;
    }
    assert(words@.take(n as int) =~= words@);
    out
}

} // verus!
