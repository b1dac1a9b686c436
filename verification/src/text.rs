use vstd::prelude::*;

verus! {

/// Appends `c` to `s` (`String::push`).
#[verifier::external_body]
pub fn push_char(s: &mut String, c: char)
    ensures
        final(s)@ == old(s)@.push(c),
{
    s.push(c);
}

/// Appends the characters of `t` to `s` (`String::push_str`).
pub fn push_all(s: &mut String, t: &str)
    ensures
        final(s)@ == old(s)@ + t@,
{
    let v = chars_of(t);
    let ghost s0 = s@;
    let n = v.len();
    let mut i: usize = 0;
    assert(s0 + v@.take(0) =~= s0);
    while i < n
        invariant
            i <= n == v@.len(),
            v@ == t@,
            s@ == s0 + v@.take(i as int),
        decreases n - i,
    {
        push_char(s, v[i]);
        i = i + 1;
        assert(s@ =~= s0 + v@.take(i as int));
    }
    assert(v@.take(n as int) =~= v@);
}

/// Appends the characters `v` to `s`.
pub fn push_chars(s: &mut String, v: &Vec<char>)
    ensures
        final(s)@ == old(s)@ + v@,
{
    let ghost s0 = s@;
    let n = v.len();
    let mut i: usize = 0;
    assert(s0 + v@.take(0) =~= s0);
    while i < n
        invariant
            i <= n == v@.len(),
            s@ == s0 + v@.take(i as int),
        decreases n - i,
    {
        push_char(s, v[i]);
        i = i + 1;
        assert(s@ =~= s0 + v@.take(i as int));
    }
    assert(v@.take(n as int) =~= v@);
}

/// The characters of `s`.
pub fn chars_of(s: &str) -> (v: Vec<char>)
    ensures
        v@ == s@,
{
    broadcast use vstd::string::group_string_axioms;
    let mut v: Vec<char> = Vec::new();
    for c in iter: s.chars()
        invariant
            v@ == iter.seq().take(iter.index() as int),
            iter.seq() == s@,
    {
        v.push(c);
    }
    v
}

/// The string made of `chars`.
pub fn string_of(chars: &[char]) -> (s: String)
    ensures
        s@ == chars@,
{
    let mut s = String::new();
    let n = chars.len();
    let mut i: usize = 0;
    while i < n
        invariant
            n == chars@.len(),
            i <= n,
            s@ == chars@.take(i as int),
        decreases n - i,
    {
        push_char(&mut s, chars[i]);
        i = i + 1;
        assert(s@ =~= chars@.take(i as int));
    }
    assert(chars@.take(n as int) =~= chars@);
    s
}

/// `char::is_whitespace`: the Unicode `White_Space` characters.
pub open spec fn is_ws(c: char) -> bool {
    let u = c as u32;
    (0x9 <= u && u <= 0xd) || u == 0x20 || u == 0x85 || u == 0xa0 || u == 0x1680
        || (0x2000 <= u && u <= 0x200a) || u == 0x2028 || u == 0x2029 || u == 0x202f
        || u == 0x205f || u == 0x3000
}

/// `u8::is_ascii_whitespace` on a character: space, tab, line feed, form
/// feed and carriage return.
pub open spec fn is_ascii_ws(c: char) -> bool {
    c == ' ' || c == '\t' || c == '\n' || c == '\x0C' || c == '\r'
}

pub fn is_ws_exec(c: char) -> (b: bool)
    ensures
        b == is_ws(c),
{
    let u = c as u32;
    (0x9 <= u && u <= 0xd) || u == 0x20 || u == 0x85 || u == 0xa0 || u == 0x1680
        || (0x2000 <= u && u <= 0x200a) || u == 0x2028 || u == 0x2029 || u == 0x202f
        || u == 0x205f || u == 0x3000
}

pub fn is_ascii_ws_exec(c: char) -> (b: bool)
    ensures
        b == is_ascii_ws(c),
{
    c == ' ' || c == '\t' || c == '\n' || c == '\x0C' || c == '\r'
}

/// Number of leading whitespace characters of `s`.
pub open spec fn lead_ws(s: Seq<char>) -> nat
    decreases s.len(),
{
    if s.len() > 0 && is_ws(s[0]) { 1 + lead_ws(s.drop_first()) } else { 0 }
}

/// Number of trailing whitespace characters of `s`.
pub open spec fn trail_ws(s: Seq<char>) -> nat
    decreases s.len(),
{
    if s.len() > 0 && is_ws(s.last()) { 1 + trail_ws(s.drop_last()) } else { 0 }
}

/// `str::trim`: `s` without leading and trailing whitespace.
pub open spec fn trim(s: Seq<char>) -> Seq<char> {
    if lead_ws(s) >= s.len() {
        Seq::empty()
    } else {
        s.subrange(lead_ws(s) as int, s.len() - trail_ws(s))
    }
}

proof fn lemma_lead_ws(s: Seq<char>, k: int)
    requires
        0 <= k <= s.len(),
        forall|j: int| 0 <= j < k ==> is_ws(#[trigger] s[j]),
        k == s.len() || !is_ws(s[k]),
    ensures
        lead_ws(s) == k,
    decreases s.len(),
{
    if k > 0 {
        let t = s.drop_first();
        assert forall|j: int| 0 <= j < k - 1 implies is_ws(#[trigger] t[j]) by {
            assert(t[j] == s[j + 1]);
        }
        if k - 1 < t.len() {
            assert(t[k - 1] == s[k]);
        }
        lemma_lead_ws(t, k - 1);
    }
}

proof fn lemma_trail_ws(s: Seq<char>, k: int)
    requires
        0 <= k <= s.len(),
        forall|j: int| s.len() - k <= j < s.len() ==> is_ws(#[trigger] s[j]),
        k == s.len() || !is_ws(s[s.len() - 1 - k]),
    ensures
        trail_ws(s) == k,
    decreases s.len(),
{
    if k > 0 {
        let t = s.drop_last();
        assert forall|j: int| t.len() - (k - 1) <= j < t.len() implies is_ws(#[trigger] t[j]) by {
            assert(t[j] == s[j]);
        }
        if k - 1 < t.len() {
            assert(t[t.len() - 1 - (k - 1)] == s[s.len() - 1 - k]);
        }
        lemma_trail_ws(t, k - 1);
    }
}

/// The bounds of `trim(s[a..b])` within `s`.
pub fn trim_range(s: &Vec<char>, a: usize, b: usize) -> (r: (usize, usize))
    requires
        a <= b <= s@.len(),
    ensures
        a <= r.0 <= r.1 <= b,
        s@.subrange(r.0 as int, r.1 as int) == trim(s@.subrange(a as int, b as int)),
{
    let ghost sub = s@.subrange(a as int, b as int);
    let mut i = a;
    while i < b && is_ws_exec(s[i])
        invariant
            a <= i <= b <= s@.len(),
            sub == s@.subrange(a as int, b as int),
            forall|j: int| 0 <= j < i - a ==> is_ws(#[trigger] sub[j]),
        decreases b - i,
    {
        i = i + 1;
    }
    proof {
        if i < b {
            assert(sub[i - a] == s@[i as int]);
        }
        lemma_lead_ws(sub, i - a);
    }
    if i == b {
        assert(s@.subrange(i as int, i as int) =~= Seq::<char>::empty());
        return (i, i);
    }
    let mut j = b;
    while j > i && is_ws_exec(s[j - 1])
        invariant
            a <= i < b <= s@.len(),
            i <= j <= b,
            sub == s@.subrange(a as int, b as int),
            !is_ws(s@[i as int]),
            forall|k: int| j - a <= k < b - a ==> is_ws(#[trigger] sub[k]),
        decreases j - i,
    {
        assert(sub[j - 1 - a] == s@[j - 1]);
        j = j - 1;
    }
    proof {
        if j > i {
            assert(sub[j - 1 - a] == s@[j - 1]);
        } else {
            assert(sub[i - a] == s@[i as int]);
        }
        lemma_trail_ws(sub, (b - j) as int);
        assert(s@.subrange(i as int, j as int) =~= sub.subrange(i - a, sub.len() - (b - j)));
    }
    (i, j)
}

/// `s[a..b]` begins with `pat`.
pub open spec fn starts_with(s: Seq<char>, pat: Seq<char>) -> bool {
    pat.len() <= s.len() && s.subrange(0, pat.len() as int) == pat
}

/// `pat` occurs in `s`.
pub open spec fn contains(s: Seq<char>, pat: Seq<char>) -> bool {
    exists|i: int| 0 <= i <= s.len() - pat.len() && #[trigger] s.subrange(i, i + pat.len()) == pat
}

/// `s[at..]` begins with `pat`.
pub fn matches_at(s: &Vec<char>, at: usize, end: usize, pat: &Vec<char>) -> (b: bool)
    requires
        at <= end <= s@.len(),
    ensures
        b == (pat@.len() <= end - at && s@.subrange(at as int, at + pat@.len()) == pat@),
{
    let n = pat.len();
    if n > end - at {
        return false;
    }
    let mut k: usize = 0;
    while k < n
        invariant
            n == pat@.len(),
            at + n <= end <= s@.len(),
            k <= n,
            s@.subrange(at as int, at + k) == pat@.take(k as int),
        decreases n - k,
    {
        if s[at + k] != pat[k] {
            assert(s@.subrange(at as int, at + n)[k as int] != pat@[k as int]);
            return false;
        }
        k = k + 1;
        assert(s@.subrange(at as int, at + k) =~= pat@.take(k as int));
    }
    assert(pat@.take(n as int) =~= pat@);
    true
}

/// `s[a..b]` begins with `pat`.
pub fn range_starts_with(s: &Vec<char>, a: usize, b: usize, pat: &str) -> (r: bool)
    requires
        a <= b <= s@.len(),
    ensures
        r == starts_with(s@.subrange(a as int, b as int), pat@),
{
    let p = chars_of(pat);
    let r = matches_at(s, a, b, &p);
    proof {
        let sub = s@.subrange(a as int, b as int);
        if p@.len() <= b - a {
            assert(sub.subrange(0, p@.len() as int) =~= s@.subrange(a as int, a + p@.len()));
        }
    }
    r
}

/// `pat` occurs in `s[a..b]`.
pub fn range_contains(s: &Vec<char>, a: usize, b: usize, pat: &str) -> (r: bool)
    requires
        a <= b <= s@.len(),
    ensures
        r == contains(s@.subrange(a as int, b as int), pat@),
{
    let p = chars_of(pat);
    let ghost sub = s@.subrange(a as int, b as int);
    let n = p.len();
    if n > b - a {
        return false;
    }
    if n == 0 {
        assert(sub.subrange(0, 0 + pat@.len() as int) =~= pat@);
        return true;
    }
    let mut i = a;
    while i <= b - n
        invariant
            a <= i <= b - n + 1,
            n == p@.len(),
            n >= 1,
            p@ == pat@,
            n <= b - a,
            b <= s@.len(),
            sub == s@.subrange(a as int, b as int),
            forall|j: int| 0 <= j < i - a ==> #[trigger] sub.subrange(j, j + n) != p@,
        decreases b - i,
    {
        if matches_at(s, i, b, &p) {
            assert(sub.subrange(i - a, i - a + n) =~= s@.subrange(i as int, i + n));
            assert(sub.subrange(i - a, i - a + pat@.len()) == pat@);
            return true;
        }
        assert(sub.subrange(i - a, i - a + n) =~= s@.subrange(i as int, i + n));
        i = i + 1;
    }
    proof {
        assert forall|j: int| 0 <= j <= sub.len() - pat@.len() implies #[trigger] sub.subrange(j, j + pat@.len()) != pat@ by {
            assert(sub.subrange(j, j + n) != p@);
        }
    }
    false
}

} // verus!

verus! {

/// The decimal digits of `n`, most significant first.
pub open spec fn decimal(n: nat) -> Seq<char>
    decreases n,
{
    if n < 10 {
        seq![digit_char((n % 10) as nat)]
    } else {
        decimal(n / 10).push(digit_char((n % 10) as nat))
    }
}

pub open spec fn digit_char(d: nat) -> char {
    (('0' as u32) + d) as char
}

/// `n` written in decimal (`u128::to_string`).
pub fn u128_to_string(n: u128) -> (s: String)
    ensures
        s@ == decimal(n as nat),
{
    let mut digits: Vec<char> = Vec::new();
    let mut m = n;
    assert(digits@.reverse() =~= Seq::<char>::empty());
    assert(decimal(n as nat) =~= decimal(m as nat) + digits@.reverse());
    loop
        invariant_except_break
            decimal(n as nat) == decimal(m as nat) + digits@.reverse(),
        ensures
            decimal(n as nat) == digits@.reverse(),
        decreases m,
    {
        let d = (m % 10) as u8;
        let c = (48u8 + d) as char;
        assert(c == digit_char((m % 10) as nat));
        let ghost before = digits@;
        digits.push(c);
        assert(digits@.reverse() =~= seq![c] + before.reverse());
        if m < 10 {
            assert(decimal(m as nat) == seq![c]);
            assert(decimal(n as nat) =~= digits@.reverse());
            break;
        }
        assert(decimal(m as nat) == decimal((m / 10) as nat).push(c));
        assert(decimal((m / 10) as nat).push(c) + before.reverse() =~= decimal((m / 10) as nat) + digits@.reverse());
        m = m / 10;
    }
    let k = digits.len();
    let mut out: Vec<char> = Vec::new();
    let mut i = k;
    while i > 0
        invariant
            i <= k == digits@.len(),
            out@ == digits@.reverse().take((k - i) as int),
        decreases i,
    {
        i = i - 1;
        out.push(digits[i]);
        assert(out@ =~= digits@.reverse().take((k - i) as int));
    }
    assert(digits@.reverse().take(k as int) =~= digits@.reverse());
    string_of(out.as_slice())
}

/// `n` written in decimal (`u64::to_string`).
pub fn u64_to_string(n: u64) -> (s: String)
    ensures
        s@ == decimal(n as nat),
{
    u128_to_string(n as u128)
}

/// `n` written in decimal (`u32::to_string`).
pub fn u32_to_string(n: u32) -> (s: String)
    ensures
        s@ == decimal(n as nat),
{
    u64_to_string(n as u64)
}

/// `n` written in decimal (`usize::to_string`).
pub fn usize_to_string(n: usize) -> (s: String)
    ensures
        s@ == decimal(n as nat),
{
    u64_to_string(n as u64)
}

} // verus!
