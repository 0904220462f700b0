//! Characters, character classes and conversions between strings and
//! character vectors.

use vstd::prelude::*;
use vstd::std_specs::iter::IteratorSpec;

verus! {

/// `String::push` appends one character to the end of the string.
pub assume_specification[ String::push ](s: &mut String, c: char)
    ensures
        final(s)@ == old(s)@.push(c),
;

/// The characters with the Unicode property `White_Space`.
pub open spec fn is_space(c: char) -> bool {
    let u = c as u32;
    ||| 0x09 <= u <= 0x0D
    ||| u == 0x20
    ||| u == 0x85
    ||| u == 0xA0
    ||| u == 0x1680
    ||| 0x2000 <= u <= 0x200A
    ||| u == 0x2028
    ||| u == 0x2029
    ||| u == 0x202F
    ||| u == 0x205F
    ||| u == 0x3000
}

pub fn space(c: char) -> (r: bool)
    ensures
        r == is_space(c),
{
    let u: u32 = c as u32;
    (0x09 <= u && u <= 0x0D) || u == 0x20 || u == 0x85 || u == 0xA0 || u == 0x1680 || (0x2000 <= u
        && u <= 0x200A) || u == 0x2028 || u == 0x2029 || u == 0x202F || u == 0x205F || u == 0x3000
}

/// The characters of a string, in order.
pub fn to_chars(s: &str) -> (v: Vec<char>)
    ensures
        v@ == s@,
{
    let mut v: Vec<char> = Vec::new();
    for c in it: s.chars()
        invariant
            v@ == it.seq().take(it.index()),
    {
        v.push(c);
    }
    v
}

/// The index of the first character at or after `p` that is not white space,
/// or the length of `s` if there is none.
pub open spec fn skip_space(s: Seq<char>, p: int) -> int
    decreases s.len() - p,
{
    if 0 <= p < s.len() && is_space(s[p]) {
        skip_space(s, p + 1)
    } else {
        p
    }
}

/// The end of `s[lo..hi]` once the white space at its end is removed.
pub open spec fn drop_space(s: Seq<char>, lo: int, hi: int) -> int
    decreases hi - lo,
{
    if lo < hi <= s.len() && is_space(s[hi - 1]) {
        drop_space(s, lo, hi - 1)
    } else {
        hi
    }
}

/// `s` without the white space at its two ends.
pub open spec fn trim(s: Seq<char>) -> Seq<char> {
    let from = skip_space(s, 0);
    s.subrange(from, drop_space(s, from, s.len() as int))
}

/// Whether `s` is empty or holds white space only.
pub open spec fn is_blank(s: Seq<char>) -> bool {
    skip_space(s, 0) >= s.len()
}

pub proof fn lemma_skip_space_bounds(s: Seq<char>, p: int)
    requires
        0 <= p <= s.len(),
    ensures
        p <= skip_space(s, p) <= s.len(),
        forall|i: int| p <= i < skip_space(s, p) ==> is_space(#[trigger] s[i]),
        skip_space(s, p) < s.len() ==> !is_space(s[skip_space(s, p)]),
    decreases s.len() - p,
{
    if p < s.len() && is_space(s[p]) {
        lemma_skip_space_bounds(s, p + 1);
    }
}

pub proof fn lemma_drop_space_bounds(s: Seq<char>, lo: int, hi: int)
    requires
        0 <= lo <= hi <= s.len(),
    ensures
        lo <= drop_space(s, lo, hi) <= hi,
        forall|i: int| drop_space(s, lo, hi) <= i < hi ==> is_space(#[trigger] s[i]),
        lo < drop_space(s, lo, hi) ==> !is_space(s[drop_space(s, lo, hi) - 1]),
    decreases hi - lo,
{
    if lo < hi && is_space(s[hi - 1]) {
        lemma_drop_space_bounds(s, lo, hi - 1);
    }
}

pub proof fn lemma_trim_blank(s: Seq<char>)
    ensures
        is_blank(s) <==> trim(s).len() == 0,
{
    let from = skip_space(s, 0);
    lemma_skip_space_bounds(s, 0);
    lemma_drop_space_bounds(s, from, s.len() as int);
}

pub(crate) fn skip_space_from(s: &[char], p: usize) -> (q: usize)
    requires
        p <= s@.len(),
    ensures
        q == skip_space(s@, p as int),
        p <= q <= s@.len(),
{
    let mut q: usize = p;
    while q < s.len() && space(s[q])
        invariant
            p <= q <= s@.len(),
            skip_space(s@, p as int) == skip_space(s@, q as int),
        decreases s@.len() - q,
    {
        q += 1;
    }
    q
}

pub(crate) fn drop_space_to(s: &[char], lo: usize, hi: usize) -> (q: usize)
    requires
        lo <= hi <= s@.len(),
    ensures
        q == drop_space(s@, lo as int, hi as int),
        lo <= q <= hi,
{
    let mut q: usize = hi;
    while lo < q && space(s[q - 1])
        invariant
            lo <= q <= hi <= s@.len(),
            drop_space(s@, lo as int, hi as int) == drop_space(s@, lo as int, q as int),
        decreases q - lo,
    {
        q -= 1;
    }
    q
}

/// `text` without the white space at its two ends.
pub fn trimmed(text: &str) -> (r: String)
    ensures
        r@ == trim(text@),
{
    let chars = to_chars(text);
    let from = skip_space_from(chars.as_slice(), 0);
    let to = drop_space_to(chars.as_slice(), from, chars.len());
    substring(chars.as_slice(), from, to)
}

/// The string made of the characters `v[from..to]`.
pub(crate) fn substring(v: &[char], from: usize, to: usize) -> (s: String)
    requires
        from <= to <= v@.len(),
    ensures
        s@ == v@.subrange(from as int, to as int),
{
    let mut s = String::new();
    let mut i: usize = from;
    while i < to
        invariant
            from <= i <= to <= v@.len(),
            s@ == v@.subrange(from as int, i as int),
        decreases to - i,
    {
        s.push(v[i]);
        i += 1;
        assert(v@.subrange(from as int, i as int) == v@.subrange(from as int, i - 1).push(v@[i - 1]));
    }
    s
}

} // verus!
