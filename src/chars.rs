//! Small character-level helpers shared by the text modules.

use vstd::prelude::*;

verus! {

/// The characters of `s`, in order.
pub fn chars_of(s: &str) -> (r: Vec<char>)
    ensures
        r@ == s@,
{
    let mut out: Vec<char> = Vec::new();
    for c in it: s.chars()
        invariant
            it.seq() == s@,
            out@ == it.seq().take(it.index() as int),
    {
        out.push(c);
    }
    out
}

/// Relies on `String::push`: appends one character at the end.
#[verifier::external_body]
pub(crate) fn push_char(s: &mut String, c: char)
    ensures
        final(s)@ == old(s)@.push(c),
{
    s.push(c)
}

/// Number of bytes of `c` in UTF-8.
pub open spec fn utf8_len(c: char) -> nat {
    if (c as u32) < 0x80 {
        1
    } else if (c as u32) < 0x800 {
        2
    } else if (c as u32) < 0x10000 {
        3
    } else {
        4
    }
}

/// The number of leading characters of `t` needed to cover its first `b`
/// bytes: for a byte offset on a character boundary, the index of the
/// character that starts there.
pub open spec fn char_index(t: Seq<char>, b: int) -> nat
    decreases t.len(),
{
    if t.len() == 0 || b <= 0 {
        0
    } else {
        1 + char_index(t.drop_first(), b - utf8_len(t[0]))
    }
}

/// The byte ranges `spans` of `t`, as character ranges.
pub open spec fn char_ranges(t: Seq<char>, spans: Seq<(usize, usize)>) -> Seq<(int, int)> {
    spans.map_values(|s: (usize, usize)| (char_index(t, s.0 as int) as int, char_index(t, s.1 as int) as int))
}

pub proof fn lemma_char_index_bound(t: Seq<char>, b: int)
    ensures
        char_index(t, b) <= t.len(),
    decreases t.len(),
{
    if t.len() > 0 && b > 0 {
        lemma_char_index_bound(t.drop_first(), b - utf8_len(t[0]));
    }
}

fn utf8_len_exec(c: char) -> (r: usize)
    ensures
        r == utf8_len(c),
{
    let u = c as u32;
    if u < 0x80 {
        1
    } else if u < 0x800 {
        2
    } else if u < 0x10000 {
        3
    } else {
        4
    }
}

/// The character index in `cs` that covers the byte offset `b`.
pub fn char_index_of(cs: &Vec<char>, b: usize) -> (r: usize)
    ensures
        r == char_index(cs@, b as int),
{
    let mut i: usize = 0;
    let mut rem: usize = b;
    assert(cs@.skip(0) =~= cs@);
    while i < cs.len() && rem > 0
        invariant
            i <= cs.len(),
            char_index(cs@, b as int) == i + char_index(cs@.skip(i as int), rem as int),
        decreases cs.len() - i,
    {
        let u = utf8_len_exec(cs[i]);
        let ghost t = cs@.skip(i as int);
        assert(t[0] == cs@[i as int]);
        assert(t.drop_first() =~= cs@.skip(i + 1));
        if rem <= u {
            assert(char_index(cs@.skip(i + 1), rem - u) == 0);
            rem = 0;
        } else {
            rem = rem - u;
        }
        i += 1;
    }
    i
}

/// Converts the byte ranges `spans` of the text `cs` into character ranges.
pub fn to_char_ranges(cs: &Vec<char>, spans: &Vec<(usize, usize)>) -> (r: Vec<(usize, usize)>)
    ensures
        r@.len() == spans@.len(),
        forall|k: int| 0 <= k < r@.len() ==> (r@[k].0 as int, r@[k].1 as int) == #[trigger] char_ranges(cs@, spans@)[k],
{
    let mut out: Vec<(usize, usize)> = Vec::new();
    let mut k: usize = 0;
    while k < spans.len()
        invariant
            k <= spans.len(),
            out@.len() == k,
            forall|j: int| 0 <= j < k ==> (out@[j].0 as int, out@[j].1 as int) == #[trigger] char_ranges(cs@, spans@)[j],
        decreases spans.len() - k,
    {
        let (a, b) = spans[k];
        let ca = char_index_of(cs, a);
        let cb = char_index_of(cs, b);
        out.push((ca, cb));
        k += 1;
    }
    out
}

/// Appends `cs[a..b]`.
pub(crate) fn push_range(out: &mut String, cs: &Vec<char>, a: usize, b: usize)
    requires
        a <= b <= cs@.len(),
    ensures
        final(out)@ == old(out)@ + cs@.subrange(a as int, b as int),
{
    let mut i: usize = a;
    while i < b
        invariant
            a <= i <= b,
            b <= cs@.len(),
            out@ == old(out)@ + cs@.subrange(a as int, i as int),
        decreases b - i,
    {
        push_char(out, cs[i]);
        i += 1;
        assert(out@ =~= old(out)@ + cs@.subrange(a as int, i as int));
    }
}

} // verus!
