//! Splitting text read from a file into lines.

use vstd::prelude::*;
use crate::chars::{chars_of, push_range};

verus! {

/// `s` without its trailing carriage returns.
pub open spec fn strip_cr(s: Seq<char>) -> Seq<char>
    decreases s.len(),
{
    if s.len() > 0 && s.last() == '\r' {
        strip_cr(s.drop_last())
    } else {
        s
    }
}

/// The lines of `t`, given the characters `cur` of the line already begun:
/// each line feed ends a line, trailing carriage returns are dropped, and
/// text after the last line feed makes a line of its own.
pub open spec fn lines_from(t: Seq<char>, cur: Seq<char>) -> Seq<Seq<char>>
    decreases t.len(),
{
    if t.len() == 0 {
        if cur.len() > 0 {
            seq![strip_cr(cur)]
        } else {
            seq![]
        }
    } else if t[0] == '\n' {
        seq![strip_cr(cur)] + lines_from(t.drop_first(), seq![])
    } else {
        lines_from(t.drop_first(), cur.push(t[0]))
    }
}

/// The lines of `t`.
pub open spec fn split_lines_spec(t: Seq<char>) -> Seq<Seq<char>> {
    lines_from(t, seq![])
}

/// Length of `s[a..b]` without its trailing carriage returns.
fn stripped_end(cs: &Vec<char>, a: usize, b: usize) -> (e: usize)
    requires
        a <= b <= cs@.len(),
    ensures
        a <= e <= b,
        cs@.subrange(a as int, e as int) == strip_cr(cs@.subrange(a as int, b as int)),
{
    let mut e = b;
    while e > a && cs[e - 1] == '\r'
        invariant
            a <= e <= b <= cs@.len(),
            strip_cr(cs@.subrange(a as int, e as int)) == strip_cr(cs@.subrange(a as int, b as int)),
        decreases e - a,
    {
        assert(cs@.subrange(a as int, e as int).drop_last() =~= cs@.subrange(a as int, e - 1));
        e = e - 1;
    }
    if e > a {
        assert(cs@.subrange(a as int, e as int).last() == cs@[e - 1]);
    }
    e
}

/// Splits text into lines: a line feed ends each line, trailing carriage
/// returns are dropped, and text after the last line feed is a line too.
pub fn split_lines(text: &str) -> (r: Vec<String>)
    ensures
        r@.map_values(|s: String| s@) == split_lines_spec(text@),
{
    let cs = chars_of(text);
    let mut out: Vec<String> = Vec::new();
    let mut start: usize = 0;
    let mut i: usize = 0;
    assert(cs@.skip(0) =~= text@);
    assert(cs@.subrange(0, 0) =~= seq![]);
    while i < cs.len()
        invariant
            start <= i <= cs@.len(),
            cs@ == text@,
            out@.map_values(|s: String| s@) + lines_from(cs@.skip(i as int), cs@.subrange(start as int, i as int))
                == split_lines_spec(text@),
        decreases cs.len() - i,
    {
        let ghost t = cs@.skip(i as int);
        let ghost cur = cs@.subrange(start as int, i as int);
        let ghost before = out@.map_values(|s: String| s@);
        assert(t[0] == cs@[i as int]);
        assert(t.drop_first() =~= cs@.skip(i + 1));
        if cs[i] == '\n' {
            let e = stripped_end(&cs, start, i);
            let mut line = String::new();
            push_range(&mut line, &cs, start, e);
            out.push(line);
            assert(out@.map_values(|s: String| s@) =~= before.push(strip_cr(cur)));
            start = i + 1;
            assert(cs@.subrange(start as int, start as int) =~= seq![]);
            assert(out@.map_values(|s: String| s@) + lines_from(cs@.skip(i + 1), seq![])
                =~= before + lines_from(t, cur));
        } else {
            assert(cs@.subrange(start as int, i + 1) =~= cur.push(cs@[i as int]));
        }
        i += 1;
    }
    assert(cs@.skip(i as int) =~= seq![]);
    if start < i {
        let e = stripped_end(&cs, start, i);
        let mut line = String::new();
        push_range(&mut line, &cs, start, e);
        let ghost before = out@.map_values(|s: String| s@);
        out.push(line);
        assert(out@.map_values(|s: String| s@) =~= before + seq![strip_cr(cs@.subrange(start as int, i as int))]);
    } else {
        assert(out@.map_values(|s: String| s@) =~= out@.map_values(|s: String| s@) + Seq::<Seq<char>>::empty());
    }
    out
}

} // verus!
