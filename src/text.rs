use vstd::prelude::*;
use vstd::string::*;

verus! {

/// The pieces of `t` between line breaks; a text with `n` line breaks has
/// `n + 1` of them.
pub open spec fn segments(t: Seq<char>) -> Seq<Seq<char>>
    decreases t.len(),
{
    if t.len() == 0 {
        seq![Seq::empty()]
    } else {
        let prev = segments(t.drop_last());
        if t.last() == '\n' {
            prev.push(Seq::empty())
        } else {
            prev.update(prev.len() - 1, prev.last().push(t.last()))
        }
    }
}

/// A line without the carriage return that may end it.
pub open spec fn strip_cr(l: Seq<char>) -> Seq<char> {
    if l.len() > 0 && l.last() == '\r' {
        l.drop_last()
    } else {
        l
    }
}

/// The lines of `t` as `str::lines` yields them: split at each line break,
/// a trailing carriage return removed, and no empty line after a final
/// line break.
pub open spec fn lines(t: Seq<char>) -> Seq<Seq<char>> {
    let segs = if t.len() > 0 && t.last() == '\n' {
        segments(t).drop_last()
    } else if t.len() == 0 {
        Seq::empty()
    } else {
        segments(t)
    };
    segs.map_values(|l: Seq<char>| strip_cr(l))
}

/// The length in characters of line `y` of `t`, or zero where `t` has no
/// such line.
pub open spec fn line_len(t: Seq<char>, y: int) -> nat {
    if 0 <= y < lines(t).len() {
        lines(t)[y].len()
    } else {
        0
    }
}

proof fn lemma_segments_nonempty(t: Seq<char>)
    ensures
        segments(t).len() >= 1,
    decreases t.len(),
{
    if t.len() > 0 {
        lemma_segments_nonempty(t.drop_last());
    }
}

proof fn lemma_segments_push(t: Seq<char>, c: char)
    ensures
        segments(t.push(c)) == (if c == '\n' {
            segments(t).push(Seq::empty())
        } else {
            segments(t).update(segments(t).len() - 1, segments(t).last().push(c))
        }),
        segments(t).len() >= 1,
{
    lemma_segments_nonempty(t);
    assert(t.push(c).drop_last() =~= t);
}

/// Extending a text changes none of its segments but the last.
proof fn lemma_segments_extend(t: Seq<char>, c: char, k: int)
    requires
        0 <= k < segments(t).len() - 1,
    ensures
        segments(t.push(c))[k] == segments(t)[k],
        segments(t.push(c)).len() >= segments(t).len(),
{
    lemma_segments_nonempty(t);
    assert(t.push(c).drop_last() =~= t);
}

/// The characters of `s`, one by one.
pub fn chars_of(s: &str) -> (r: Vec<char>)
    ensures
        r@ == s@,
{
    let mut r: Vec<char> = Vec::new();
    for c in it: s.chars()
        invariant
            r@ == it.seq().subrange(0, it.index() as int),
            it.seq() == s@,
    {
        r.push(c);
    }
    assert(r@ =~= s@);
    r
}

/// Relies on `String::push`: appends one character.
#[verifier::external_body]
pub(crate) fn push_char(s: &mut String, c: char)
    ensures
        final(s)@ == old(s)@.push(c),
{
    s.push(c)
}

/// Relies on `String::pop`: removes and returns the last character, if any.
#[verifier::external_body]
pub(crate) fn pop_char(s: &mut String) -> (r: Option<char>)
    ensures
        old(s)@.len() == 0 ==> r is None && final(s)@ == old(s)@,
        old(s)@.len() > 0 ==> r == Some(old(s)@.last()) && final(s)@ == old(s)@.drop_last(),
{
    s.pop()
}

/// Number of lines of `t`, counted as `str::lines` counts them.
pub fn count_lines(t: &str) -> (r: usize)
    ensures
        r == lines(t@).len(),
{
    let cs = chars_of(t);
    let mut breaks: usize = 0;
    let mut i: usize = 0;
    while i < cs.len()
        invariant
            cs@ == t@,
            i <= cs.len(),
            breaks + 1 == segments(cs@.subrange(0, i as int)).len(),
            breaks <= i,
            i > 0 && cs@[i - 1] != '\n' ==> breaks < i,
        decreases cs.len() - i,
    {
        assert(cs@.subrange(0, i + 1) =~= cs@.subrange(0, i as int).push(cs@[i as int]));
        proof {
            lemma_segments_push(cs@.subrange(0, i as int), cs@[i as int]);
        }
        if cs[i] == '\n' {
            breaks = breaks + 1;
        }
        i = i + 1;
    }
    assert(cs@.subrange(0, cs.len() as int) =~= cs@);
    if cs.len() > 0 && cs[cs.len() - 1] != '\n' {
        breaks + 1
    } else {
        breaks
    }
}

/// Length in characters of line `y` of `t`, or zero where there is no such
/// line.
pub fn line_length(t: &str, y: usize) -> (r: usize)
    ensures
        r == line_len(t@, y as int),
{
    let cs = chars_of(t);
    let mut breaks: usize = 0;
    let mut len: usize = 0;
    let mut last: char = ' ';
    let mut i: usize = 0;
    while i < cs.len()
        invariant
            cs@ == t@,
            i <= cs.len(),
            breaks + 1 == segments(cs@.subrange(0, i as int)).len(),
            breaks <= i,
            i > 0 && cs@[i - 1] != '\n' ==> breaks < i,
            len <= i,
            breaks < y ==> len == 0,
            breaks == y ==> len == segments(cs@.subrange(0, i as int)).last().len(),
            y < breaks ==> len == segments(cs@.subrange(0, i as int))[y as int].len(),
            breaks == y && len > 0 ==> last == segments(cs@.subrange(0, i as int)).last().last(),
            y < breaks && len > 0 ==> last == segments(cs@.subrange(0, i as int))[y as int].last(),
        decreases cs.len() - i,
    {
        let ghost pre = cs@.subrange(0, i as int);
        assert(cs@.subrange(0, i + 1) =~= pre.push(cs@[i as int]));
        assert(cs@.subrange(0, i + 1).drop_last() =~= pre);
        proof {
            lemma_segments_push(pre, cs@[i as int]);
            if y < breaks {
                lemma_segments_extend(pre, cs@[i as int], y as int);
            }
        }
        if cs[i] == '\n' {
            breaks = breaks + 1;
        } else if breaks == y {
            len = len + 1;
            last = cs[i];
        }
        i = i + 1;
    }
    assert(cs@.subrange(0, cs.len() as int) =~= cs@);
    let ghost segs = segments(cs@);
    let n_lines: usize = if cs.len() > 0 && cs[cs.len() - 1] != '\n' {
        breaks + 1
    } else {
        breaks
    };
    if y >= n_lines {
        return 0;
    }
    proof {
        lemma_segments_nonempty(cs@);
        if !(cs.len() > 0 && cs[cs.len() - 1] != '\n') && cs.len() > 0 {
            assert(segs.drop_last()[y as int] == segs[y as int]);
        }
    }
    if len > 0 && last == '\r' {
        len - 1
    } else {
        len
    }
}

/// What follows the last `/` of a path: the whole path where it has none.
pub open spec fn file_name_of(p: Seq<char>) -> Seq<char>
    decreases p.len(),
{
    if p.len() == 0 || p.last() == '/' {
        Seq::empty()
    } else {
        file_name_of(p.drop_last()).push(p.last())
    }
}

/// `items` with `sep` between each two of them.
pub open spec fn joined(items: Seq<Seq<char>>, sep: Seq<char>) -> Seq<char>
    decreases items.len(),
{
    if items.len() == 0 {
        Seq::empty()
    } else if items.len() == 1 {
        items[0]
    } else {
        joined(items.drop_last(), sep) + sep + items.last()
    }
}

/// The views of a list of strings.
pub open spec fn views(v: Seq<String>) -> Seq<Seq<char>> {
    v.map_values(|s: String| s@)
}

/// The last segment of a `/`-separated path.
pub fn file_name(p: &str) -> (r: String)
    ensures
        r@ == file_name_of(p@),
{
    let cs = chars_of(p);
    let mut start: usize = 0;
    let mut i: usize = 0;
    while i < cs.len()
        invariant
            cs@ == p@,
            start <= i <= cs.len(),
            file_name_of(cs@.subrange(0, i as int)) == cs@.subrange(start as int, i as int),
        decreases cs.len() - i,
    {
        assert(cs@.subrange(0, i + 1).drop_last() =~= cs@.subrange(0, i as int));
        if cs[i] == '/' {
            start = i + 1;
        }
        assert(cs@.subrange(start as int, i + 1) =~= (if cs@[i as int] == '/' {
            Seq::empty()
        } else {
            cs@.subrange(start as int, i as int).push(cs@[i as int])
        }));
        i = i + 1;
    }
    assert(cs@.subrange(0, cs.len() as int) =~= cs@);
    let mut r = String::new();
    let mut j: usize = start;
    while j < cs.len()
        invariant
            start <= j <= cs.len(),
            r@ == cs@.subrange(start as int, j as int),
        decreases cs.len() - j,
    {
        push_char(&mut r, cs[j]);
        assert(r@ =~= cs@.subrange(start as int, j + 1));
        j = j + 1;
    }
    r
}

/// The strings of `items`, with `sep` between each two of them.
pub fn join(items: &Vec<String>, sep: &str) -> (r: String)
    ensures
        r@ == joined(views(items@), sep@),
{
    let mut r = String::new();
    let mut i: usize = 0;
    while i < items.len()
        invariant
            i <= items.len(),
            r@ == joined(views(items@.subrange(0, i as int)), sep@),
        decreases items.len() - i,
    {
        let ghost pre = views(items@.subrange(0, i as int));
        let ghost next = views(items@.subrange(0, i + 1));
        assert(next.drop_last() =~= pre);
        assert(next.last() == items@[i as int]@);
        if i > 0 {
            r.append(sep);
        }
        r.append(items[i].as_str());
        proof {
            if i == 0 {
                assert(r@ =~= next[0]);
            } else {
                assert(r@ =~= joined(pre, sep@) + sep@ + next.last());
            }
        }
        i = i + 1;
    }
    assert(items@.subrange(0, items.len() as int) =~= items@);
    r
}

} // verus!
