use vstd::prelude::*;
use vstd::string::*;

use crate::text::{chars_of, push_char};

verus! {

/// The characters that `char::is_whitespace` accepts: those with the
/// Unicode `White_Space` property.
pub open spec fn is_white(c: char) -> bool {
    let u = c as u32;
    ||| 0x9 <= u <= 0xD
    ||| u == 0x20
    ||| u == 0x85
    ||| u == 0xA0
    ||| u == 0x1680
    ||| 0x2000 <= u <= 0x200A
    ||| u == 0x2028
    ||| u == 0x2029
    ||| u == 0x202F
    ||| u == 0x205F
    ||| u == 0x3000
}

/// Number of bytes of `c` in UTF-8.
pub open spec fn utf8_width(c: char) -> nat {
    let u = c as u32;
    if u < 0x80 {
        1
    } else if u < 0x800 {
        2
    } else if u < 0x10000 {
        3
    } else {
        4
    }
}

/// Number of bytes of `s` in UTF-8.
pub open spec fn utf8_len(s: Seq<char>) -> nat
    decreases s.len(),
{
    if s.len() == 0 {
        0
    } else {
        utf8_len(s.drop_last()) + utf8_width(s.last())
    }
}

/// The words of `t`: its maximal runs of characters that are not
/// whitespace, in order.
pub open spec fn words(t: Seq<char>) -> Seq<Seq<char>>
    decreases t.len(),
{
    if t.len() == 0 {
        Seq::empty()
    } else {
        let ws = words(t.drop_last());
        let c = t.last();
        if is_white(c) {
            ws
        } else if t.len() >= 2 && !is_white(t[t.len() - 2]) {
            ws.update(ws.len() - 1, ws.last().push(c))
        } else {
            ws.push(seq![c])
        }
    }
}

/// The finished lines and the open line after laying out `ws`: each word
/// is followed by a space, and a word that would take the open line past
/// `width` bytes first closes it with a line break.
pub open spec fn laid_out(ws: Seq<Seq<char>>, width: int) -> (Seq<char>, Seq<char>)
    decreases ws.len(),
{
    if ws.len() == 0 {
        (Seq::empty(), Seq::empty())
    } else {
        let (out, line) = laid_out(ws.drop_last(), width);
        let w = ws.last();
        let (out2, line2) = if utf8_len(line) + utf8_len(w) > width {
            (out + line + seq!['\n'], Seq::<char>::empty())
        } else {
            (out, line)
        };
        (out2, line2 + w + seq![' '])
    }
}

/// The words of `text`, laid out in lines of at most `width` bytes (a
/// longer word stands alone), each word followed by a space.
pub open spec fn wrapped(text: Seq<char>, width: int) -> Seq<char> {
    let (out, line) = laid_out(words(text), width);
    out + line
}

proof fn lemma_utf8_len_push(s: Seq<char>, c: char)
    ensures
        utf8_len(s.push(c)) == utf8_len(s) + utf8_width(c),
{
    assert(s.push(c).drop_last() =~= s);
}

proof fn lemma_utf8_len_concat(s: Seq<char>, t: Seq<char>)
    ensures
        utf8_len(s + t) == utf8_len(s) + utf8_len(t),
    decreases t.len(),
{
    if t.len() > 0 {
        lemma_utf8_len_concat(s, t.drop_last());
        assert((s + t).drop_last() =~= s + t.drop_last());
    }
}

/// The byte count that `width as usize` gives on a 64-bit or 32-bit
/// target: a negative width wraps round to a huge one.
pub open spec fn byte_limit(width: i32) -> int {
    if width >= 0 {
        width as int
    } else {
        usize::MAX as int + 1 + width as int
    }
}

/// The byte count that `width as usize` gives.
fn limit_of(width: i32) -> (r: u128)
    ensures
        r == byte_limit(width),
{
    if width >= 0 {
        width as u128
    } else {
        (usize::MAX as u128) + 1 - ((0i64 - width as i64) as u128)
    }
}

/// Lays out one more word after `out` and `line`.
fn place_word(out: &mut String, line: &mut String, line_bytes: u128, word: &String, word_bytes: u128, limit: u128) -> (r: u128)
    requires
        line_bytes == utf8_len(old(line)@),
        word_bytes == utf8_len(word@),
        line_bytes + word_bytes + 1 <= u128::MAX,
    ensures
        ({
            let ws = seq![word@];
            let step = if utf8_len(old(line)@) + utf8_len(word@) > limit {
                (old(out)@ + old(line)@ + seq!['\n'], Seq::<char>::empty())
            } else {
                (old(out)@, old(line)@)
            };
            &&& final(out)@ == step.0
            &&& final(line)@ == step.1 + word@ + seq![' ']
        }),
        r == utf8_len(final(line)@),
        r <= line_bytes + word_bytes + 1,
{
    let mut base = line_bytes;
    if line_bytes + word_bytes > limit {
        out.append(line.as_str());
        push_char(out, '\n');
        *line = String::new();
        base = 0;
    }
    let ghost line2 = line@;
    line.append(word.as_str());
    push_char(line, ' ');
    proof {
        assert(line@ =~= (line2 + word@) + seq![' ']);
        lemma_utf8_len_concat(line2, word@);
        lemma_utf8_len_concat(line2 + word@, seq![' ']);
        assert(seq![' '].drop_last() =~= Seq::<char>::empty());
        assert(utf8_len(Seq::<char>::empty()) == 0);
    }
    base + word_bytes + 1
}

/// Byte length of `c` in UTF-8.
fn char_width(c: char) -> (r: u128)
    ensures
        r == utf8_width(c),
{
    let u = c as u32;
    if u < 0x80 {
        1
    } else if u < 0x800 {
        2
    } else if u < 0x10000 {
        3
    } else {
        4
    }
}

/// Whether `c` is whitespace.
fn white(c: char) -> (r: bool)
    ensures
        r == is_white(c),
{
    let u = c as u32;
    (0x9 <= u && u <= 0xD) || u == 0x20 || u == 0x85 || u == 0xA0 || u == 0x1680 || (0x2000 <= u
        && u <= 0x200A) || u == 0x2028 || u == 0x2029 || u == 0x202F || u == 0x205F || u == 0x3000
}

/// Lays out the words of `text` in lines of at most `width` bytes (a longer
/// word stands alone), each word followed by a space.
pub fn word_wrap(text: &str, width: i32) -> (r: String)
    ensures
        r@ == wrapped(text@, byte_limit(width)),
{
    let limit = limit_of(width);
    let cs = chars_of(text);
    let mut out = String::new();
    let mut line = String::new();
    let mut line_bytes: u128 = 0;
    let mut word = String::new();
    let mut word_bytes: u128 = 0;
    let ghost mut done: Seq<Seq<char>> = Seq::empty();
    let mut i: usize = 0;
    while i < cs.len()
        invariant
            cs@ == text@,
            i <= cs.len(),
            (out@, line@) == laid_out(done, limit as int),
            line_bytes == utf8_len(line@),
            word_bytes == utf8_len(word@),
            line_bytes + word_bytes <= 4 * i,
            words(cs@.subrange(0, i as int)) == if word@.len() > 0 {
                done.push(word@)
            } else {
                done
            },
            word@.len() > 0 <==> (i > 0 && !is_white(cs@[i - 1])),
        decreases cs.len() - i,
    {
        let c = cs[i];
        let ghost pre = cs@.subrange(0, i as int);
        assert(cs@.subrange(0, i + 1) =~= pre.push(c));
        assert(cs@.subrange(0, i + 1).drop_last() =~= pre);
        if white(c) {
            if !word.as_str().is_empty() {
                let ghost old_done = done;
                proof {
                    done = done.push(word@);
                    assert(done.drop_last() =~= old_done);
                }
                line_bytes = place_word(&mut out, &mut line, line_bytes, &word, word_bytes, limit);
                word = String::new();
                word_bytes = 0;
            }
        } else {
            proof {
                lemma_utf8_len_push(word@, c);
                let t = pre.push(c);
                if i > 0 {
                    assert(t[t.len() - 2] == cs@[i - 1]);
                }
                if word@.len() == 0 {
                    assert(word@.push(c) =~= seq![c]);
                } else {
                    assert(done.push(word@).update(done.len() as int, word@.push(c)) =~= done.push(
                        word@.push(c),
                    ));
                }
            }
            push_char(&mut word, c);
            word_bytes = word_bytes + char_width(c);
        }
        i = i + 1;
    }
    assert(cs@.subrange(0, cs.len() as int) =~= cs@);
    if !word.as_str().is_empty() {
        let ghost old_done = done;
        proof {
            done = done.push(word@);
            assert(done.drop_last() =~= old_done);
        }
        place_word(&mut out, &mut line, line_bytes, &word, word_bytes, limit);
    }
    out.append(line.as_str());
    out
}

} // verus!
