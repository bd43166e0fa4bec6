//! The object ids an operation records in its head files (`MERGE_HEAD`,
//! `REBASE_HEAD`, `CHERRY_PICK_HEAD`, `REVERT_HEAD`, `BISECT_START`).
use vstd::prelude::*;

use crate::git::{is_white_space, oid_parses, oid_text_valid, text_of_chars};
use crate::text::chars_of;

verus! {

/// `t` without its leading white space.
pub open spec fn skip_white(t: Seq<char>) -> Seq<char>
    decreases t.len(),
{
    if t.len() > 0 && is_white_space(t[0]) {
        skip_white(t.drop_first())
    } else {
        t
    }
}

/// The characters of `t` up to its first white space.
pub open spec fn word_prefix(t: Seq<char>) -> Seq<char>
    decreases t.len(),
{
    if t.len() > 0 && !is_white_space(t[0]) {
        seq![t[0]] + word_prefix(t.drop_first())
    } else {
        Seq::empty()
    }
}

/// The first word of `t`, as `split_whitespace().next()` gives it: empty
/// when `t` holds only white space.
pub open spec fn first_word(t: Seq<char>) -> Seq<char> {
    word_prefix(skip_white(t))
}

/// The lines of `t` ended so far, and the line under way, reading `t` from
/// the start: a line feed ends a line, and one carriage return just before
/// it is dropped.
pub open spec fn lines_state(t: Seq<char>) -> (Seq<Seq<char>>, Seq<char>)
    decreases t.len(),
{
    if t.len() == 0 {
        (Seq::empty(), Seq::empty())
    } else {
        let (done, cur) = lines_state(t.drop_last());
        if t.last() == '\n' {
            (done.push(without_cr(cur)), Seq::empty())
        } else {
            (done, cur.push(t.last()))
        }
    }
}

/// A line without one trailing carriage return.
pub open spec fn without_cr(line: Seq<char>) -> Seq<char> {
    if line.len() > 0 && line.last() == '\r' {
        line.drop_last()
    } else {
        line
    }
}

/// The lines of `t`, as `str::lines` gives them: the final line needs no
/// line feed, and an empty final segment is no line.
pub open spec fn text_lines(t: Seq<char>) -> Seq<Seq<char>> {
    let (done, cur) = lines_state(t);
    if cur.len() == 0 {
        done
    } else {
        done.push(cur)
    }
}

/// The first words of the lines that have one and that parse as object ids,
/// in order.
pub open spec fn line_oids(lines: Seq<Seq<char>>) -> Seq<Seq<char>>
    decreases lines.len(),
{
    if lines.len() == 0 {
        Seq::empty()
    } else {
        let rest = line_oids(lines.drop_last());
        let w = first_word(lines.last());
        if w.len() > 0 && oid_text_valid(w) {
            rest.push(w)
        } else {
            rest
        }
    }
}

/// The object ids a head file with the text `t` records: the first word of
/// each line, when it parses as an object id.
pub open spec fn head_oids_of(t: Seq<char>) -> Seq<Seq<char>> {
    line_oids(text_lines(t))
}

/// Whether `c` has the Unicode `White_Space` property.
fn is_white(c: char) -> (r: bool)
    ensures
        r == is_white_space(c),
{
    let n = c as u32;
    (0x9 <= n && n <= 0xd) || n == 0x20 || n == 0x85 || n == 0xa0 || n == 0x1680 || (0x2000 <= n && n
        <= 0x200a) || n == 0x2028 || n == 0x2029 || n == 0x202f || n == 0x205f || n == 0x3000
}

/// The first word of `t`.
pub fn first_word_of(t: &Vec<char>) -> (r: Vec<char>)
    ensures
        r@ == first_word(t@),
{
    let mut i: usize = 0;
    assert(t@.subrange(0, t@.len() as int) =~= t@);
    while i < t.len() && is_white(t[i])
        invariant
            i <= t@.len(),
            skip_white(t@) == skip_white(t@.subrange(i as int, t@.len() as int)),
        decreases t.len() - i,
    {
        assert(t@.subrange(i as int, t@.len() as int).drop_first() =~= t@.subrange(i + 1, t@.len() as int));
        i = i + 1;
    }
    assert(skip_white(t@.subrange(i as int, t@.len() as int)) == t@.subrange(i as int, t@.len() as int));
    let ghost start = i as int;
    let mut word: Vec<char> = Vec::new();
    while i < t.len() && !is_white(t[i])
        invariant
            start <= i <= t@.len(),
            skip_white(t@) == t@.subrange(start, t@.len() as int),
            word_prefix(t@.subrange(start, t@.len() as int)) == word@ + word_prefix(
                t@.subrange(i as int, t@.len() as int),
            ),
        decreases t.len() - i,
    {
        let ghost rest = t@.subrange(i as int, t@.len() as int);
        assert(rest.drop_first() =~= t@.subrange(i + 1, t@.len() as int));
        assert(word_prefix(rest) == seq![t@[i as int]] + word_prefix(rest.drop_first()));
        word.push(t[i]);
        assert(word@ + word_prefix(t@.subrange(i + 1, t@.len() as int)) =~= (word@.drop_last() + seq![t@[i as int]])
            + word_prefix(t@.subrange(i + 1, t@.len() as int)));
        i = i + 1;
    }
    assert(word_prefix(t@.subrange(i as int, t@.len() as int)) =~= Seq::<char>::empty());
    assert(word@ + Seq::<char>::empty() =~= word@);
    word
}

proof fn lemma_line_oids_single(line: Seq<char>)
    ensures
        line_oids(seq![line]) == (if first_word(line).len() > 0 && oid_text_valid(first_word(line)) {
            seq![first_word(line)]
        } else {
            Seq::<Seq<char>>::empty()
        }),
{
    let one = seq![line];
    assert(one.drop_last() =~= Seq::<Seq<char>>::empty());
    assert(one.last() == line);
    assert(line_oids(Seq::<Seq<char>>::empty()) == Seq::<Seq<char>>::empty());
    assert(Seq::<Seq<char>>::empty().push(first_word(line)) =~= seq![first_word(line)]);
}

/// Adds the first word of `line` to `oids` when it parses as an object id.
fn push_line_oid(oids: &mut Vec<String>, line: &Vec<char>)
    ensures
        final(oids)@.map_values(|s: String| s@) == old(oids)@.map_values(|s: String| s@) + line_oids(seq![line@]),
{
    let ghost before = oids@;
    proof {
        lemma_line_oids_single(line@);
    }
    let w = first_word_of(line);
    let text = text_of_chars(&w);
    assert(seq![line@].drop_last() =~= Seq::<Seq<char>>::empty());
    assert(seq![line@].last() == line@);
    if w.len() > 0 && oid_parses(text.as_str()) {
        oids.push(text);
        assert(oids@.map_values(|s: String| s@) =~= before.map_values(|s: String| s@).push(w@));
    } else {
        assert(before.map_values(|s: String| s@) + Seq::<Seq<char>>::empty() =~= before.map_values(|s: String| s@));
    }
}

proof fn lemma_line_oids_push(lines: Seq<Seq<char>>, line: Seq<char>)
    ensures
        line_oids(lines.push(line)) == line_oids(lines) + line_oids(seq![line]),
{
    assert(lines.push(line).drop_last() =~= lines);
    lemma_line_oids_single(line);
    let w = first_word(line);
    if w.len() > 0 && oid_text_valid(w) {
        assert(line_oids(lines).push(w) =~= line_oids(lines) + seq![w]);
    } else {
        assert(line_oids(lines) + Seq::<Seq<char>>::empty() =~= line_oids(lines));
    }
}

/// The object ids a head file with the text `text` records: the first word
/// of each line, when it parses as an object id.
pub fn head_oids(text: &str) -> (r: Vec<String>)
    ensures
        r@.map_values(|s: String| s@) == head_oids_of(text@),
{
    let chars = chars_of(text);
    let mut oids: Vec<String> = Vec::new();
    let mut cur: Vec<char> = Vec::new();
    let ghost mut done: Seq<Seq<char>> = Seq::empty();
    let mut i: usize = 0;
    assert(chars@.subrange(0, 0) =~= Seq::<char>::empty());
    assert(oids@.map_values(|s: String| s@) =~= Seq::<Seq<char>>::empty());
    while i < chars.len()
        invariant
            i <= chars@.len(),
            chars@ == text@,
            lines_state(chars@.subrange(0, i as int)) == (done, cur@),
            oids@.map_values(|s: String| s@) == line_oids(done),
        decreases chars.len() - i,
    {
        let ghost prefix = chars@.subrange(0, i + 1);
        assert(prefix.drop_last() =~= chars@.subrange(0, i as int));
        assert(prefix.last() == chars@[i as int]);
        let c = chars[i];
        if c == '\n' {
            let ghost line = without_cr(cur@);
            if cur.len() > 0 && cur[cur.len() - 1] == '\r' {
                cur.pop();
            }
            assert(cur@ == line);
            push_line_oid(&mut oids, &cur);
            proof {
                lemma_line_oids_push(done, line);
                done = done.push(line);
            }
            cur = Vec::new();
            assert(cur@ =~= Seq::<char>::empty());
        } else {
            cur.push(c);
        }
        i = i + 1;
    }
    assert(chars@.subrange(0, chars@.len() as int) =~= chars@);
    if cur.len() > 0 {
        push_line_oid(&mut oids, &cur);
        proof {
            lemma_line_oids_push(done, cur@);
        }
    }
    oids
}

/// The first word of `text`, when it has one.
pub fn first_word_text(text: &str) -> (r: Option<String>)
    ensures
        match r {
            Some(w) => w@ == first_word(text@) && w@.len() > 0,
            None => first_word(text@).len() == 0,
        },
{
    let chars = chars_of(text);
    let w = first_word_of(&chars);
    if w.len() > 0 {
        Some(text_of_chars(&w))
    } else {
        None
    }
}

} // verus!
