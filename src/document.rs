//! A document is a non-empty sequence of lines; on disk it is the lines
//! joined by a single `'\n'`.
use vstd::prelude::*;

verus! {

/// The lines of `text`: the pieces between the `'\n'` characters. An empty
/// text, or one ending in `'\n'`, ends with an empty line.
pub open spec fn split_lines(text: Seq<char>) -> Seq<Seq<char>>
    decreases text.len(),
{
    if text.len() == 0 {
        seq![Seq::<char>::empty()]
    } else {
        let before = split_lines(text.drop_last());
        if text.last() == '\n' {
            before.push(Seq::<char>::empty())
        } else {
            before.update(before.len() - 1, before.last().push(text.last()))
        }
    }
}

/// The text of `lines`: the lines joined by `'\n'`, with no trailing `'\n'`.
pub open spec fn join_lines(lines: Seq<Seq<char>>) -> Seq<char>
    decreases lines.len(),
{
    if lines.len() == 0 {
        Seq::<char>::empty()
    } else if lines.len() == 1 {
        lines[0]
    } else {
        join_lines(lines.drop_last()) + seq!['\n'] + lines.last()
    }
}

/// The number of characters in all the lines together.
pub open spec fn char_total(lines: Seq<Seq<char>>) -> nat
    decreases lines.len(),
{
    if lines.len() == 0 {
        0
    } else {
        char_total(lines.drop_last()) + lines.last().len()
    }
}

/// The lines of a document as plain sequences.
pub open spec fn lines_view(lines: Seq<Vec<char>>) -> Seq<Seq<char>> {
    lines.map_values(|l: Vec<char>| l@)
}

pub proof fn lemma_split_nonempty(text: Seq<char>)
    ensures
        split_lines(text).len() >= 1,
    decreases text.len(),
{
    if text.len() > 0 {
        lemma_split_nonempty(text.drop_last());
    }
}

proof fn lemma_join_extend_last(lines: Seq<Seq<char>>, c: char)
    requires
        lines.len() >= 1,
    ensures
        join_lines(lines.update(lines.len() - 1, lines.last().push(c))) == join_lines(lines).push(
            c,
        ),
{
    let upd = lines.update(lines.len() - 1, lines.last().push(c));
    if lines.len() > 1 {
        assert(upd.drop_last() =~= lines.drop_last());
    }
    assert(join_lines(upd) =~= join_lines(lines).push(c));
}

/// Joining the lines of a text gives the text back.
pub proof fn lemma_join_split(text: Seq<char>)
    ensures
        join_lines(split_lines(text)) == text,
    decreases text.len(),
{
    if text.len() > 0 {
        let prefix = text.drop_last();
        lemma_join_split(prefix);
        lemma_split_nonempty(prefix);
        let before = split_lines(prefix);
        if text.last() == '\n' {
            let after = before.push(Seq::<char>::empty());
            assert(after.drop_last() =~= before);
            assert(join_lines(after) =~= text);
        } else {
            lemma_join_extend_last(before, text.last());
            assert(prefix.push(text.last()) =~= text);
        }
    }
}

/// The length of a joined text: every character and one separator between
/// neighbouring lines.
pub proof fn lemma_join_len(lines: Seq<Seq<char>>)
    requires
        lines.len() >= 1,
    ensures
        join_lines(lines).len() == char_total(lines) + lines.len() - 1,
    decreases lines.len(),
{
    if lines.len() > 1 {
        lemma_join_len(lines.drop_last());
    } else {
        assert(char_total(lines.drop_last()) == 0);
    }
}

pub proof fn lemma_total_update(lines: Seq<Seq<char>>, r: int, t: Seq<char>)
    requires
        0 <= r < lines.len(),
    ensures
        char_total(lines.update(r, t)) == char_total(lines) - lines[r].len() + t.len(),
    decreases lines.len(),
{
    let upd = lines.update(r, t);
    if r == lines.len() - 1 {
        assert(upd.drop_last() =~= lines.drop_last());
    } else {
        lemma_total_update(lines.drop_last(), r, t);
        assert(upd.drop_last() =~= lines.drop_last().update(r, t));
    }
}

pub proof fn lemma_total_insert(lines: Seq<Seq<char>>, r: int, t: Seq<char>)
    requires
        0 <= r <= lines.len(),
    ensures
        char_total(lines.insert(r, t)) == char_total(lines) + t.len(),
    decreases lines.len(),
{
    let ins = lines.insert(r, t);
    if r == lines.len() {
        assert(ins.drop_last() =~= lines);
    } else {
        lemma_total_insert(lines.drop_last(), r, t);
        assert(ins.drop_last() =~= lines.drop_last().insert(r, t));
    }
}

pub proof fn lemma_total_remove(lines: Seq<Seq<char>>, r: int)
    requires
        0 <= r < lines.len(),
    ensures
        char_total(lines.remove(r)) == char_total(lines) - lines[r].len(),
{
    lemma_total_insert(lines.remove(r), r, lines[r]);
    assert(lines.remove(r).insert(r, lines[r]) =~= lines);
}

/// Splits `text` into the lines of a document.
pub fn parse_document(text: &str) -> (lines: Vec<Vec<char>>)
    ensures
        lines_view(lines@) == split_lines(text@),
        lines@.len() >= 1,
{
    let mut lines: Vec<Vec<char>> = Vec::new();
    let mut current: Vec<char> = Vec::new();
    for c in it: text.chars()
        invariant
            it.seq() == text@,
            lines_view(lines@).push(current@) == split_lines(text@.take(it.index() as int)),
    {
        proof {
            let i = it.index() as int;
            assert(text@.take(i + 1).drop_last() =~= text@.take(i));
            lemma_split_nonempty(text@.take(i));
        }
        if c == '\n' {
            lines.push(current);
            current = Vec::new();
        } else {
            current.push(c);
        }
        proof {
            assert(lines_view(lines@).push(current@) =~= split_lines(
                text@.take(it.index() + 1),
            ));
        }
    }
    lines.push(current);
    proof {
        assert(text@.take(text@.len() as int) =~= text@);
        assert(lines_view(lines@) =~= split_lines(text@));
    }
    lines
}

/// Relies on `String::push`: appends one character.
pub assume_specification[ String::push ](s: &mut String, ch: char)
    ensures
        final(s)@ == old(s)@.push(ch),
;

/// Joins the lines of a document with `'\n'`, with no trailing `'\n'`.
pub fn join_document(lines: &Vec<Vec<char>>) -> (text: String)
    ensures
        lines@.len() >= 1 ==> text@ == join_lines(lines_view(lines@)),
        lines@.len() == 0 ==> text@.len() == 0,
{
    let mut text = String::new();
    let mut i: usize = 0;
    while i < lines.len()
        invariant
            i <= lines@.len(),
            i == 0 ==> text@.len() == 0,
            i > 0 ==> text@ == join_lines(lines_view(lines@).take(i as int)),
        decreases lines@.len() - i,
    {
        let ghost before = text@;
        if i > 0 {
            text.push('\n');
        }
        let line = &lines[i];
        let mut j: usize = 0;
        while j < line.len()
            invariant
                j <= line@.len(),
                line == lines@[i as int],
                i < lines@.len(),
                text@ == (if i > 0 {
                    before + seq!['\n']
                } else {
                    before
                }) + line@.take(j as int),
            decreases line@.len() - j,
        {
            text.push(line[j]);
            proof {
                assert(line@.take(j + 1) =~= line@.take(j as int).push(line@[j as int]));
            }
            j += 1;
        }
        proof {
            assert(line@.take(j as int) =~= line@);
            let v = lines_view(lines@);
            if i > 0 {
                assert(v.take(i + 1).drop_last() =~= v.take(i as int));
            } else {
                assert(before =~= Seq::<char>::empty());
            }
            assert(text@ =~= join_lines(v.take(i + 1)));
        }
        i += 1;
    }
    proof {
        assert(lines_view(lines@).take(i as int) =~= lines_view(lines@));
    }
    text
}

} // verus!
