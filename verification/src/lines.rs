//! Breaking text into lines and joining lines back into text.

use vstd::prelude::*;
use vstd::string::{StrSliceExecFns, StringExecFns};

verus! {

/// The pieces of `s` between its line feeds. A text with `k` line feeds has
/// `k + 1` pieces, some of which may be empty.
pub open spec fn split_lines(s: Seq<char>) -> Seq<Seq<char>>
    decreases s.len(),
{
    if s.len() == 0 {
        seq![Seq::empty()]
    } else {
        let rest = split_lines(s.drop_last());
        if s.last() == '\n' {
            rest.push(Seq::empty())
        } else {
            rest.update(rest.len() - 1, rest.last().push(s.last()))
        }
    }
}

/// The lines joined with one line feed between neighbours.
pub open spec fn join_lines(lines: Seq<Seq<char>>) -> Seq<char>
    decreases lines.len(),
{
    if lines.len() == 0 {
        Seq::empty()
    } else if lines.len() == 1 {
        lines[0]
    } else {
        join_lines(lines.drop_last()) + seq!['\n'] + lines.last()
    }
}

/// Whether no line holds a line feed.
pub open spec fn no_line_feed(lines: Seq<Seq<char>>) -> bool {
    forall|i: int, j: int|
        0 <= i < lines.len() && 0 <= j < lines[i].len() ==> (#[trigger] lines[i][j]) != '\n'
}

/// `line` without one trailing carriage return.
pub open spec fn strip_cr(line: Seq<char>) -> Seq<char> {
    if line.len() > 0 && line.last() == '\r' {
        line.drop_last()
    } else {
        line
    }
}

/// The lines of a file's text: every line feed ends a line, a carriage
/// return directly before it belongs to the line ending, and text after the
/// last line feed is a line of its own unless it is empty. A text without
/// any line is one empty line.
pub open spec fn file_lines(text: Seq<char>) -> Seq<Seq<char>> {
    let pieces = split_lines(text);
    let ended = pieces.drop_last().map_values(|l: Seq<char>| strip_cr(l));
    let all = if pieces.last().len() == 0 {
        ended
    } else {
        ended.push(pieces.last())
    };
    if all.len() == 0 {
        seq![Seq::empty()]
    } else {
        all
    }
}

/// Splitting always yields at least one piece.
pub proof fn lemma_split_nonempty(s: Seq<char>)
    ensures
        split_lines(s).len() >= 1,
    decreases s.len(),
{
    if s.len() > 0 {
        lemma_split_nonempty(s.drop_last());
    }
}

/// Appending text without a line feed to `s` extends the last piece.
pub proof fn lemma_split_append_plain(s: Seq<char>, t: Seq<char>)
    requires
        forall|j: int| 0 <= j < t.len() ==> t[j] != '\n',
    ensures
        split_lines(s).len() >= 1,
        split_lines(s + t) == split_lines(s).update(
            split_lines(s).len() - 1,
            split_lines(s).last() + t,
        ),
    decreases t.len(),
{
    lemma_split_nonempty(s);
    let base = split_lines(s);
    if t.len() == 0 {
        assert(s + t == s);
        assert(base.last() + t == base.last());
        assert(base.update(base.len() - 1, base.last()) == base);
    } else {
        let t0 = t.drop_last();
        lemma_split_append_plain(s, t0);
        assert((s + t).drop_last() == s + t0);
        assert((s + t).last() == t.last());
        assert(base.last() + t == (base.last() + t0).push(t.last()));
        let mid = base.update(base.len() - 1, base.last() + t0);
        assert(mid.update(mid.len() - 1, mid.last().push(t.last())) == base.update(
            base.len() - 1,
            base.last() + t,
        ));
    }
}

/// Splitting what joining produced gives the lines back, provided there is
/// at least one line and none holds a line feed.
pub proof fn lemma_split_join(lines: Seq<Seq<char>>)
    requires
        lines.len() >= 1,
        no_line_feed(lines),
    ensures
        split_lines(join_lines(lines)) == lines,
    decreases lines.len(),
{
    let last = lines.last();
    assert forall|j: int| 0 <= j < last.len() implies last[j] != '\n' by {
        assert(lines[lines.len() - 1][j] != '\n');
    }
    if lines.len() == 1 {
        let e = Seq::<char>::empty();
        lemma_split_append_plain(e, last);
        assert(e + last == last);
        assert(split_lines(e) == seq![e]);
        assert(e + last == last);
        assert(seq![e].update(0, last) == lines);
    } else {
        let front = lines.drop_last();
        assert(no_line_feed(front)) by {
            assert forall|i: int, j: int|
                0 <= i < front.len() && 0 <= j < front[i].len() implies (#[trigger] front[i][j])
                != '\n' by {
                assert(lines[i][j] != '\n');
            }
        }
        lemma_split_join(front);
        let head = join_lines(front) + seq!['\n'];
        assert(head.drop_last() == join_lines(front));
        assert(split_lines(head) == front.push(Seq::empty()));
        lemma_split_append_plain(head, last);
        assert(Seq::<char>::empty() + last == last);
        assert(front.push(Seq::empty()).update(front.len() as int, last) == lines);
    }
}

/// Joining the pieces of a text gives the text back.
pub proof fn lemma_join_split(s: Seq<char>)
    ensures
        join_lines(split_lines(s)) == s,
    decreases s.len(),
{
    lemma_split_nonempty(s);
    if s.len() == 0 {
    } else {
        let s0 = s.drop_last();
        lemma_join_split(s0);
        lemma_split_nonempty(s0);
        let rest = split_lines(s0);
        if s.last() == '\n' {
            let now = rest.push(Seq::empty());
            assert(now.drop_last() == rest);
            assert(join_lines(now) == join_lines(rest) + seq!['\n'] + Seq::<char>::empty());
            assert(s == s0 + seq!['\n']);
        } else {
            let now = rest.update(rest.len() - 1, rest.last().push(s.last()));
            lemma_join_extend_last(rest, s.last());
            assert(s == s0.push(s.last()));
        }
    }
}

/// Appending a character to the last line appends it to the joined text.
pub proof fn lemma_join_extend_last(lines: Seq<Seq<char>>, c: char)
    requires
        lines.len() >= 1,
    ensures
        join_lines(lines.update(lines.len() - 1, lines.last().push(c))) == join_lines(lines).push(
            c,
        ),
{
    let now = lines.update(lines.len() - 1, lines.last().push(c));
    if lines.len() == 1 {
    } else {
        assert(now.drop_last() == lines.drop_last());
        assert(join_lines(now) == join_lines(lines.drop_last()) + seq!['\n'] + lines.last().push(
            c,
        ));
        assert(join_lines(lines.drop_last()) + seq!['\n'] + lines.last().push(c) == (join_lines(
            lines.drop_last(),
        ) + seq!['\n'] + lines.last()).push(c));
    }
}

/// Appends one character to a string.
///
/// Trusted: calls `String::push`.
#[verifier::external_body]
pub(crate) fn push_char(s: &mut String, c: char)
    ensures
        final(s)@ == old(s)@.push(c),
{
    s.push(c)
}

/// Splits `text` at its line feeds.
pub fn split_text(text: &str) -> (r: Vec<String>)
    ensures
        r.deep_view() == split_lines(text@),
        r.len() >= 1,
{
    let mut done: Vec<String> = Vec::new();
    let mut cur: String = String::new();
    for c in it: text.chars()
        invariant
            it.seq() == text@,
            done.deep_view().push(cur@) == split_lines(text@.take(it.index() as int)),
    {
        proof {
            let k = it.index() as int;
            assert(c == text@[k]);
            assert(text@.take(k + 1).drop_last() == text@.take(k));
            assert(text@.take(k + 1).last() == c);
            let rest = done.deep_view().push(cur@);
            assert(rest.last() == cur@);
            if c == '\n' {
                assert(done.deep_view().push(cur@).push(Seq::<char>::empty()) == split_lines(
                    text@.take(k + 1),
                ));
            } else {
                assert(rest.update(rest.len() - 1, cur@.push(c)) == done.deep_view().push(
                    cur@.push(c),
                ));
            }
        }
        if c == '\n' {
            let ghost before = done.deep_view();
            done.push(cur);
            cur = String::new();
            proof {
                assert(done.deep_view() == before.push(done[done.len() - 1]@));
            }
        } else {
            push_char(&mut cur, c);
        }
    }
    proof {
        assert(text@.take(text@.len() as int) == text@);
        lemma_split_nonempty(text@);
    }
    let ghost before = done.deep_view();
    done.push(cur);
    proof {
        assert(done.deep_view() == before.push(done[done.len() - 1]@));
    }
    done
}

/// Joins `lines` with one line feed between neighbours.
pub fn join_text(lines: &Vec<String>) -> (r: String)
    ensures
        r@ == join_lines(lines.deep_view()),
{
    let mut out: String = String::new();
    let mut i: usize = 0;
    let ghost all = lines.deep_view();
    while i < lines.len()
        invariant
            0 <= i <= lines.len(),
            all == lines.deep_view(),
            out@ == join_lines(all.take(i as int)),
        decreases lines.len() - i,
    {
        proof {
            assert(all.take(i as int + 1).drop_last() == all.take(i as int));
            assert(all.take(i as int + 1).last() == lines[i as int]@);
            reveal_strlit("\n");
            assert("\n"@ == seq!['\n']);
        }
        if i > 0 {
            out.append("\n");
        }
        out.append(lines[i].as_str());
        i = i + 1;
    }
    proof {
        assert(all.take(lines.len() as int) == all);
    }
    out
}

/// `line` without one trailing carriage return; see [`strip_cr`].
pub fn strip_trailing_cr(line: &str) -> (r: String)
    ensures
        r@ == strip_cr(line@),
{
    let n: usize = line.unicode_len();
    if n > 0 && line.get_char(n - 1) == '\r' {
        let cut: &str = line.substring_char(0, n - 1);
        proof {
            assert(line@.subrange(0, n - 1) == line@.drop_last());
        }
        String::from_str(cut)
    } else {
        String::from_str(line)
    }
}

/// Breaks a file's text into lines; see [`file_lines`].
pub fn load_lines(text: &str) -> (r: Vec<String>)
    ensures
        r.deep_view() == file_lines(text@),
        r.len() >= 1,
{
    let pieces: Vec<String> = split_text(text);
    let last: usize = pieces.len() - 1;
    let ghost ended = pieces.deep_view().drop_last().map_values(|l: Seq<char>| strip_cr(l));
    let mut out: Vec<String> = Vec::new();
    let mut i: usize = 0;
    while i < last
        invariant
            0 <= i <= last,
            last == pieces.len() - 1,
            ended == pieces.deep_view().drop_last().map_values(|l: Seq<char>| strip_cr(l)),
            out.deep_view() == ended.take(i as int),
        decreases last - i,
    {
        let ghost before = out.deep_view();
        out.push(strip_trailing_cr(pieces[i].as_str()));
        proof {
            assert(out.deep_view() =~= before.push(out[i as int]@));
            assert(ended[i as int] == strip_cr(pieces[i as int]@));
            assert(ended.take(i as int + 1) =~= ended.take(i as int).push(ended[i as int]));
        }
        i = i + 1;
    }
    proof {
        assert(ended.take(last as int) =~= ended);
        assert(pieces.deep_view().last() == pieces[last as int]@);
    }
    if pieces[last].as_str().unicode_len() > 0 {
        let ghost before = out.deep_view();
        out.push(pieces[last].clone());
        proof {
            assert(out.deep_view() =~= before.push(pieces[last as int]@));
        }
    }
    if out.len() == 0 {
        out.push(String::new());
        proof {
            assert(out.deep_view() =~= seq![Seq::<char>::empty()]);
        }
    }
    out
}

/// Lines that were joined for writing come back unchanged when the text is
/// read as a file, provided that no line holds a line feed, no line but the
/// last ends in a carriage return, and the last line is not empty unless it
/// is the only one.
pub proof fn lemma_load_join(lines: Seq<Seq<char>>)
    requires
        lines.len() >= 1,
        no_line_feed(lines),
        forall|i: int| 0 <= i < lines.len() - 1 ==> strip_cr(#[trigger] lines[i]) == lines[i],
        lines.last().len() > 0 || lines.len() == 1,
    ensures
        file_lines(join_lines(lines)) == lines,
{
    lemma_split_join(lines);
    let ended = lines.drop_last().map_values(|l: Seq<char>| strip_cr(l));
    assert(ended =~= lines.drop_last());
    if lines.last().len() == 0 {
        assert(lines =~= seq![Seq::<char>::empty()]);
    } else {
        assert(ended.push(lines.last()) =~= lines);
    }
}

} // verus!
