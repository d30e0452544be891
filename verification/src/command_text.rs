//! Reading a typed command: trimming the input and telling the commands
//! apart.

use vstd::prelude::*;
use vstd::string::{StrSliceExecFns, StringExecFns};

verus! {

/// Whether `c` is white space: a character with the Unicode property
/// White_Space. These are the tab, the line feed and the other controls
/// from U+0009 to U+000D, the space, the next-line control U+0085, the
/// no-break space, the Ogham space mark, the spaces of fixed width from
/// U+2000 to U+200A, the line and the paragraph separator, the narrow
/// no-break space, the medium mathematical space and the ideographic
/// space.
pub open spec fn white_space(c: char) -> bool {
    let u = c as u32;
    ||| 0x0009 <= u <= 0x000D
    ||| u == 0x0020
    ||| u == 0x0085
    ||| u == 0x00A0
    ||| u == 0x1680
    ||| 0x2000 <= u <= 0x200A
    ||| u == 0x2028
    ||| u == 0x2029
    ||| u == 0x202F
    ||| u == 0x205F
    ||| u == 0x3000
}

/// Tests for white space.
pub fn is_space(c: char) -> (r: bool)
    ensures
        r == white_space(c),
{
    let u: u32 = c as u32;
    (0x0009 <= u && u <= 0x000D) || u == 0x0020 || u == 0x0085 || u == 0x00A0 || u == 0x1680 || (
    0x2000 <= u && u <= 0x200A) || u == 0x2028 || u == 0x2029 || u == 0x202F || u == 0x205F || u
        == 0x3000
}

/// Number of white-space characters at the start of `s`.
pub open spec fn leading_spaces(s: Seq<char>) -> nat
    decreases s.len(),
{
    if s.len() > 0 && white_space(s[0]) {
        1 + leading_spaces(s.drop_first())
    } else {
        0
    }
}

/// Number of white-space characters at the end of `s`.
pub open spec fn trailing_spaces(s: Seq<char>) -> nat
    decreases s.len(),
{
    if s.len() > 0 && white_space(s.last()) {
        1 + trailing_spaces(s.drop_last())
    } else {
        0
    }
}

/// `s` without the white space at its start and at its end.
pub open spec fn trim(s: Seq<char>) -> Seq<char> {
    let rest = s.skip(leading_spaces(s) as int);
    rest.take(rest.len() - trailing_spaces(rest))
}

/// The leading white space is exactly the characters before the first one
/// that is no white space.
pub proof fn lemma_leading_spaces(s: Seq<char>, k: int)
    requires
        0 <= k <= s.len(),
        forall|i: int| 0 <= i < k ==> white_space(#[trigger] s[i]),
        k == s.len() || !white_space(s[k]),
    ensures
        leading_spaces(s) == k,
    decreases k,
{
    if k > 0 {
        let t = s.drop_first();
        assert forall|i: int| 0 <= i < k - 1 implies white_space(#[trigger] t[i]) by {
            assert(t[i] == s[i + 1]);
        }
        lemma_leading_spaces(t, k - 1);
    }
}

/// The trailing white space is exactly the characters after the last one
/// that is no white space.
pub proof fn lemma_trailing_spaces(s: Seq<char>, k: int)
    requires
        0 <= k <= s.len(),
        forall|i: int| s.len() - k <= i < s.len() ==> white_space(#[trigger] s[i]),
        k == s.len() || !white_space(s[s.len() - k - 1]),
    ensures
        trailing_spaces(s) == k,
    decreases k,
{
    if k > 0 {
        let t = s.drop_last();
        assert forall|i: int| t.len() - (k - 1) <= i < t.len() implies white_space(
            #[trigger] t[i],
        ) by {
            assert(t[i] == s[i]);
        }
        lemma_trailing_spaces(t, k - 1);
    }
}

/// Cuts the white space off both ends of `text`.
pub fn trim_text(text: &str) -> (r: String)
    ensures
        r@ == trim(text@),
{
    let n: usize = text.unicode_len();
    let mut start: usize = n;
    let mut end: usize = 0;
    let mut i: usize = 0;
    for c in it: text.chars()
        invariant
            it.seq() == text@,
            n == text@.len(),
            i == it.index(),
            start <= n,
            end <= i,
            start == n ==> end == 0 && forall|j: int| 0 <= j < i ==> white_space(
                #[trigger] text@[j],
            ),
            start < n ==> start < end && !white_space(text@[start as int]) && !white_space(
                text@[end - 1],
            ) && (forall|j: int| 0 <= j < start ==> white_space(#[trigger] text@[j])) && (forall|
                j: int,
            |
                end <= j < i ==> white_space(#[trigger] text@[j])),
    {
        proof {
            assert(c == text@[i as int]);
        }
        if !is_space(c) {
            if start == n {
                start = i;
            }
            end = i + 1;
        }
        i = i + 1;
    }
    if start == n {
        proof {
            lemma_leading_spaces(text@, n as int);
            let rest = text@.skip(n as int);
            assert(rest.len() == 0);
            assert(trim(text@) =~= Seq::<char>::empty());
        }
        String::new()
    } else {
        proof {
            lemma_leading_spaces(text@, start as int);
            let rest = text@.skip(start as int);
            assert forall|j: int| rest.len() - (n - end) <= j < rest.len() implies white_space(
                #[trigger] rest[j],
            ) by {
                assert(rest[j] == text@[j + start]);
            }
            assert(rest[rest.len() - (n - end) - 1] == text@[end - 1]);
            lemma_trailing_spaces(rest, n - end);
            assert(trim(text@) =~= text@.subrange(start as int, end as int));
        }
        String::from_str(text.substring_char(start, end))
    }
}

/// Whether two texts are the same.
pub fn str_eq(a: &str, b: &str) -> (r: bool)
    ensures
        r == (a@ == b@),
{
    String::from_str(a) == String::from_str(b)
}

/// A command of the command bar.
#[derive(Debug, Clone, Copy, PartialEq, Eq, Structural)]
pub enum Command {
    /// Nothing was typed.
    Empty,
    Revoke,
    Redo,
    Head,
    Tail,
    Save,
    /// Give the focused buffer its stand-in name.
    ChangeName,
    NewBuffer,
    SplitVertical,
    SplitHorizontal,
    Close,
    RightPane,
    LeftPane,
    UpPane,
    DownPane,
    /// Give the focus to the first pane.
    ChangePane,
    /// Something that is no command.
    Unknown,
}

/// The command that the trimmed text `t` spells.
pub open spec fn spec_parse(t: Seq<char>) -> Command {
    if t.len() == 0 {
        Command::Empty
    } else if t == "revoke"@ {
        Command::Revoke
    } else if t == "redo"@ {
        Command::Redo
    } else if t == "head"@ {
        Command::Head
    } else if t == "tail"@ {
        Command::Tail
    } else if t == "save"@ {
        Command::Save
    } else if t == "change name"@ {
        Command::ChangeName
    } else if t == "new buffer"@ {
        Command::NewBuffer
    } else if t == "sv"@ {
        Command::SplitVertical
    } else if t == "sh"@ {
        Command::SplitHorizontal
    } else if t == "close"@ {
        Command::Close
    } else if t == "right pane"@ {
        Command::RightPane
    } else if t == "left pane"@ {
        Command::LeftPane
    } else if t == "up pane"@ {
        Command::UpPane
    } else if t == "down pane"@ {
        Command::DownPane
    } else if t == "change pane"@ {
        Command::ChangePane
    } else {
        Command::Unknown
    }
}

/// Reads a command: white space around it does not count, and the rest
/// must spell the command exactly.
pub fn parse_command(text: &str) -> (r: Command)
    ensures
        r == spec_parse(trim(text@)),
{
    let trimmed: String = trim_text(text);
    let t: &str = trimmed.as_str();
    if t.unicode_len() == 0 {
        Command::Empty
    } else if str_eq(t, "revoke") {
        Command::Revoke
    } else if str_eq(t, "redo") {
        Command::Redo
    } else if str_eq(t, "head") {
        Command::Head
    } else if str_eq(t, "tail") {
        Command::Tail
    } else if str_eq(t, "save") {
        Command::Save
    } else if str_eq(t, "change name") {
        Command::ChangeName
    } else if str_eq(t, "new buffer") {
        Command::NewBuffer
    } else if str_eq(t, "sv") {
        Command::SplitVertical
    } else if str_eq(t, "sh") {
        Command::SplitHorizontal
    } else if str_eq(t, "close") {
        Command::Close
    } else if str_eq(t, "right pane") {
        Command::RightPane
    } else if str_eq(t, "left pane") {
        Command::LeftPane
    } else if str_eq(t, "up pane") {
        Command::UpPane
    } else if str_eq(t, "down pane") {
        Command::DownPane
    } else if str_eq(t, "change pane") {
        Command::ChangePane
    } else {
        Command::Unknown
    }
}

} // verus!
