//! Small helpers shared by the buffer and the layout: file metadata,
//! grapheme index arithmetic and interval overlap.

use crate::grapheme::{
    cluster_count, count_clusters, graphemes, grapheme_clusters, head_text, lemma_encode_concat,
    lemma_flatten_split, lemma_flatten_step,
};
use vstd::prelude::*;
use vstd::utf8::encode_utf8;

verus! {

/// Line-ending convention of a file.
#[derive(Debug, Clone, Copy, PartialEq, Eq, Structural)]
pub enum FileFormat {
    UNIX,
    DOS,
}

/// What is known about the file behind a buffer.
#[derive(Debug, Clone, Copy, PartialEq, Eq, Structural)]
pub struct FileInfo {
    pub size: u64,
    pub read_only: bool,
    pub format: FileFormat,
}

impl FileInfo {
    /// Metadata of a buffer that has no file yet.
    pub fn new() -> (r: Self)
        ensures
            r == (FileInfo { size: 0, read_only: false, format: FileFormat::UNIX }),
    {
        Self { size: 0, read_only: false, format: FileFormat::UNIX }
    }
}

/// Whether a carriage return directly followed by a line feed occurs in `s`.
pub open spec fn has_crlf(s: Seq<char>) -> bool {
    exists|i: int| 0 <= i && i + 1 < s.len() && s[i] == '\r' && #[trigger] s[i + 1] == '\n'
}

/// Byte offset in the UTF-8 encoding of `s` at which cluster `k` starts;
/// the byte length of `s` when `k` is past the last cluster.
pub open spec fn byte_offset(s: Seq<char>, k: int) -> nat {
    encode_utf8(head_text(s, k)).len()
}

/// Byte offset of the grapheme cluster with index `char_idx`, or the byte
/// length of `s` if there is no such cluster.
pub fn char_to_byte_idx(s: &str, char_idx: usize) -> (r: usize)
    ensures
        r == byte_offset(s@, char_idx as int),
        r <= s@.len() * 4,
{
    let cl: Vec<String> = graphemes(s);
    let n: usize = if char_idx < cl.len() {
        char_idx
    } else {
        cl.len()
    };
    let total: usize = s.as_bytes().len();
    let ghost parts = cl.deep_view();
    let mut acc: usize = 0;
    let mut i: usize = 0;
    proof {
        assert(parts.subrange(0, 0) == Seq::<Seq<char>>::empty());
        assert(encode_utf8(Seq::<char>::empty()) == Seq::<u8>::empty());
    }
    while i < n
        invariant
            0 <= i <= n <= cl.len(),
            parts == cl.deep_view(),
            parts == grapheme_clusters(s@),
            parts.flatten() == s@,
            total == encode_utf8(s@).len(),
            acc == encode_utf8(parts.subrange(0, i as int).flatten()).len(),
        decreases n - i,
    {
        let piece: usize = cl[i].as_str().as_bytes().len();
        proof {
            let before = parts.subrange(0, i as int).flatten();
            let upto = parts.subrange(0, i as int + 1).flatten();
            lemma_flatten_step(parts, 0, i as int);
            assert(upto == before + parts[i as int]);
            lemma_encode_concat(before, parts[i as int]);
            lemma_flatten_split(parts, i as int + 1);
            assert(parts.take(i as int + 1) == parts.subrange(0, i as int + 1));
            lemma_encode_concat(upto, parts.skip(i as int + 1).flatten());
            assert(parts[i as int] == cl[i as int]@);
        }
        acc = acc + piece;
        i = i + 1;
    }
    proof {
        lemma_encode_len_bound(head_text(s@, char_idx as int));
        crate::grapheme::lemma_head_tail(s@, char_idx as int);
    }
    acc
}

/// A UTF-8 encoding takes at most four bytes for each character.
pub proof fn lemma_encode_len_bound(s: Seq<char>)
    ensures
        encode_utf8(s).len() <= 4 * s.len(),
    decreases s.len(),
{
    if s.len() > 0 {
        lemma_encode_len_bound(s.drop_first());
    }
}

/// Length of `line` in grapheme clusters.
pub fn get_line_len(line: &String) -> (r: usize)
    ensures
        r == cluster_count(line@),
        grapheme_clusters(line@).flatten() == line@,
{
    count_clusters(line.as_str())
}

/// Classifies text by its line endings: `DOS` if it holds a CR LF pair,
/// `UNIX` otherwise.
pub fn detect_line_ending(content: &str) -> (r: FileFormat)
    ensures
        r == (if has_crlf(content@) {
            FileFormat::DOS
        } else {
            FileFormat::UNIX
        }),
{
    let mut prev_cr: bool = false;
    let mut found: bool = false;
    for c in it: content.chars()
        invariant
            it.seq() == content@,
            prev_cr <==> (it.index() > 0 && content@[it.index() - 1] == '\r'),
            found <==> exists|i: int|
                0 <= i && i + 1 < it.index() && content@[i] == '\r' && #[trigger] content@[i + 1]
                    == '\n',
    {
        proof {
            let k = it.index() as int;
            assert(c == content@[k]);
            if prev_cr && c == '\n' {
                assert(content@[k - 1] == '\r' && content@[(k - 1) + 1] == '\n');
            }
            if exists|i: int|
                0 <= i && i + 1 < k + 1 && content@[i] == '\r' && #[trigger] content@[i + 1]
                    == '\n' {
                let i = choose|i: int|
                    0 <= i && i + 1 < k + 1 && content@[i] == '\r' && #[trigger] content@[i + 1]
                        == '\n';
                if i + 1 < k {
                    assert(found);
                } else {
                    assert(prev_cr && c == '\n');
                }
            }
        }
        if prev_cr && c == '\n' {
            found = true;
        }
        prev_cr = c == '\r';
    }
    if found {
        FileFormat::DOS
    } else {
        FileFormat::UNIX
    }
}

/// Display name of a line-ending convention.
pub fn get_format_text(f: FileFormat) -> (r: &'static str)
    ensures
        r@ == (match f {
            FileFormat::DOS => "DOS"@,
            FileFormat::UNIX => "UNIX"@,
        }),
{
    match f {
        FileFormat::DOS => "DOS",
        FileFormat::UNIX => "UNIX",
    }
}

/// A copy of a content as the history stores it: the same lines in the
/// same order, sharing nothing with `v`.
pub fn arc_vec_to_string(v: &Vec<String>) -> (r: Vec<String>)
    ensures
        r.deep_view() == v.deep_view(),
        r.len() == v.len(),
{
    let mut out: Vec<String> = Vec::new();
    let mut i: usize = 0;
    while i < v.len()
        invariant
            0 <= i <= v.len(),
            out.len() == i,
            forall|j: int| 0 <= j < i ==> (#[trigger] out[j])@ == v[j]@,
        decreases v.len() - i,
    {
        out.push(v[i].clone());
        i = i + 1;
    }
    assert(out.deep_view() =~= v.deep_view());
    out
}

/// Whether the half-open intervals `a_start..a_end` and `b_start..b_end`
/// share a point.
pub open spec fn spec_overlap(a_start: int, a_end: int, b_start: int, b_end: int) -> bool {
    a_start < b_end && b_start < a_end
}

/// Half-open interval overlap test.
pub fn overlap(a_start: u16, a_end: u16, b_start: u16, b_end: u16) -> (r: bool)
    ensures
        r == spec_overlap(a_start as int, a_end as int, b_start as int, b_end as int),
{
    a_start < b_end && b_start < a_end
}

} // verus!
