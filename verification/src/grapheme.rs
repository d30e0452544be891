//! Grapheme clusters and display widths.
//!
//! Segmentation and width tables come from `unicode-segmentation` and
//! `unicode-width`. Their results are named here, and everything else in the
//! crate is stated over those names.

use unicode_segmentation::UnicodeSegmentation;
use unicode_width::UnicodeWidthStr;
use vstd::prelude::*;
use vstd::string::StringExecFns;
use vstd::utf8::encode_utf8;

verus! {

/// The extended grapheme clusters of `s`, in order, as
/// `UnicodeSegmentation::graphemes(s, true)` yields them.
pub uninterp spec fn grapheme_clusters(s: Seq<char>) -> Seq<Seq<char>>;

/// The number of terminal columns that `s` occupies, as
/// `UnicodeWidthStr::width` computes it.
pub uninterp spec fn display_width(s: Seq<char>) -> nat;

/// Splits `s` into its extended grapheme clusters.
///
/// Trusted: calls `UnicodeSegmentation::graphemes(s, true)` and copies each
/// cluster. The iterator hands out consecutive slices of `s` that start at
/// offset 0 and end at `s.len()`, so the clusters joined together give `s`
/// back.
#[verifier::external_body]
pub(crate) fn graphemes(s: &str) -> (r: Vec<String>)
    ensures
        r.deep_view() == grapheme_clusters(s@),
        r.deep_view().flatten() == s@,
{
    s.graphemes(true).map(|g| g.to_string()).collect()
}

/// The display width of `s` in terminal columns.
///
/// Trusted: calls `UnicodeWidthStr::width`.
#[verifier::external_body]
pub(crate) fn str_width(s: &str) -> (w: usize)
    ensures
        w == display_width(s@),
{
    UnicodeWidthStr::width(s)
}

/// Clamps a cluster index into `0..=n`.
pub open spec fn clamp_index(k: int, n: int) -> int {
    if k < 0 {
        0
    } else if k > n {
        n
    } else {
        k
    }
}

/// Number of grapheme clusters in `s`.
pub open spec fn cluster_count(s: Seq<char>) -> nat {
    grapheme_clusters(s).len()
}

/// The text of the clusters `from..to` of `s`; indices past the end stand
/// for the end.
pub open spec fn span_text(s: Seq<char>, from: int, to: int) -> Seq<char> {
    let cl = grapheme_clusters(s);
    let a = clamp_index(from, cl.len() as int);
    let b = clamp_index(to, cl.len() as int);
    if a <= b {
        cl.subrange(a, b).flatten()
    } else {
        Seq::empty()
    }
}

/// The text before cluster `k` of `s`.
pub open spec fn head_text(s: Seq<char>, k: int) -> Seq<char> {
    span_text(s, 0, k)
}

/// The text from cluster `k` of `s` to its end.
pub open spec fn tail_text(s: Seq<char>, k: int) -> Seq<char> {
    span_text(s, k, cluster_count(s) as int)
}

/// Sum of the display widths of the first `k` clusters of `cl`.
pub open spec fn width_sum(cl: Seq<Seq<char>>, k: int) -> nat
    decreases k,
{
    if k <= 0 || cl.len() == 0 {
        0
    } else if k > cl.len() {
        width_sum(cl, cl.len() as int)
    } else {
        width_sum(cl, k - 1) + display_width(cl[k - 1])
    }
}

/// Display column at which cluster `k` of `s` starts.
pub open spec fn visual_width(s: Seq<char>, k: int) -> nat {
    width_sum(grapheme_clusters(s), k)
}

/// The width before a cluster never exceeds the width before a later one.
pub proof fn lemma_width_sum_monotonic(cl: Seq<Seq<char>>, i: int, j: int)
    requires
        i <= j,
    ensures
        width_sum(cl, i) <= width_sum(cl, j),
    decreases j,
{
    if j <= 0 || cl.len() == 0 {
    } else if j > cl.len() {
        if i > cl.len() {
        } else {
            lemma_width_sum_monotonic(cl, i, cl.len() as int);
        }
    } else if i < j {
        lemma_width_sum_monotonic(cl, i, j - 1);
    }
}

/// Joining two runs of pieces joins their texts.
pub proof fn lemma_flatten_split<A>(s: Seq<Seq<A>>, k: int)
    requires
        0 <= k <= s.len(),
    ensures
        s.take(k).flatten() + s.skip(k).flatten() == s.flatten(),
{
    vstd::seq_lib::lemma_flatten_concat(s.take(k), s.skip(k));
    assert(s.take(k) + s.skip(k) == s);
}

/// Extending a run of pieces by the next piece appends that piece's text.
pub proof fn lemma_flatten_step<A>(s: Seq<Seq<A>>, a: int, b: int)
    requires
        0 <= a <= b < s.len(),
    ensures
        s.subrange(a, b + 1).flatten() == s.subrange(a, b).flatten() + s[b],
{
    let x = s.subrange(a, b);
    assert(s.subrange(a, b + 1) == x.push(s[b]));
    x.lemma_flatten_push(s[b]);
}

/// On a line whose clusters join to the line itself, the text before
/// cluster `k` and the text from cluster `k` on make up the line.
pub proof fn lemma_head_tail(s: Seq<char>, k: int)
    requires
        grapheme_clusters(s).flatten() == s,
    ensures
        head_text(s, k) + tail_text(s, k) == s,
{
    let cl = grapheme_clusters(s);
    let a = clamp_index(k, cl.len() as int);
    lemma_flatten_split(cl, a);
    assert(cl.subrange(0, a) == cl.take(a));
    assert(cl.subrange(a, cl.len() as int) == cl.skip(a));
}

/// UTF-8 encoding distributes over concatenation.
pub proof fn lemma_encode_concat(a: Seq<char>, b: Seq<char>)
    ensures
        encode_utf8(a + b) == encode_utf8(a) + encode_utf8(b),
    decreases a.len(),
{
    if a.len() == 0 {
        assert(a + b == b);
        assert(encode_utf8(a) == Seq::<u8>::empty());
        assert(encode_utf8(a) + encode_utf8(b) == encode_utf8(b));
    } else {
        lemma_encode_concat(a.drop_first(), b);
        assert((a + b).drop_first() == a.drop_first() + b);
        assert((a + b)[0] == a[0]);
    }
}

/// `line` with `text` put in before cluster `x`, or at the end when `x` is
/// past the last cluster.
pub open spec fn insert_text(line: Seq<char>, x: int, text: Seq<char>) -> Seq<char> {
    head_text(line, x) + text + tail_text(line, x)
}

/// `line` without its clusters `x..x + n`.
pub open spec fn remove_span(line: Seq<char>, x: int, n: int) -> Seq<char> {
    head_text(line, x) + tail_text(line, x + n)
}

/// On a line whose clusters join to the line itself, the text before
/// cluster `a`, the text of clusters `a..b` and the text from cluster `b` on
/// make up the line.
pub proof fn lemma_head_span_tail(s: Seq<char>, a: int, b: int)
    requires
        grapheme_clusters(s).flatten() == s,
        0 <= a <= b,
    ensures
        head_text(s, a) + span_text(s, a, b) + tail_text(s, b) == s,
        head_text(s, a) + span_text(s, a, b) == head_text(s, b),
{
    let cl = grapheme_clusters(s);
    let n = cl.len() as int;
    let ca = clamp_index(a, n);
    let cb = clamp_index(b, n);
    lemma_head_tail(s, b);
    let front = cl.subrange(0, cb);
    lemma_flatten_split(front, ca);
    assert(front.take(ca) == cl.subrange(0, ca));
    assert(front.skip(ca) == cl.subrange(ca, cb));
}

/// Joins the texts of `pieces[from..to]` into one string.
pub(crate) fn concat_range(pieces: &Vec<String>, from: usize, to: usize) -> (r: String)
    requires
        from <= to <= pieces.len(),
    ensures
        r@ == pieces.deep_view().subrange(from as int, to as int).flatten(),
{
    let mut out: String = String::new();
    let mut i: usize = from;
    proof {
        assert(pieces.deep_view().subrange(from as int, from as int) == Seq::<Seq<char>>::empty());
    }
    while i < to
        invariant
            from <= i <= to <= pieces.len(),
            out@ == pieces.deep_view().subrange(from as int, i as int).flatten(),
        decreases to - i,
    {
        proof {
            lemma_flatten_step(pieces.deep_view(), from as int, i as int);
        }
        out.append(pieces[i].as_str());
        i = i + 1;
    }
    out
}

/// Puts `text` into `line` before cluster `x`, or at the end when `x` is
/// past the last cluster. The text lands on a cluster boundary of `line`:
/// what stands before it and after it are whole clusters, and together they
/// are `line`.
pub fn line_insert(line: &str, x: usize, text: &str) -> (r: String)
    ensures
        r@ == insert_text(line@, x as int, text@),
        head_text(line@, x as int) + tail_text(line@, x as int) == line@,
{
    let cl: Vec<String> = graphemes(line);
    let k: usize = if x < cl.len() {
        x
    } else {
        cl.len()
    };
    let mut out: String = concat_range(&cl, 0, k);
    out.append(text);
    let rest: String = concat_range(&cl, k, cl.len());
    out.append(rest.as_str());
    proof {
        lemma_head_tail(line@, x as int);
    }
    out
}

/// Takes the clusters `x..x + n` out of `line`. Gives the rest of the line
/// and the removed text, or `None` if the line has fewer than `x + n`
/// clusters. Only whole clusters leave.
pub fn line_remove(line: &str, x: usize, n: usize) -> (r: Option<(String, String)>)
    ensures
        match r {
            Some((rest, removed)) => {
                &&& x + n <= cluster_count(line@)
                &&& rest@ == remove_span(line@, x as int, n as int)
                &&& removed@ == span_text(line@, x as int, x + n)
                &&& head_text(line@, x as int) + removed@ + tail_text(line@, x + n) == line@
            },
            None => x + n > cluster_count(line@),
        },
{
    let cl: Vec<String> = graphemes(line);
    if x > cl.len() || n > cl.len() - x {
        return None;
    }
    let mut rest: String = concat_range(&cl, 0, x);
    let removed: String = concat_range(&cl, x, x + n);
    let tail: String = concat_range(&cl, x + n, cl.len());
    rest.append(tail.as_str());
    proof {
        lemma_head_span_tail(line@, x as int, x + n);
    }
    Some((rest, removed))
}

/// `line` with its clusters `x..x + n` replaced by `text`.
pub open spec fn replace_span(line: Seq<char>, x: int, n: int, text: Seq<char>) -> Seq<char> {
    head_text(line, x) + text + tail_text(line, x + n)
}

/// Puts `text` in the place of the clusters `x..x + n` of `line`. Gives
/// `None` if the line has fewer than `x + n` clusters.
pub fn line_replace(line: &str, x: usize, n: usize, text: &str) -> (r: Option<String>)
    ensures
        match r {
            Some(out) => x + n <= cluster_count(line@) && out@ == replace_span(
                line@,
                x as int,
                n as int,
                text@,
            ),
            None => x + n > cluster_count(line@),
        },
{
    let cl: Vec<String> = graphemes(line);
    if x > cl.len() || n > cl.len() - x {
        return None;
    }
    let mut out: String = concat_range(&cl, 0, x);
    out.append(text);
    let tail: String = concat_range(&cl, x + n, cl.len());
    out.append(tail.as_str());
    Some(out)
}

/// Cuts `line` before cluster `x`: the text before the cut and the text
/// after it.
pub fn line_split(line: &str, x: usize) -> (r: (String, String))
    ensures
        r.0@ == head_text(line@, x as int),
        r.1@ == tail_text(line@, x as int),
        r.0@ + r.1@ == line@,
        grapheme_clusters(line@).flatten() == line@,
{
    let cl: Vec<String> = graphemes(line);
    let k: usize = if x < cl.len() {
        x
    } else {
        cl.len()
    };
    let head: String = concat_range(&cl, 0, k);
    let tail: String = concat_range(&cl, k, cl.len());
    proof {
        lemma_head_tail(line@, x as int);
    }
    (head, tail)
}

/// Number of grapheme clusters in `s`. The clusters joined together are
/// `s`.
pub fn count_clusters(s: &str) -> (r: usize)
    ensures
        r == cluster_count(s@),
        grapheme_clusters(s@).flatten() == s@,
{
    let cl: Vec<String> = graphemes(s);
    cl.len()
}

/// The display column of a cluster never lies before that of an earlier
/// cluster of the same line.
pub proof fn lemma_visual_width_monotonic(s: Seq<char>, i: int, j: int)
    requires
        i <= j,
    ensures
        visual_width(s, i) <= visual_width(s, j),
{
    lemma_width_sum_monotonic(grapheme_clusters(s), i, j);
}

/// The first cluster starts at display column 0, and every index from the
/// number of clusters on stands for the display width of all clusters
/// together.
pub proof fn lemma_visual_width_ends(s: Seq<char>, k: int)
    ensures
        visual_width(s, 0) == 0,
        k >= cluster_count(s) ==> visual_width(s, k) == visual_width(s, cluster_count(s) as int),
{
}

/// Display column at which cluster `k` of `line` starts: the summed widths
/// of the clusters before it, or of all clusters when `k` is past the end.
/// `None` if that sum does not fit a `usize`.
pub fn checked_width_upto(line: &str, k: usize) -> (r: Option<usize>)
    ensures
        match r {
            Some(w) => w == visual_width(line@, k as int),
            None => visual_width(line@, k as int) > usize::MAX,
        },
{
    let cl: Vec<String> = graphemes(line);
    let n: usize = if k < cl.len() {
        k
    } else {
        cl.len()
    };
    let ghost parts = cl.deep_view();
    let mut acc: usize = 0;
    let mut i: usize = 0;
    while i < n
        invariant
            0 <= i <= n <= cl.len(),
            n == clamp_index(k as int, cl.len() as int),
            parts == cl.deep_view(),
            parts == grapheme_clusters(line@),
            acc == width_sum(parts, i as int),
        decreases n - i,
    {
        let w: usize = str_width(cl[i].as_str());
        proof {
            assert(parts[i as int] == cl[i as int]@);
        }
        match acc.checked_add(w) {
            Some(sum) => {
                acc = sum;
            },
            None => {
                proof {
                    lemma_width_sum_monotonic(parts, i as int + 1, k as int);
                }
                return None;
            },
        }
        i = i + 1;
    }
    proof {
        if k > cl.len() {
            if cl.len() > 0 {
                assert(width_sum(parts, k as int) == width_sum(parts, cl.len() as int));
            }
        }
    }
    Some(acc)
}

/// Display column at which cluster `k` of `line` starts, for a line whose
/// column fits a `usize`.
pub fn width_upto(line: &str, k: usize) -> (r: usize)
    requires
        visual_width(line@, k as int) <= usize::MAX,
    ensures
        r == visual_width(line@, k as int),
{
    match checked_width_upto(line, k) {
        Some(w) => w,
        None => vstd::pervasive::unreached(),
    }
}

} // verus!
