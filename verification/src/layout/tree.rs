//! The layout tree. A leaf is a pane showing one buffer; an inner node
//! divides its area between two subtrees.

use vstd::prelude::*;

verus! {

/// How a split divides its area.
#[derive(Debug, Copy, Clone, PartialEq, Eq, Structural)]
pub enum SplitDirection {
    /// One subtree above the other.
    Horizontal,
    /// The subtrees side by side.
    Vertical,
}

/// A node of the layout tree.
#[derive(Debug)]
pub enum LayoutNode {
    /// A viewport onto the buffer `buffer_id`, with its own cursor and
    /// scroll state.
    Pane {
        id: usize,
        buffer_id: usize,
        cursor_pos: (usize, usize),
        scroll_offset: (usize, usize),
        scroll_thres: (usize, usize),
    },
    /// Two subtrees sharing an area. `ratio` is the share of `first` in
    /// percent, more than 0 and less than 100.
    Split { direc: SplitDirection, ratio: u16, first: Box<LayoutNode>, second: Box<LayoutNode> },
}

/// Share in percent that a new split gives to its first subtree.
pub const HALF: u16 = 50;

impl LayoutNode {
    /// The ids of the panes, leftmost first.
    pub open spec fn pane_ids(self) -> Seq<usize>
        decreases self,
    {
        match self {
            LayoutNode::Pane { id, .. } => seq![id],
            LayoutNode::Split { first, second, .. } => first.pane_ids() + second.pane_ids(),
        }
    }

    /// Whether every split's ratio lies strictly between 0 and 100.
    pub open spec fn ratios_ok(self) -> bool
        decreases self,
    {
        match self {
            LayoutNode::Pane { .. } => true,
            LayoutNode::Split { ratio, first, second, .. } => 0 < ratio < 100 && first.ratios_ok()
                && second.ratios_ok(),
        }
    }

    /// The tree's invariant: no pane id occurs twice, and every ratio is a
    /// proper share.
    pub open spec fn wf(self) -> bool {
        self.pane_ids().no_duplicates() && self.ratios_ok()
    }

    /// Whether a pane with this id is in the tree.
    pub open spec fn contains(self, id: usize) -> bool {
        self.pane_ids().contains(id)
    }

    /// The leftmost pane with this id, if there is one.
    pub open spec fn find(self, id: usize) -> Option<LayoutNode>
        decreases self,
    {
        match self {
            LayoutNode::Pane { id: own, .. } => if own == id {
                Some(self)
            } else {
                None
            },
            LayoutNode::Split { first, second, .. } => match first.find(id) {
                Some(p) => Some(p),
                None => second.find(id),
            },
        }
    }

    /// The id of the leftmost pane.
    pub open spec fn first_id(self) -> usize
        decreases self,
    {
        match self {
            LayoutNode::Pane { id, .. } => id,
            LayoutNode::Split { first, .. } => first.first_id(),
        }
    }

    /// A fresh pane: cursor at the origin, nothing scrolled.
    pub open spec fn spec_new_pane(id: usize, buffer_id: usize) -> LayoutNode {
        LayoutNode::Pane {
            id,
            buffer_id,
            cursor_pos: (0, 0),
            scroll_offset: (0, 0),
            scroll_thres: (0, 0),
        }
    }

    /// The tree with the leftmost pane `target` replaced by a split whose
    /// first child is that pane, unchanged, and whose second child is a
    /// fresh pane `new_id` on buffer `new_buf`, or on the pane's own buffer
    /// where none is given. A tree without such a pane is left as it is.
    pub open spec fn spec_split(
        self,
        target: usize,
        new_id: usize,
        new_buf: Option<usize>,
        direc: SplitDirection,
    ) -> LayoutNode
        decreases self,
    {
        match self {
            LayoutNode::Pane { id, buffer_id, .. } => if id == target {
                LayoutNode::Split {
                    direc,
                    ratio: HALF,
                    first: Box::new(self),
                    second: Box::new(
                        Self::spec_new_pane(
                            new_id,
                            match new_buf {
                                Some(b) => b,
                                None => buffer_id,
                            },
                        ),
                    ),
                }
            } else {
                self
            },
            LayoutNode::Split { direc: d, ratio, first, second } => if first.contains(target) {
                LayoutNode::Split {
                    direc: d,
                    ratio,
                    first: Box::new(first.spec_split(target, new_id, new_buf, direc)),
                    second,
                }
            } else {
                LayoutNode::Split {
                    direc: d,
                    ratio,
                    first,
                    second: Box::new(second.spec_split(target, new_id, new_buf, direc)),
                }
            },
        }
    }

    /// The tree without the panes `target`. A split that loses one child
    /// is replaced by the other child; `None` if nothing is left.
    pub open spec fn spec_remove(self, target: usize) -> Option<LayoutNode>
        decreases self,
    {
        match self {
            LayoutNode::Pane { id, .. } => if id == target {
                None
            } else {
                Some(self)
            },
            LayoutNode::Split { direc, ratio, first, second } => match (
                first.spec_remove(target),
                second.spec_remove(target),
            ) {
                (None, None) => None,
                (Some(f), None) => Some(f),
                (None, Some(s)) => Some(s),
                (Some(f), Some(s)) => Some(
                    LayoutNode::Split { direc, ratio, first: Box::new(f), second: Box::new(s) },
                ),
            },
        }
    }

    /// The tree with the leftmost pane `id` replaced by `node`.
    pub open spec fn spec_replace(self, id: usize, node: LayoutNode) -> LayoutNode
        decreases self,
    {
        match self {
            LayoutNode::Pane { id: own, .. } => if own == id {
                node
            } else {
                self
            },
            LayoutNode::Split { direc, ratio, first, second } => if first.contains(id) {
                LayoutNode::Split {
                    direc,
                    ratio,
                    first: Box::new(first.spec_replace(id, node)),
                    second,
                }
            } else {
                LayoutNode::Split {
                    direc,
                    ratio,
                    first,
                    second: Box::new(second.spec_replace(id, node)),
                }
            },
        }
    }

    /// This pane with its cursor at `pos`.
    pub open spec fn with_cursor(self, pos: (usize, usize)) -> LayoutNode
        recommends
            self is Pane,
    {
        LayoutNode::Pane {
            id: self->id,
            buffer_id: self->buffer_id,
            cursor_pos: pos,
            scroll_offset: self->scroll_offset,
            scroll_thres: self->scroll_thres,
        }
    }

    /// This pane showing buffer `buffer_id`.
    pub open spec fn with_buffer(self, buffer_id: usize) -> LayoutNode
        recommends
            self is Pane,
    {
        LayoutNode::Pane {
            id: self->id,
            buffer_id,
            cursor_pos: self->cursor_pos,
            scroll_offset: self->scroll_offset,
            scroll_thres: self->scroll_thres,
        }
    }

    /// This pane with its cursor at `pos` and scrolled to `offset`.
    pub open spec fn with_view(self, pos: (usize, usize), offset: (usize, usize)) -> LayoutNode
        recommends
            self is Pane,
    {
        LayoutNode::Pane {
            id: self->id,
            buffer_id: self->buffer_id,
            cursor_pos: pos,
            scroll_offset: offset,
            scroll_thres: self->scroll_thres,
        }
    }

    /// A leaf with zeroed cursor and scroll state.
    pub fn new_pane(id: usize, buffer_id: usize) -> (r: Self)
        ensures
            r == Self::spec_new_pane(id, buffer_id),
            r.wf(),
            r.pane_ids() == seq![id],
    {
        LayoutNode::Pane {
            id,
            buffer_id,
            cursor_pos: (0, 0),
            scroll_offset: (0, 0),
            scroll_thres: (0, 0),
        }
    }
}

impl Clone for LayoutNode {
    fn clone(&self) -> (r: Self)
        ensures
            r == *self,
        decreases *self,
    {
        match self {
            LayoutNode::Pane { id, buffer_id, cursor_pos, scroll_offset, scroll_thres } => {
                LayoutNode::Pane {
                    id: *id,
                    buffer_id: *buffer_id,
                    cursor_pos: *cursor_pos,
                    scroll_offset: *scroll_offset,
                    scroll_thres: *scroll_thres,
                }
            },
            LayoutNode::Split { direc, ratio, first, second } => {
                let f: LayoutNode = (**first).clone();
                let s: LayoutNode = (**second).clone();
                LayoutNode::Split {
                    direc: *direc,
                    ratio: *ratio,
                    first: Box::new(f),
                    second: Box::new(s),
                }
            },
        }
    }
}

/// A tree has at least one pane, and its first id is the first of its ids.
pub proof fn lemma_ids_nonempty(t: LayoutNode)
    ensures
        t.pane_ids().len() >= 1,
        t.pane_ids()[0] == t.first_id(),
        t.contains(t.first_id()),
    decreases t,
{
    match t {
        LayoutNode::Pane { .. } => {},
        LayoutNode::Split { first, second, .. } => {
            lemma_ids_nonempty(*first);
            lemma_ids_nonempty(*second);
        },
    }
    assert(t.pane_ids()[0] == t.first_id());
}

/// What `find` gives is a pane with the id asked for, and it gives one
/// exactly when the tree has such a pane.
pub proof fn lemma_find(t: LayoutNode, id: usize)
    ensures
        t.find(id) is Some <==> t.contains(id),
        t.find(id) matches Some(p) ==> p is Pane && p->id == id,
    decreases t,
{
    match t {
        LayoutNode::Pane { id: own, .. } => {
            if own == id {
                assert(t.pane_ids()[0] == id);
            }
        },
        LayoutNode::Split { first, second, .. } => {
            lemma_find(*first, id);
            lemma_find(*second, id);
            lemma_contains_concat(first.pane_ids(), second.pane_ids(), id);
        },
    }
}

/// An element is in a concatenation exactly when it is in one of the parts.
pub proof fn lemma_contains_concat(a: Seq<usize>, b: Seq<usize>, x: usize)
    ensures
        (a + b).contains(x) <==> a.contains(x) || b.contains(x),
{
    if a.contains(x) {
        let i = a.index_of(x);
        assert((a + b)[i] == x);
    }
    if b.contains(x) {
        let i = b.index_of(x);
        assert((a + b)[a.len() + i] == x);
    }
    if (a + b).contains(x) {
        let i = (a + b).index_of(x);
        if i < a.len() {
            assert(a[i] == x);
        } else {
            assert(b[i - a.len()] == x);
        }
    }
}

/// In a sequence without duplicates an element is found where it stands.
pub proof fn lemma_index_unique(s: Seq<usize>, i: int)
    requires
        s.no_duplicates(),
        0 <= i < s.len(),
    ensures
        s.index_of(s[i]) == i,
        s.contains(s[i]),
{
    let k = s.index_of(s[i]);
    assert(s[k] == s[i]);
}

/// The parts of a concatenation without duplicates have none either, and
/// share no element.
pub proof fn lemma_no_duplicates_parts(a: Seq<usize>, b: Seq<usize>)
    requires
        (a + b).no_duplicates(),
    ensures
        a.no_duplicates(),
        b.no_duplicates(),
        forall|x: usize| !(a.contains(x) && b.contains(x)),
{
    let s = a + b;
    assert forall|i: int, k: int| 0 <= i < a.len() && 0 <= k < a.len() && i != k implies a[i]
        != a[k] by {
        assert(s[i] != s[k]);
    }
    assert forall|i: int, k: int| 0 <= i < b.len() && 0 <= k < b.len() && i != k implies b[i]
        != b[k] by {
        assert(s[a.len() + i] != s[a.len() + k]);
    }
    assert forall|x: usize| !(a.contains(x) && b.contains(x)) by {
        if a.contains(x) && b.contains(x) {
            let i = a.index_of(x);
            let k = b.index_of(x);
            assert(s[i] != s[a.len() + k]);
        }
    }
}

/// Splitting a tree that has no pane `target` changes nothing.
pub proof fn lemma_split_absent(
    t: LayoutNode,
    target: usize,
    new_id: usize,
    new_buf: Option<usize>,
    direc: SplitDirection,
)
    requires
        !t.contains(target),
    ensures
        t.spec_split(target, new_id, new_buf, direc) == t,
    decreases t,
{
    match t {
        LayoutNode::Pane { id, .. } => {
            assert(t.pane_ids()[0] == id);
        },
        LayoutNode::Split { first, second, .. } => {
            lemma_contains_concat(first.pane_ids(), second.pane_ids(), target);
            lemma_split_absent(*second, target, new_id, new_buf, direc);
        },
    }
}

/// Putting an element that a duplicate-free sequence does not hold into
/// it leaves it duplicate-free, and it then holds that element and all it
/// held before.
pub proof fn lemma_insert_fresh(s: Seq<usize>, at: int, x: usize)
    requires
        s.no_duplicates(),
        !s.contains(x),
        0 <= at <= s.len(),
    ensures
        s.insert(at, x).no_duplicates(),
        s.insert(at, x).contains(x),
        forall|y: usize| s.contains(y) ==> #[trigger] s.insert(at, x).contains(y),
        forall|y: usize| #[trigger] s.insert(at, x).contains(y) ==> y == x || s.contains(y),
{
    let out = s.insert(at, x);
    assert(out[at] == x);
    assert forall|i: int, k: int| 0 <= i < out.len() && 0 <= k < out.len() && i != k implies out[i]
        != out[k] by {
        let i0 = if i < at { i } else { i - 1 };
        let k0 = if k < at { k } else { k - 1 };
        if i == at {
            assert(s[k0] == out[k]);
        } else if k == at {
            assert(s[i0] == out[i]);
        } else {
            assert(s[i0] != s[k0]);
        }
    }
    assert forall|y: usize| s.contains(y) implies #[trigger] out.contains(y) by {
        let i = s.index_of(y);
        let i1 = if i < at { i } else { i + 1 };
        assert(out[i1] == y);
    }
    assert forall|y: usize| #[trigger] out.contains(y) implies y == x || s.contains(y) by {
        let i = out.index_of(y);
        if i != at {
            let i0 = if i < at { i } else { i - 1 };
            assert(s[i0] == y);
        }
    }
}

/// Taking an element out of a duplicate-free sequence leaves it
/// duplicate-free; it then no longer holds that element, and holds all the
/// others that it held.
pub proof fn lemma_remove_unique(s: Seq<usize>, at: int)
    requires
        s.no_duplicates(),
        0 <= at < s.len(),
    ensures
        s.remove(at).no_duplicates(),
        !s.remove(at).contains(s[at]),
        forall|y: usize| y != s[at] && s.contains(y) ==> #[trigger] s.remove(at).contains(y),
        forall|y: usize| #[trigger] s.remove(at).contains(y) ==> s.contains(y),
{
    let out = s.remove(at);
    assert forall|i: int, k: int| 0 <= i < out.len() && 0 <= k < out.len() && i != k implies out[i]
        != out[k] by {
        let i0 = if i < at { i } else { i + 1 };
        let k0 = if k < at { k } else { k + 1 };
        assert(s[i0] != s[k0]);
    }
    if out.contains(s[at]) {
        let k = out.index_of(s[at]);
        let k0 = if k < at { k } else { k + 1 };
        assert(s[k0] == s[at]);
    }
    assert forall|y: usize| y != s[at] && s.contains(y) implies #[trigger] out.contains(y) by {
        let i = s.index_of(y);
        let i1 = if i < at { i } else { i - 1 };
        assert(out[i1] == y);
    }
    assert forall|y: usize| #[trigger] out.contains(y) implies s.contains(y) by {
        let i = out.index_of(y);
        let i0 = if i < at { i } else { i + 1 };
        assert(s[i0] == y);
    }
}

/// Splitting pane `target` of a well-formed tree puts the new id directly
/// behind `target` in the order of the panes and moves no other pane.
pub proof fn lemma_split_order(
    t: LayoutNode,
    target: usize,
    new_id: usize,
    new_buf: Option<usize>,
    direc: SplitDirection,
)
    requires
        t.pane_ids().no_duplicates(),
        t.contains(target),
    ensures
        t.spec_split(target, new_id, new_buf, direc).pane_ids() == t.pane_ids().insert(
            t.pane_ids().index_of(target) + 1,
            new_id,
        ),
    decreases t,
{
    let r = t.spec_split(target, new_id, new_buf, direc);
    let ids = t.pane_ids();
    let at = ids.index_of(target);
    match t {
        LayoutNode::Pane { id, buffer_id, .. } => {
            assert(ids[0] == id);
            let fresh = LayoutNode::spec_new_pane(
                new_id,
                match new_buf {
                    Some(b) => b,
                    None => buffer_id,
                },
            );
            assert(fresh.pane_ids() == seq![new_id]);
            assert(r.pane_ids() == ids + fresh.pane_ids());
            assert(r.pane_ids() =~= ids.insert(1, new_id));
        },
        LayoutNode::Split { first, second, .. } => {
            let a = first.pane_ids();
            let b = second.pane_ids();
            lemma_contains_concat(a, b, target);
            lemma_no_duplicates_parts(a, b);
            if first.contains(target) {
                lemma_split_order(*first, target, new_id, new_buf, direc);
                let i = a.index_of(target);
                assert(ids[i] == target);
                lemma_index_unique(ids, i);
                assert(r.pane_ids() =~= ids.insert(at + 1, new_id));
            } else {
                lemma_split_order(*second, target, new_id, new_buf, direc);
                let i = b.index_of(target);
                assert(ids[a.len() + i] == target);
                lemma_index_unique(ids, a.len() + i);
                assert(r.pane_ids() =~= ids.insert(at + 1, new_id));
            }
        },
    }
}

/// Splitting pane `target` of a well-formed tree with an id that the tree
/// does not hold leaves the tree well formed; it then holds the new id and
/// every id that it held before, and no other.
pub proof fn lemma_split_ids(
    t: LayoutNode,
    target: usize,
    new_id: usize,
    new_buf: Option<usize>,
    direc: SplitDirection,
)
    requires
        t.wf(),
        t.contains(target),
        !t.contains(new_id),
    ensures
        t.spec_split(target, new_id, new_buf, direc).pane_ids() == t.pane_ids().insert(
            t.pane_ids().index_of(target) + 1,
            new_id,
        ),
        t.spec_split(target, new_id, new_buf, direc).wf(),
        t.spec_split(target, new_id, new_buf, direc).contains(new_id),
        forall|x: usize|
            t.contains(x) ==> #[trigger] t.spec_split(target, new_id, new_buf, direc).contains(x),
        forall|x: usize| #[trigger]
            t.spec_split(target, new_id, new_buf, direc).contains(x) ==> x == new_id || t.contains(
                x,
            ),
{
    lemma_split_order(t, target, new_id, new_buf, direc);
    lemma_insert_fresh(t.pane_ids(), t.pane_ids().index_of(target) + 1, new_id);
    lemma_split_ratios(t, target, new_id, new_buf, direc);
}

/// Splitting keeps every ratio a proper share.
pub proof fn lemma_split_ratios(
    t: LayoutNode,
    target: usize,
    new_id: usize,
    new_buf: Option<usize>,
    direc: SplitDirection,
)
    requires
        t.ratios_ok(),
    ensures
        t.spec_split(target, new_id, new_buf, direc).ratios_ok(),
    decreases t,
{
    match t {
        LayoutNode::Pane { id, buffer_id, .. } => {
            let fresh = LayoutNode::spec_new_pane(
                new_id,
                match new_buf {
                    Some(b) => b,
                    None => buffer_id,
                },
            );
            assert(fresh.ratios_ok());
            assert(0 < HALF < 100);
        },
        LayoutNode::Split { first, second, .. } => {
            lemma_split_ratios(*first, target, new_id, new_buf, direc);
            lemma_split_ratios(*second, target, new_id, new_buf, direc);
        },
    }
}

/// Removing a pane that the tree does not hold changes nothing.
pub proof fn lemma_remove_absent(t: LayoutNode, target: usize)
    requires
        !t.contains(target),
    ensures
        t.spec_remove(target) == Some(t),
    decreases t,
{
    match t {
        LayoutNode::Pane { id, .. } => {
            assert(t.pane_ids()[0] == id);
        },
        LayoutNode::Split { first, second, .. } => {
            lemma_contains_concat(first.pane_ids(), second.pane_ids(), target);
            lemma_remove_absent(*first, target);
            lemma_remove_absent(*second, target);
        },
    }
}

/// Removing pane `target` from a tree without duplicate ids that holds
/// it: if the tree is that pane alone, nothing is left; otherwise the rest
/// has the same panes in the same order, but for `target`.
pub proof fn lemma_remove_order(t: LayoutNode, target: usize)
    requires
        t.pane_ids().no_duplicates(),
        t.contains(target),
    ensures
        match t.spec_remove(target) {
            Some(rest) => t is Split && rest.pane_ids() == t.pane_ids().remove(
                t.pane_ids().index_of(target),
            ),
            None => t is Pane && t.pane_ids() == seq![target],
        },
    decreases t,
{
    let ids = t.pane_ids();
    let at = ids.index_of(target);
    match t {
        LayoutNode::Pane { id, .. } => {
            assert(ids[0] == id);
            assert(ids =~= seq![target]);
        },
        LayoutNode::Split { first, second, .. } => {
            let a = first.pane_ids();
            let b = second.pane_ids();
            lemma_contains_concat(a, b, target);
            lemma_no_duplicates_parts(a, b);
            let rest = t.spec_remove(target);
            if first.contains(target) {
                lemma_remove_order(*first, target);
                lemma_remove_absent(*second, target);
                let i = a.index_of(target);
                assert(ids[i] == target);
                lemma_index_unique(ids, i);
                assert(rest is Some);
                assert(rest->0.pane_ids() =~= ids.remove(at));
            } else {
                lemma_remove_absent(*first, target);
                lemma_remove_order(*second, target);
                let i = b.index_of(target);
                assert(ids[a.len() + i] == target);
                lemma_index_unique(ids, a.len() + i);
                assert(rest is Some);
                assert(rest->0.pane_ids() =~= ids.remove(at));
            }
        },
    }
}

/// Removing pane `target` from a well-formed tree that holds it: if the
/// tree is that pane alone, nothing is left; otherwise the rest is a
/// well-formed tree that holds every pane but `target`, in the same order.
pub proof fn lemma_remove_ids(t: LayoutNode, target: usize)
    requires
        t.wf(),
        t.contains(target),
    ensures
        match t.spec_remove(target) {
            Some(rest) => {
                &&& t is Split
                &&& rest.pane_ids() == t.pane_ids().remove(t.pane_ids().index_of(target))
                &&& rest.wf()
                &&& !rest.contains(target)
                &&& forall|x: usize| x != target && t.contains(x) ==> #[trigger] rest.contains(x)
                &&& forall|x: usize| #[trigger] rest.contains(x) ==> t.contains(x)
            },
            None => t is Pane && t.pane_ids() == seq![target],
        },
{
    lemma_remove_order(t, target);
    let ids = t.pane_ids();
    let at = ids.index_of(target);
    assert(ids[at] == target);
    lemma_remove_unique(ids, at);
    lemma_remove_ratios(t, target);
}

/// Removing the only pane of a tree leaves no tree.
pub proof fn lemma_remove_only_pane(id: usize, buffer_id: usize)
    ensures
        LayoutNode::spec_new_pane(id, buffer_id).spec_remove(id) is None,
{
}

/// Removing keeps every ratio a proper share.
pub proof fn lemma_remove_ratios(t: LayoutNode, target: usize)
    requires
        t.ratios_ok(),
    ensures
        t.spec_remove(target) matches Some(rest) ==> rest.ratios_ok(),
    decreases t,
{
    match t {
        LayoutNode::Pane { .. } => {},
        LayoutNode::Split { first, second, .. } => {
            lemma_remove_ratios(*first, target);
            lemma_remove_ratios(*second, target);
        },
    }
}

impl LayoutNode {
    /// The pane with id `pane_id`, if the tree holds one.
    pub fn get_pane(&self, pane_id: usize) -> (r: Option<&LayoutNode>)
        ensures
            match r {
                Some(p) => self.contains(pane_id) && self.find(pane_id) == Some(*p) && p is Pane
                    && p->id == pane_id,
                None => !self.contains(pane_id) && self.find(pane_id) is None,
            },
        decreases *self,
    {
        proof {
            lemma_find(*self, pane_id);
        }
        match self {
            LayoutNode::Pane { id, .. } => {
                if *id == pane_id {
                    Some(self)
                } else {
                    None
                }
            },
            LayoutNode::Split { first, second, .. } => {
                match first.get_pane(pane_id) {
                    Some(p) => Some(p),
                    None => second.get_pane(pane_id),
                }
            },
        }
    }

    /// The buffer shown by the pane with id `pane_id`, if the tree holds
    /// such a pane.
    pub fn get_buffer_id(&self, pane_id: usize) -> (r: Option<usize>)
        ensures
            match r {
                Some(b) => {
                    &&& self.contains(pane_id)
                    &&& self.find(pane_id) matches Some(p)
                    &&& p is Pane
                    &&& p->buffer_id == b
                },
                None => !self.contains(pane_id),
            },
    {
        match self.get_pane(pane_id) {
            Some(LayoutNode::Pane { buffer_id, .. }) => Some(*buffer_id),
            _ => None,
        }
    }

    /// The id of the leftmost pane.
    pub fn first_pane_id(&self) -> (r: usize)
        ensures
            r == self.first_id(),
            r == self.pane_ids()[0],
            self.contains(r),
        decreases *self,
    {
        proof {
            lemma_ids_nonempty(*self);
        }
        match self {
            LayoutNode::Pane { id, .. } => *id,
            LayoutNode::Split { first, .. } => first.first_pane_id(),
        }
    }
}

/// Replaces the pane `target` by a split of direction `direc` whose first
/// child is that pane, with its state, and whose second child is a fresh
/// pane `new_id` on buffer `new_buf_id`, or on the pane's own buffer where
/// none is given. Returns whether there was such a pane; without one the
/// tree stays as it is.
pub fn split_current(
    root: &mut LayoutNode,
    target: usize,
    new_id: usize,
    new_buf_id: Option<usize>,
    direc: SplitDirection,
) -> (found: bool)
    ensures
        found == old(root).contains(target),
        *final(root) == old(root).spec_split(target, new_id, new_buf_id, direc),
    decreases *old(root),
{
    proof {
        if !root.contains(target) {
            lemma_split_absent(*root, target, new_id, new_buf_id, direc);
        }
    }
    match root {
        LayoutNode::Pane { id, buffer_id, cursor_pos, scroll_offset, scroll_thres } => {
            if *id == target {
                let keep: LayoutNode = LayoutNode::Pane {
                    id: *id,
                    buffer_id: *buffer_id,
                    cursor_pos: *cursor_pos,
                    scroll_offset: *scroll_offset,
                    scroll_thres: *scroll_thres,
                };
                let buf: usize = match new_buf_id {
                    Some(b) => b,
                    None => *buffer_id,
                };
                proof {
                    assert(old(root).pane_ids()[0] == target);
                    assert(keep == *old(root));
                }
                *root = LayoutNode::Split {
                    direc,
                    ratio: HALF,
                    first: Box::new(keep),
                    second: Box::new(LayoutNode::new_pane(new_id, buf)),
                };
                true
            } else {
                proof {
                    assert(old(root).pane_ids() =~= seq![*id]);
                    assert(!old(root).contains(target));
                }
                false
            }
        },
        LayoutNode::Split { first, second, .. } => {
            let ghost first_before = **first;
            proof {
                lemma_contains_concat(first.pane_ids(), second.pane_ids(), target);
            }
            if split_current(first, target, new_id, new_buf_id, direc) {
                true
            } else {
                proof {
                    lemma_split_absent(first_before, target, new_id, new_buf_id, direc);
                }
                split_current(second, target, new_id, new_buf_id, direc)
            }
        },
    }
}

/// Takes the pane `target` out of the tree. A split that loses a child is
/// replaced by its other child. Gives what is left, or `None` if the tree
/// was that pane alone.
pub fn remove_pane(node: LayoutNode, target: usize) -> (r: Option<LayoutNode>)
    ensures
        r == node.spec_remove(target),
    decreases node,
{
    match node {
        LayoutNode::Pane { id, buffer_id, cursor_pos, scroll_offset, scroll_thres } => {
            if id == target {
                None
            } else {
                Some(LayoutNode::Pane { id, buffer_id, cursor_pos, scroll_offset, scroll_thres })
            }
        },
        LayoutNode::Split { direc, ratio, first, second } => {
            let f: Option<LayoutNode> = remove_pane(*first, target);
            let s: Option<LayoutNode> = remove_pane(*second, target);
            match (f, s) {
                (None, None) => None,
                (Some(f), None) => Some(f),
                (None, Some(s)) => Some(s),
                (Some(f), Some(s)) => Some(
                    LayoutNode::Split { direc, ratio, first: Box::new(f), second: Box::new(s) },
                ),
            }
        },
    }
}

impl LayoutNode {
    /// The pane with id `pane_id` for changing, if the tree holds one.
    /// Whatever the caller leaves in it takes the pane's place in the tree.
    pub fn get_pane_mut(&mut self, pane_id: usize) -> (r: Option<&mut LayoutNode>)
        ensures
            match r {
                Some(p) => {
                    &&& old(self).contains(pane_id)
                    &&& old(self).find(pane_id) == Some(*p)
                    &&& *p is Pane
                    &&& (*p)->id == pane_id
                    &&& *final(self) == old(self).spec_replace(pane_id, *final(p))
                },
                None => !old(self).contains(pane_id) && *final(self) == *old(self),
            },
        decreases *old(self),
    {
        proof {
            lemma_find(*self, pane_id);
        }
        match self {
            LayoutNode::Pane { id, .. } => {
                if *id == pane_id {
                    Some(self)
                } else {
                    None
                }
            },
            LayoutNode::Split { first, second, .. } => {
                proof {
                    lemma_find(**first, pane_id);
                }
                match first.get_pane_mut(pane_id) {
                    Some(p) => Some(p),
                    None => second.get_pane_mut(pane_id),
                }
            },
        }
    }
}

/// Replacing a pane by a pane with the same id keeps the ids of the tree
/// and its ratios, makes the new pane the one that is found under that id,
/// and leaves every other pane as it was.
pub proof fn lemma_replace_pane(t: LayoutNode, id: usize, node: LayoutNode)
    requires
        node is Pane,
        node->id == id,
    ensures
        t.spec_replace(id, node).pane_ids() == t.pane_ids(),
        t.spec_replace(id, node).ratios_ok() == t.ratios_ok(),
        t.contains(id) ==> t.spec_replace(id, node).find(id) == Some(node),
        !t.contains(id) ==> t.spec_replace(id, node) == t,
        forall|other: usize|
            other != id ==> #[trigger] t.spec_replace(id, node).find(other) == t.find(other),
    decreases t,
{
    let r = t.spec_replace(id, node);
    match t {
        LayoutNode::Pane { id: own, .. } => {
            assert(t.pane_ids()[0] == own);
            assert(node.pane_ids() == seq![id]);
        },
        LayoutNode::Split { first, second, .. } => {
            lemma_replace_pane(*first, id, node);
            lemma_replace_pane(*second, id, node);
            lemma_contains_concat(first.pane_ids(), second.pane_ids(), id);
            lemma_find(*first, id);
            lemma_find(first.spec_replace(id, node), id);
            assert forall|other: usize| other != id implies #[trigger] r.find(other) == t.find(
                other,
            ) by {
                assert(first.spec_replace(id, node).find(other) == first.find(other));
                assert(second.spec_replace(id, node).find(other) == second.find(other));
            }
        },
    }
}

} // verus!
