use vstd::prelude::*;

use crate::text::{byte_range_text, is_text};

verus! {

/// A (row, column) position in a document.
#[derive(Clone, Copy, Debug, PartialEq, Eq, Structural)]
pub struct Point {
    pub row: usize,
    pub column: usize,
}

/// The span of a syntax node, in bytes and in points.
#[derive(Clone, Copy, Debug, PartialEq, Eq, Structural)]
pub struct Range {
    pub start_byte: usize,
    pub end_byte: usize,
    pub start_point: Point,
    pub end_point: Point,
}

/// One node of a syntax tree. Nodes live in a `SyntaxTree` arena in breadth-first order;
/// the children of a node are the `child_count` nodes starting at `first_child`.
#[derive(Debug)]
pub struct SyntaxNode {
    pub kind: Vec<char>,
    /// The name of the field under which the node sits in its parent, if any.
    pub field: Option<Vec<char>>,
    pub is_named: bool,
    pub is_error: bool,
    pub range: Range,
    /// The source text that the node spans.
    pub text: Vec<char>,
    pub parent: Option<usize>,
    pub first_child: usize,
    pub child_count: usize,
}

/// A syntax tree as an arena of nodes in breadth-first order; the root is node 0.
#[derive(Debug)]
pub struct SyntaxTree {
    pub nodes: Vec<SyntaxNode>,
}

pub open spec fn point_le(a: Point, b: Point) -> bool {
    a.row < b.row || (a.row == b.row && a.column <= b.column)
}

/// Does the node's span hold the point?
pub open spec fn spans(r: Range, p: Point) -> bool {
    point_le(r.start_point, p) && point_le(p, r.end_point)
}

impl SyntaxTree {
    pub open spec fn len(&self) -> int {
        self.nodes@.len() as int
    }

    pub open spec fn node(&self, i: int) -> SyntaxNode {
        self.nodes@[i]
    }

    /// Is `c` a child of `i`?
    pub open spec fn is_child(&self, i: int, c: int) -> bool {
        self.nodes@[i].first_child <= c < self.nodes@[i].first_child + self.nodes@[i].child_count
    }

    /// Is each node's text the part of `source` that its byte range spans?
    pub open spec fn texts_from(&self, source: Seq<char>) -> bool {
        forall|i: int| 0 <= i < self.len() ==> (#[trigger] self.nodes@[i]).text@ == byte_range_text(
            source,
            self.nodes@[i].range.start_byte as int,
            self.nodes@[i].range.end_byte as int,
        )
    }

    /// Parents come before their children, children of one node are contiguous, and
    /// each child knows its parent.
    pub open spec fn wf(&self) -> bool {
        &&& self.nodes@.len() > 0
        &&& self.nodes@.len() <= usize::MAX
        &&& self.nodes@[0].parent is None
        &&& forall|i: int| 0 < i < self.len() ==> {
            &&& (#[trigger] self.nodes@[i]).parent matches Some(p)
            &&& p < i
        }
        &&& forall|i: int| 0 <= i < self.len() ==> {
            let n = #[trigger] self.nodes@[i];
            &&& n.child_count > 0 ==> i < n.first_child
            &&& n.first_child + n.child_count <= self.len()
        }
        &&& forall|i: int, c: int|
            0 <= i < self.len() && #[trigger] self.is_child(i, c) ==> self.nodes@[c].parent
                == Some(i as usize)
    }
}

/// The first index in `lo..hi` that satisfies `p`.
pub open spec fn first_in(lo: int, hi: int, p: spec_fn(int) -> bool) -> Option<int>
    decreases hi - lo,
{
    if lo >= hi {
        None
    } else if p(lo) {
        Some(lo)
    } else {
        first_in(lo + 1, hi, p)
    }
}

/// The last index in `lo..hi` that satisfies `p`.
pub open spec fn last_in(lo: int, hi: int, p: spec_fn(int) -> bool) -> Option<int>
    decreases hi - lo,
{
    if lo >= hi {
        None
    } else if p(hi - 1) {
        Some(hi - 1)
    } else {
        last_in(lo, hi - 1, p)
    }
}

pub proof fn lemma_first_in_bounds(lo: int, hi: int, p: spec_fn(int) -> bool)
    ensures
        first_in(lo, hi, p) matches Some(i) ==> lo <= i < hi && p(i),
    decreases hi - lo,
{
    if lo < hi && !p(lo) {
        lemma_first_in_bounds(lo + 1, hi, p);
    }
}

pub proof fn lemma_last_in_bounds(lo: int, hi: int, p: spec_fn(int) -> bool)
    ensures
        last_in(lo, hi, p) matches Some(i) ==> lo <= i < hi && p(i),
    decreases hi - lo,
{
    if lo < hi && !p(hi - 1) {
        lemma_last_in_bounds(lo, hi - 1, p);
    }
}

/// Does a child that spans from `start` to `end` hold the point, in the sense of
/// tree-sitter's point lookup (an empty node holds only its own position)?
pub open spec fn holds_point(r: Range, p: Point) -> bool {
    &&& point_le(r.start_point, p)
    &&& if r.start_point == r.end_point {
        point_le(p, r.end_point)
    } else {
        point_le(p, r.end_point) && p != r.end_point
    }
}

impl SyntaxTree {
    pub open spec fn field_pred(&self, name: Seq<char>) -> spec_fn(int) -> bool {
        |c: int| self.nodes@[c].field matches Some(f) && f@ == name
    }

    pub open spec fn named_pred(&self, i: int, k: int) -> spec_fn(int) -> bool {
        |c: int| self.nodes@[c].is_named && self.named_before(i, c) == k
    }

    pub open spec fn is_named_pred(&self) -> spec_fn(int) -> bool {
        |c: int| self.nodes@[c].is_named
    }

    pub open spec fn kind_pred(&self, kind: Seq<char>) -> spec_fn(int) -> bool {
        |c: int| self.nodes@[c].kind@ == kind
    }

    pub open spec fn holds_pred(&self, p: Point) -> spec_fn(int) -> bool {
        |c: int| holds_point(self.nodes@[c].range, p)
    }

    /// The first child of `i` that sits under the field `name`.
    pub open spec fn field_child(&self, i: int, name: Seq<char>) -> Option<int> {
        let n = self.nodes@[i];
        first_in(
            n.first_child as int,
            n.first_child + n.child_count,
            self.field_pred(name),
        )
    }

    /// The `k`-th child of `i`.
    pub open spec fn child_at(&self, i: int, k: int) -> Option<int> {
        if 0 <= k < self.nodes@[i].child_count {
            Some(self.nodes@[i].first_child + k)
        } else {
            None
        }
    }

    /// The number of named children of `i` before its child `c`.
    pub open spec fn named_before(&self, i: int, c: int) -> int
        decreases c - self.nodes@[i].first_child,
    {
        if c <= self.nodes@[i].first_child {
            0
        } else {
            self.named_before(i, c - 1) + if self.nodes@[c - 1].is_named { 1int } else { 0int }
        }
    }

    /// The `k`-th named child of `i`.
    pub open spec fn spec_named_child(&self, i: int, k: int) -> Option<int> {
        let n = self.nodes@[i];
        first_in(
            n.first_child as int,
            n.first_child + n.child_count,
            self.named_pred(i, k),
        )
    }

    /// The nearest previous sibling of `i` that is named.
    pub open spec fn spec_prev_named_sibling(&self, i: int) -> Option<int> {
        match self.nodes@[i].parent {
            Some(p) => last_in(
                self.nodes@[p as int].first_child as int,
                i,
                self.is_named_pred(),
            ),
            None => None,
        }
    }

    /// The nearest proper ancestor of `i` whose kind is `kind`.
    pub open spec fn ancestor_of_kind(&self, i: int, kind: Seq<char>) -> Option<int>
        decreases i,
    {
        if !(0 <= i < self.len()) {
            None
        } else {
            match self.nodes@[i].parent {
                Some(p) => if p < i {
                    if self.nodes@[p as int].kind@ == kind {
                        Some(p as int)
                    } else {
                        self.ancestor_of_kind(p as int, kind)
                    }
                } else {
                    None
                },
                None => None,
            }
        }
    }

    /// The child of `i` that point lookup descends into.
    pub open spec fn child_holding(&self, i: int, p: Point) -> Option<int> {
        let n = self.nodes@[i];
        first_in(
            n.first_child as int,
            n.first_child + n.child_count,
            self.holds_pred(p),
        )
    }

    /// The smallest node under `i` (or `i` itself) that holds the point.
    pub open spec fn descendant_at(&self, i: int, p: Point) -> int
        decreases self.len() - i,
    {
        if !(0 <= i < self.len()) {
            i
        } else {
            match self.child_holding(i, p) {
                Some(c) => if i < c < self.len() {
                    self.descendant_at(c, p)
                } else {
                    i
                },
                None => i,
            }
        }
    }

    pub fn kind_is(&self, i: usize, kind: &str) -> (r: bool)
        requires
            i < self.len(),
        ensures
            r == (self.nodes@[i as int].kind@ == kind@),
    {
        is_text(self.nodes[i].kind.as_slice(), kind)
    }

    /// The first child of `i` that sits under the field `name`.
    pub fn child_by_field_name(&self, i: usize, name: &str) -> (r: Option<usize>)
        requires
            self.wf(),
            i < self.len(),
        ensures
            r matches Some(c) ==> self.field_child(i as int, name@) == Some(c as int) && (c as int) < self.len(),
            r is None ==> self.field_child(i as int, name@) is None,
    {
        let n = &self.nodes[i];
        assert(n.first_child + n.child_count <= self.len());
        let lo = n.first_child;
        let hi = n.first_child + n.child_count;
        let ghost pr = self.field_pred(name@);
        let mut c = lo;
        while c < hi
            invariant
                self.wf(),
                i < self.len(),
                lo == self.nodes@[i as int].first_child,
                hi == self.nodes@[i as int].first_child + self.nodes@[i as int].child_count,
                lo <= c <= hi <= self.len(),
                pr == self.field_pred(name@),
                first_in(lo as int, hi as int, pr) == first_in(c as int, hi as int, pr),
            decreases hi - c,
        {
            let hit = match &self.nodes[c].field {
                Some(f) => is_text(f.as_slice(), name),
                None => false,
            };
            assert(hit == pr(c as int));
            if hit {
                return Some(c);
            }
            assert(first_in(c as int, hi as int, pr) == first_in(c + 1, hi as int, pr));
            c = c + 1;
        }
        None
    }

    /// The `k`-th child of `i`.
    pub fn child(&self, i: usize, k: usize) -> (r: Option<usize>)
        requires
            self.wf(),
            i < self.len(),
        ensures
            r matches Some(c) ==> self.child_at(i as int, k as int) == Some(c as int) && (c as int) < self.len(),
            r is None ==> self.child_at(i as int, k as int) is None,
    {
        if k < self.nodes[i].child_count {
            Some(self.nodes[i].first_child + k)
        } else {
            None
        }
    }

    /// The `k`-th named child of `i`.
    pub fn named_child(&self, i: usize, k: usize) -> (r: Option<usize>)
        requires
            self.wf(),
            i < self.len(),
        ensures
            r matches Some(c) ==> self.spec_named_child(i as int, k as int) == Some(c as int) && (c as int) < self.len(),
            r is None ==> self.spec_named_child(i as int, k as int) is None,
    {
        let lo = self.nodes[i].first_child;
        let hi = lo + self.nodes[i].child_count;
        let ghost pr = self.named_pred(i as int, k as int);
        let mut c = lo;
        let mut seen: usize = 0;
        while c < hi
            invariant
                self.wf(),
                i < self.len(),
                lo == self.nodes@[i as int].first_child,
                hi == self.nodes@[i as int].first_child + self.nodes@[i as int].child_count,
                lo <= c <= hi <= self.len(),
                seen == self.named_before(i as int, c as int),
                seen <= c - lo,
                pr == self.named_pred(i as int, k as int),
                first_in(lo as int, hi as int, pr) == first_in(c as int, hi as int, pr),
            decreases hi - c,
        {
            if self.nodes[c].is_named {
                if seen == k {
                    return Some(c);
                }
                seen = seen + 1;
            }
            c = c + 1;
        }
        None
    }

    /// The nearest previous sibling of `i` that is named.
    pub fn prev_named_sibling(&self, i: usize) -> (r: Option<usize>)
        requires
            self.wf(),
            i < self.len(),
        ensures
            r matches Some(c) ==> self.spec_prev_named_sibling(i as int) == Some(c as int) && (c as int) < self.len(),
            r is None ==> self.spec_prev_named_sibling(i as int) is None,
    {
        match self.nodes[i].parent {
            None => None,
            Some(p) => {
                let lo = self.nodes[p].first_child;
                let ghost pr = self.is_named_pred();
                let mut c = i;
                while c > lo
                    invariant
                        self.wf(),
                        i < self.len(),
                        lo <= c <= i || (c == i && i < lo),
                        self.nodes@[i as int].parent == Some(p),
                        lo == self.nodes@[p as int].first_child,
                        pr == self.is_named_pred(),
                        last_in(lo as int, i as int, pr) == last_in(lo as int, c as int, pr),
                    decreases c,
                {
                    if self.nodes[c - 1].is_named {
                        return Some(c - 1);
                    }
                    c = c - 1;
                }
                None
            },
        }
    }

    /// The first child of `i` that point lookup descends into.
    pub fn child_for_point(&self, i: usize, p: Point) -> (r: Option<usize>)
        requires
            self.wf(),
            i < self.len(),
        ensures
            r matches Some(c) ==> self.child_holding(i as int, p) == Some(c as int) && (c as int) < self.len(),
            r is None ==> self.child_holding(i as int, p) is None,
    {
        let lo = self.nodes[i].first_child;
        let hi = lo + self.nodes[i].child_count;
        let ghost pr = self.holds_pred(p);
        let mut c = lo;
        while c < hi
            invariant
                self.wf(),
                i < self.len(),
                lo == self.nodes@[i as int].first_child,
                hi == self.nodes@[i as int].first_child + self.nodes@[i as int].child_count,
                lo <= c <= hi <= self.len(),
                pr == self.holds_pred(p),
                first_in(lo as int, hi as int, pr) == first_in(c as int, hi as int, pr),
            decreases hi - c,
        {
            if holds(self.nodes[c].range, p) {
                return Some(c);
            }
            c = c + 1;
        }
        None
    }

    /// The smallest node under `i` (or `i` itself) that holds the point.
    pub fn descendant_for_point(&self, i: usize, p: Point) -> (r: usize)
        requires
            self.wf(),
            i < self.len(),
        ensures
            r as int == self.descendant_at(i as int, p),
            r < self.len(),
    {
        let mut cur = i;
        loop
            invariant
                self.wf(),
                cur < self.len(),
                self.descendant_at(i as int, p) == self.descendant_at(cur as int, p),
            decreases self.len() - cur,
        {
            match self.child_for_point(cur, p) {
                Some(c) => {
                    if c <= cur {
                        return cur;
                    }
                    cur = c;
                },
                None => {
                    return cur;
                },
            }
        }
    }
}

/// The nearest proper ancestor of `i` whose kind is `kind`.
pub fn get_closest_parent_by_kind(tree: &SyntaxTree, i: usize, kind: &str) -> (r: Option<usize>)
    requires
        tree.wf(),
        i < tree.len(),
    ensures
        r matches Some(c) ==> tree.ancestor_of_kind(i as int, kind@) == Some(c as int) && (c as int) < tree.len(),
        r is None ==> tree.ancestor_of_kind(i as int, kind@) is None,
{
    let mut cur = i;
    while cur > 0
        invariant
            tree.wf(),
            i < tree.len(),
            cur < tree.len(),
            tree.ancestor_of_kind(i as int, kind@) == tree.ancestor_of_kind(cur as int, kind@),
        decreases cur,
    {
        let p = match tree.nodes[cur].parent {
            Some(p) => p,
            None => {
                return None;
            },
        };
        if tree.kind_is(p, kind) {
            return Some(p);
        }
        cur = p;
    }
    None
}

/// The smallest node of the tree that holds the point.
pub fn get_node_at_position(tree: &SyntaxTree, p: Point) -> (r: usize)
    requires
        tree.wf(),
    ensures
        r as int == tree.descendant_at(0, p),
        r < tree.len(),
{
    tree.descendant_for_point(0, p)
}

pub fn point_leq(a: Point, b: Point) -> (r: bool)
    ensures
        r == point_le(a, b),
{
    a.row < b.row || (a.row == b.row && a.column <= b.column)
}

pub fn holds(r: Range, p: Point) -> (res: bool)
    ensures
        res == holds_point(r, p),
{
    if !point_leq(r.start_point, p) {
        return false;
    }
    if r.start_point == r.end_point {
        point_leq(p, r.end_point)
    } else {
        point_leq(p, r.end_point) && p != r.end_point
    }
}

} // verus!
