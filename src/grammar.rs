use vstd::prelude::*;

use crate::syntax::{Point, Range, SyntaxNode, SyntaxTree};
use crate::text::{byte_range_text, byte_slice, chars_of};

verus! {

/// `tree_sitter::Tree`, carried opaquely.
#[verifier::external_type_specification]
#[verifier::external_body]
pub struct ExTree(tree_sitter::Tree);

/// `tree_sitter::Node`, carried opaquely.
#[verifier::external_type_specification]
#[verifier::external_body]
pub struct ExNode<'tree>(tree_sitter::Node<'tree>);

/// The two grammars the server reads.
#[derive(Clone, Copy, Debug, PartialEq, Eq, Structural)]
pub enum Grammar {
    Php,
    Yaml,
}

// The tree-sitter parse of a source in a grammar depends on the two alone. Its nodes are named
// by the path of child indices that leads to them from the root.

/// The number of children of the node at `path` in the parse of `source`.
pub uninterp spec fn ts_child_count(grammar: Grammar, source: Seq<char>, path: Seq<usize>) -> nat;

/// The kind of the node at `path` in the parse of `source`.
pub uninterp spec fn ts_kind(grammar: Grammar, source: Seq<char>, path: Seq<usize>) -> Seq<char>;

/// The field under which the node at `path` sits in its parent, in the parse of `source`.
pub uninterp spec fn ts_field(grammar: Grammar, source: Seq<char>, path: Seq<usize>) -> Option<Seq<char>>;

/// Is the node at `path` named, in the parse of `source`?
pub uninterp spec fn ts_is_named(grammar: Grammar, source: Seq<char>, path: Seq<usize>) -> bool;

/// Is the node at `path` an error node, in the parse of `source`?
pub uninterp spec fn ts_is_error(grammar: Grammar, source: Seq<char>, path: Seq<usize>) -> bool;

/// The span of the node at `path` in the parse of `source`.
pub uninterp spec fn ts_range(grammar: Grammar, source: Seq<char>, path: Seq<usize>) -> Range;

/// The number of nodes at and below `path` in the parse of `source`.
pub uninterp spec fn ts_descendants(grammar: Grammar, source: Seq<char>, path: Seq<usize>) -> nat;

/// The grammar and source that a tree-sitter tree was parsed from.
pub uninterp spec fn tree_origin(tree: tree_sitter::Tree) -> (Grammar, Seq<char>);

/// The grammar, source and path of a tree-sitter node.
pub uninterp spec fn node_origin(node: tree_sitter::Node<'_>) -> (Grammar, Seq<char>, Seq<usize>);

pub open spec fn opt_str(o: Option<&str>) -> Option<Seq<char>> {
    match o {
        Some(s) => Some(s@),
        None => None,
    }
}

/// Relies on `tree_sitter::Parser::new`, `Parser::set_language` and `Parser::parse`, with
/// `tree_sitter_php::LANGUAGE_PHP` or `tree_sitter_yaml::language`. `set_language` fails only
/// for a grammar built for another tree-sitter version, and `parse` returns nothing only
/// without a language, after a timeout or on cancellation, none of which is set here.
#[verifier::external_body]
fn parse_source(source: &str, grammar: Grammar) -> (r: Option<tree_sitter::Tree>)
    ensures
        r is Some,
        r matches Some(t) ==> tree_origin(t) == (grammar, source@),
{
    let language: tree_sitter::Language = match grammar {
        Grammar::Php => tree_sitter_php::LANGUAGE_PHP.into(),
        Grammar::Yaml => tree_sitter_yaml::language(),
    };
    let mut parser = tree_sitter::Parser::new();
    parser.set_language(&language).ok()?;
    parser.parse(source, None)
}

/// Relies on `tree_sitter::Tree::root_node`.
#[verifier::external_body]
fn root_node(tree: &tree_sitter::Tree) -> (r: tree_sitter::Node<'_>)
    ensures
        node_origin(r) == (tree_origin(*tree).0, tree_origin(*tree).1, Seq::<usize>::empty()),
{
    tree.root_node()
}

/// Relies on `tree_sitter::Node::descendant_count`: the node and all nodes below it.
#[verifier::external_body]
fn descendant_count(node: &tree_sitter::Node<'_>) -> (r: usize)
    ensures
        r == ts_descendants(node_origin(*node).0, node_origin(*node).1, node_origin(*node).2),
{
    node.descendant_count()
}

/// Relies on `tree_sitter::Node::child_count`, which is a `u32` widened to `usize`.
#[verifier::external_body]
fn child_count(node: &tree_sitter::Node<'_>) -> (r: usize)
    ensures
        r <= u32::MAX,
        r == ts_child_count(node_origin(*node).0, node_origin(*node).1, node_origin(*node).2),
{
    node.child_count()
}

/// Relies on `tree_sitter::Node::child`: the child at the index, present for every index
/// below the child count. The index is cast to `u32`, so it must fit.
#[verifier::external_body]
fn child<'t>(node: &tree_sitter::Node<'t>, i: usize) -> (r: Option<tree_sitter::Node<'t>>)
    requires
        i <= u32::MAX,
    ensures
        i < ts_child_count(node_origin(*node).0, node_origin(*node).1, node_origin(*node).2) ==> r is Some,
        r matches Some(c) ==> node_origin(c) == (node_origin(*node).0, node_origin(*node).1, node_origin(*node).2.push(i)),
{
    node.child(i)
}

/// Relies on `tree_sitter::Node::field_name_for_child`.
#[verifier::external_body]
fn field_name_for_child(node: &tree_sitter::Node<'_>, i: u32) -> (r: Option<&'static str>)
    ensures
        opt_str(r) == ts_field(node_origin(*node).0, node_origin(*node).1, node_origin(*node).2.push(i as usize)),
{
    node.field_name_for_child(i)
}

/// Relies on `tree_sitter::Node::kind`.
#[verifier::external_body]
fn node_kind(node: &tree_sitter::Node<'_>) -> (r: &'static str)
    ensures
        r@ == ts_kind(node_origin(*node).0, node_origin(*node).1, node_origin(*node).2),
{
    node.kind()
}

/// Relies on `tree_sitter::Node::is_named`.
#[verifier::external_body]
fn node_is_named(node: &tree_sitter::Node<'_>) -> (r: bool)
    ensures
        r == ts_is_named(node_origin(*node).0, node_origin(*node).1, node_origin(*node).2),
{
    node.is_named()
}

/// Relies on `tree_sitter::Node::is_error`.
#[verifier::external_body]
fn node_is_error(node: &tree_sitter::Node<'_>) -> (r: bool)
    ensures
        r == ts_is_error(node_origin(*node).0, node_origin(*node).1, node_origin(*node).2),
{
    node.is_error()
}

/// Relies on `tree_sitter::Node::range`, field by field.
#[verifier::external_body]
fn node_range(node: &tree_sitter::Node<'_>) -> (r: Range)
    ensures
        r == ts_range(node_origin(*node).0, node_origin(*node).1, node_origin(*node).2),
{
    let r = node.range();
    Range {
        start_byte: r.start_byte,
        end_byte: r.end_byte,
        start_point: Point { row: r.start_point.row, column: r.start_point.column },
        end_point: Point { row: r.end_point.row, column: r.end_point.column },
    }
}

pub open spec fn field_view(n: SyntaxNode) -> Option<Seq<char>> {
    match n.field {
        Some(f) => Some(f@),
        None => None,
    }
}

/// Does node `n` hold what the parse says of the node at `path`?
pub open spec fn node_matches(n: SyntaxNode, grammar: Grammar, source: Seq<char>, path: Seq<usize>) -> bool {
    &&& n.kind@ == ts_kind(grammar, source, path)
    &&& n.is_named == ts_is_named(grammar, source, path)
    &&& n.is_error == ts_is_error(grammar, source, path)
    &&& n.range == ts_range(grammar, source, path)
    &&& n.text@ == byte_range_text(source, n.range.start_byte as int, n.range.end_byte as int)
    &&& field_view(n) == if path.len() == 0 {
        None
    } else {
        ts_field(grammar, source, path)
    }
}

/// The number of children of the first `i` nodes.
pub open spec fn children_before(nodes: Seq<SyntaxNode>, i: int) -> int
    decreases i,
{
    if i <= 0 {
        0
    } else {
        children_before(nodes, i - 1) + nodes[i - 1].child_count
    }
}

proof fn lemma_children_before_push(nodes: Seq<SyntaxNode>, x: SyntaxNode, i: int)
    requires
        0 <= i <= nodes.len(),
    ensures
        children_before(nodes.push(x), i) == children_before(nodes, i),
    decreases i,
{
    if i > 0 {
        lemma_children_before_push(nodes, x, i - 1);
    }
}

/// Is `t` the breadth-first arena of the parse, node `i` being the node at `paths[i]`? The
/// arena is cut at the parse's node count, which it never reaches before its end.
pub open spec fn arena_of(t: SyntaxTree, grammar: Grammar, source: Seq<char>, paths: Seq<Seq<usize>>) -> bool {
    &&& paths.len() == t.len()
    &&& t.len() > 0
    &&& paths[0] == Seq::<usize>::empty()
    &&& forall|i: int| 0 <= i < t.len() ==> node_matches(#[trigger] t.nodes@[i], grammar, source, paths[i])
    &&& forall|i: int| 0 <= i < t.len() ==> (#[trigger] t.nodes@[i]).first_child == 1 + children_before(t.nodes@, i)
    &&& forall|i: int| 0 <= i < t.len() ==> (#[trigger] t.nodes@[i]).child_count == ts_child_count(
        grammar,
        source,
        paths[i],
    ) || t.len() >= ts_descendants(grammar, source, Seq::<usize>::empty())
    &&& forall|i: int, c: int|
        #![trigger t.nodes@[i], paths[c]]
        0 <= i < t.len() && t.nodes@[i].first_child <= c < t.nodes@[i].first_child + t.nodes@[i].child_count
            ==> paths[c] == paths[i].push((c - t.nodes@[i].first_child) as usize)
}

/// Is `t` the syntax tree of `source` in the grammar: the breadth-first arena of its parse?
pub open spec fn is_syntax_of(t: SyntaxTree, grammar: Grammar, source: Seq<char>) -> bool {
    exists|paths: Seq<Seq<usize>>| arena_of(t, grammar, source, paths)
}

/// Everything known of one tree-sitter node that the extractors read.
fn record<'t>(
    node: &tree_sitter::Node<'t>,
    source: &str,
    field: Option<&'static str>,
    parent: Option<usize>,
    first_child: usize,
    child_count: usize,
) -> (r: SyntaxNode)
    ensures
        r.parent == parent,
        r.first_child == first_child,
        r.child_count == child_count,
        r.text@ == byte_range_text(source@, r.range.start_byte as int, r.range.end_byte as int),
        r.kind@ == ts_kind(node_origin(*node).0, node_origin(*node).1, node_origin(*node).2),
        r.is_named == ts_is_named(node_origin(*node).0, node_origin(*node).1, node_origin(*node).2),
        r.is_error == ts_is_error(node_origin(*node).0, node_origin(*node).1, node_origin(*node).2),
        r.range == ts_range(node_origin(*node).0, node_origin(*node).1, node_origin(*node).2),
        field_view(r) == opt_str(field),
{
    let range = node_range(node);
    SyntaxNode {
        kind: chars_of(node_kind(node)),
        field: match field {
            Some(f) => Some(chars_of(f)),
            None => None,
        },
        is_named: node_is_named(node),
        is_error: node_is_error(node),
        range,
        text: chars_of(byte_slice(source, range.start_byte, range.end_byte)),
        parent,
        first_child,
        child_count,
    }
}

/// Appends the children of the node `h`, which sits at `head`, to the walk's queue, up to
/// `bound` entries in all; returns the paths of the queue.
#[verifier::rlimit(50)]
fn push_children<'t>(
    h: &tree_sitter::Node<'t>,
    head: usize,
    bound: usize,
    handles: &mut Vec<tree_sitter::Node<'t>>,
    parents: &mut Vec<Option<usize>>,
    fields: &mut Vec<Option<&'static str>>,
    paths: Ghost<Seq<Seq<usize>>>,
    g: Ghost<Grammar>,
    src: Ghost<Seq<char>>,
) -> (r: Ghost<Seq<Seq<usize>>>)
    requires
        old(handles).len() == old(parents).len(),
        old(handles).len() == old(fields).len(),
        old(handles).len() == paths@.len(),
        head < old(handles).len() <= bound,
        node_origin(*h) == (g@, src@, paths@[head as int]),
        old(parents)@[0] is None,
        old(fields)@[0] is None,
        forall|c: int| 0 < c < old(parents)@.len() ==> ((#[trigger] old(parents)@[c]) matches Some(p) && p < c),
        forall|k: int| 0 <= k < old(handles).len() ==> node_origin(#[trigger] old(handles)@[k]) == (g@, src@, paths@[k]),
        forall|k: int| 0 < k < old(fields)@.len() ==> opt_str(#[trigger] old(fields)@[k]) == ts_field(g@, src@, paths@[k]),
    ensures
        final(handles).len() == final(parents).len(),
        final(handles).len() == final(fields).len(),
        final(handles).len() == r@.len(),
        old(handles).len() <= final(handles).len() <= bound,
        final(handles).len() - old(handles).len() == ts_child_count(g@, src@, paths@[head as int])
            || final(handles).len() == bound,
        final(parents)@[0] is None,
        final(fields)@[0] is None,
        forall|c: int| 0 <= c < old(handles).len() ==> final(parents)@[c] == old(parents)@[c],
        forall|c: int| 0 <= c < old(handles).len() ==> r@[c] == paths@[c],
        forall|c: int| 0 <= c < old(handles).len() ==> final(fields)@[c] == old(fields)@[c],
        forall|c: int| 0 <= c < old(handles).len() ==> final(handles)@[c] == old(handles)@[c],
        forall|c: int| 0 < c < final(parents)@.len() ==> ((#[trigger] final(parents)@[c]) matches Some(p) && p < c),
        forall|c: int| old(handles).len() <= c < final(parents)@.len() ==> #[trigger] final(parents)@[c] == Some(head),
        forall|c: int| old(handles).len() <= c < r@.len() ==> #[trigger] r@[c] == paths@[head as int].push((c - old(handles).len()) as usize),
        forall|k: int| 0 <= k < final(handles).len() ==> node_origin(#[trigger] final(handles)@[k]) == (g@, src@, r@[k]),
        forall|k: int| 0 < k < final(fields)@.len() ==> opt_str(#[trigger] final(fields)@[k]) == ts_field(g@, src@, r@[k]),
{
    let first = handles.len();
    let n = child_count(h);
    let ghost mut ps = paths@;
    let mut i: usize = 0;
    while i < n && handles.len() < bound
        invariant
            handles.len() == parents.len(),
            handles.len() == fields.len(),
            handles.len() == ps.len(),
            first == old(handles).len(),
            first <= handles.len() <= bound,
            handles.len() == first + i,
            i <= n,
            head < first,
            n == ts_child_count(g@, src@, paths@[head as int]),
            node_origin(*h) == (g@, src@, paths@[head as int]),
            n <= u32::MAX,
            parents@[0] is None,
            fields@[0] is None,
            forall|c: int| 0 <= c < first ==> parents@[c] == old(parents)@[c],
            forall|c: int| 0 <= c < first ==> ps[c] == paths@[c],
            forall|c: int| 0 <= c < first ==> fields@[c] == old(fields)@[c],
            forall|c: int| 0 <= c < first ==> handles@[c] == old(handles)@[c],
            forall|c: int| 0 < c < parents@.len() ==> ((#[trigger] parents@[c]) matches Some(p) && p < c),
            forall|c: int| first <= c < parents@.len() ==> #[trigger] parents@[c] == Some(head),
            forall|c: int| first <= c < ps.len() ==> #[trigger] ps[c] == paths@[head as int].push((c - first) as usize),
            forall|k: int| 0 <= k < handles.len() ==> node_origin(#[trigger] handles@[k]) == (g@, src@, ps[k]),
            forall|k: int| 0 < k < fields@.len() ==> opt_str(#[trigger] fields@[k]) == ts_field(g@, src@, ps[k]),
        decreases n - i,
    {
        match child(h, i) {
            Some(c) => {
                handles.push(c);
                parents.push(Some(head));
                fields.push(field_name_for_child(h, i as u32));
                proof {
                    ps = ps.push(paths@[head as int].push(i));
                }
            },
            None => {},
        }
        i = i + 1;
    }
    Ghost(ps)
}

/// Copies a tree-sitter tree into an arena in breadth-first order: the nodes appear in the
/// order in which a level-by-level walk from the root meets them.
#[verifier::rlimit(100)]
#[verifier::spinoff_prover]
fn to_arena<'t>(root: tree_sitter::Node<'t>, source: &str) -> (r: SyntaxTree)
    requires
        node_origin(root).1 == source@,
        node_origin(root).2 == Seq::<usize>::empty(),
    ensures
        r.wf(),
        r.texts_from(source@),
        is_syntax_of(r, node_origin(root).0, source@),
{
    let ghost g = node_origin(root).0;
    let total = descendant_count(&root);
    let bound: usize = if total < 1 { 1 } else { total };
    let mut handles: Vec<tree_sitter::Node<'t>> = Vec::new();
    let mut parents: Vec<Option<usize>> = Vec::new();
    let mut fields: Vec<Option<&'static str>> = Vec::new();
    handles.push(root);
    parents.push(None);
    fields.push(None);
    let ghost mut paths: Seq<Seq<usize>> = seq![Seq::<usize>::empty()];
    let mut nodes: Vec<SyntaxNode> = Vec::new();
    let mut head: usize = 0;
    while head < handles.len()
        invariant
            handles.len() == parents.len(),
            handles.len() == fields.len(),
            handles.len() == paths.len(),
            1 <= handles.len() <= bound,
            bound >= ts_descendants(g, source@, Seq::<usize>::empty()),
            nodes.len() == head,
            head <= handles.len(),
            paths[0] == Seq::<usize>::empty(),
            forall|k: int| 0 < k < paths.len() ==> (#[trigger] paths[k]).len() > 0,
            fields@[0] is None,
            parents@[0] is None,
            forall|k: int| 0 <= k < handles.len() ==> node_origin(#[trigger] handles@[k]) == (g, source@, paths[k]),
            forall|k: int| 0 < k < fields@.len() ==> opt_str(#[trigger] fields@[k]) == ts_field(g, source@, paths[k]),
            forall|c: int| 0 < c < parents@.len() ==> ((#[trigger] parents@[c]) matches Some(p) && p < c),
            forall|i: int| 0 <= i < head ==> (#[trigger] nodes@[i]).parent == parents@[i],
            forall|i: int| 0 <= i < head ==> node_matches(#[trigger] nodes@[i], g, source@, paths[i]),
            forall|i: int| 0 <= i < head ==> {
                let n = #[trigger] nodes@[i];
                &&& (n.child_count > 0 ==> i < n.first_child)
                &&& n.first_child + n.child_count <= handles.len()
                &&& n.first_child == 1 + children_before(nodes@, i)
                &&& (n.child_count == ts_child_count(g, source@, paths[i]) || handles.len() == bound)
            },
            handles.len() == 1 + children_before(nodes@, head as int),
            forall|i: int, c: int|
                #![trigger nodes@[i], parents@[c]]
                0 <= i < head && nodes@[i].first_child <= c < nodes@[i].first_child + nodes@[i].child_count
                    ==> parents@[c] == Some(i as usize),
            forall|i: int, c: int|
                #![trigger nodes@[i], paths[c]]
                0 <= i < head && nodes@[i].first_child <= c < nodes@[i].first_child + nodes@[i].child_count
                    ==> paths[c] == paths[i].push((c - nodes@[i].first_child) as usize),
        decreases bound - head,
    {
        let h = handles[head];
        let first = handles.len();
        let ghost old_parents = parents@;
        let ghost old_paths = paths;
        let ghost old_handles = handles@;
        let ghost old_fields = fields@;
        let new_paths = push_children(&h, head, bound, &mut handles, &mut parents, &mut fields, Ghost(paths), Ghost(g), Ghost(source@));
        proof {
            paths = new_paths@;
        }
        let count = handles.len() - first;
        let node = record(&h, source, fields[head], parents[head], first, count);
        let ghost old_nodes = nodes@;
        nodes.push(node);
        proof {
            assert forall|k: int, c: int|
                #![trigger nodes@[k], parents@[c]]
                0 <= k < head + 1 && nodes@[k].first_child <= c < nodes@[k].first_child + nodes@[k].child_count
                    implies parents@[c] == Some(k as usize) by {
                if k < head {
                    assert(nodes@[k] == old_nodes[k]);
                    assert(old_parents[c] == Some(k as usize));
                }
            }
            assert forall|k: int, c: int|
                #![trigger nodes@[k], paths[c]]
                0 <= k < head + 1 && nodes@[k].first_child <= c < nodes@[k].first_child + nodes@[k].child_count
                    implies paths[c] == paths[k].push((c - nodes@[k].first_child) as usize) by {
                if k < head {
                    assert(nodes@[k] == old_nodes[k]);
                    assert(old_paths[c] == old_paths[k].push((c - nodes@[k].first_child) as usize));
                }
            }
            assert(h == old_handles[head as int]);
            assert(fields@[head as int] == old_fields[head as int]);
            assert(node_matches(nodes@[head as int], g, source@, paths[head as int]));
            assert forall|k: int| 0 < k < paths.len() implies (#[trigger] paths[k]).len() > 0 by {
                if k < first {
                    assert(paths[k] == old_paths[k]);
                }
            }
            assert forall|k: int| 0 <= k < head + 1 implies {
                let m = #[trigger] nodes@[k];
                &&& (m.child_count > 0 ==> k < m.first_child)
                &&& m.first_child + m.child_count <= handles.len()
                &&& m.first_child == 1 + children_before(nodes@, k)
                &&& (m.child_count == ts_child_count(g, source@, paths[k]) || handles.len() == bound)
            } by {
                lemma_children_before_push(old_nodes, node, k);
                if k < head {
                    assert(nodes@[k] == old_nodes[k]);
                }
            }
            lemma_children_before_push(old_nodes, node, head as int);
            assert(handles.len() == 1 + children_before(nodes@, head + 1));
        }
        head = head + 1;
    }
    let t = SyntaxTree { nodes };
    proof {
        assert(arena_of(t, g, source@, paths));
    }
    t
}

/// The syntax tree of `source` in the grammar.
pub fn get_tree(source: &str, grammar: Grammar) -> (r: SyntaxTree)
    ensures
        r.wf(),
        r.texts_from(source@),
        is_syntax_of(r, grammar, source@),
{
    match parse_source(source, grammar) {
        Some(tree) => {
            let root = root_node(&tree);
            to_arena(root, source)
        },
        None => {
            proof {
                assert(false);
            }
            SyntaxTree { nodes: Vec::new() }
        },
    }
}

} // verus!
