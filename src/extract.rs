use vstd::prelude::*;

use crate::syntax::{Point, SyntaxTree, last_in};
use crate::text::{slice_of, string_of};
use crate::tokens::{Token, TokenDataModel, TokenModel};

verus! {

/// The text of node `i`.
pub open spec fn txt(t: SyntaxTree, i: int) -> Seq<char> {
    t.nodes@[i].text@
}

/// The kind of node `i`.
pub open spec fn kind_of(t: SyntaxTree, i: int) -> Seq<char> {
    t.nodes@[i].kind@
}

/// A token spanning node `i`.
pub open spec fn tok(t: SyntaxTree, i: int, d: TokenDataModel) -> TokenModel {
    TokenModel { range: t.nodes@[i].range, data: d }
}

pub open spec fn opt_token(o: Option<Token>) -> Option<TokenModel> {
    match o {
        Some(t) => Some(t@),
        None => None,
    }
}

/// The first group of the first match, if any.
pub open spec fn first_group(g: Seq<Option<Seq<char>>>) -> Option<Seq<char>> {
    if g.len() > 0 {
        g[0]
    } else {
        None
    }
}

/// The nearest earlier sibling of `i` of the given kind.
pub open spec fn sibling_before_of_kind(t: SyntaxTree, i: int, kind: Seq<char>) -> Option<int> {
    match t.nodes@[i].parent {
        Some(p) => last_in(t.nodes@[p as int].first_child as int, i, t.kind_pred(kind)),
        None => None,
    }
}

/// The text of node `i`, as a `String`.
pub fn node_string(t: &SyntaxTree, i: usize) -> (r: String)
    requires
        i < t.len(),
    ensures
        r@ == txt(*t, i as int),
{
    string_of(t.nodes[i].text.as_slice())
}

/// The text of node `i`, as characters.
pub fn node_chars(t: &SyntaxTree, i: usize) -> (r: Vec<char>)
    requires
        i < t.len(),
    ensures
        r@ == txt(*t, i as int),
{
    let v = &t.nodes[i].text;
    let r = slice_of(v.as_slice(), 0, v.len());
    assert(v@.subrange(0, v@.len() as int) == v@);
    r
}

/// The nearest earlier sibling of `i` of the given kind.
pub fn prev_sibling_of_kind(t: &SyntaxTree, i: usize, kind: &str) -> (r: Option<usize>)
    requires
        t.wf(),
        i < t.len(),
    ensures
        r matches Some(c) ==> sibling_before_of_kind(*t, i as int, kind@) == Some(c as int) && (c as int) < t.len(),
        r is None ==> sibling_before_of_kind(*t, i as int, kind@) is None,
{
    match t.nodes[i].parent {
        None => None,
        Some(p) => {
            let lo = t.nodes[p].first_child;
            let ghost pr = t.kind_pred(kind@);
            let mut c = i;
            while c > lo
                invariant
                    t.wf(),
                    i < t.len(),
                    lo <= c <= i || (c == i && i < lo),
                    t.nodes@[i as int].parent == Some(p),
                    lo == t.nodes@[p as int].first_child,
                    pr == t.kind_pred(kind@),
                    last_in(lo as int, i as int, pr) == last_in(lo as int, c as int, pr),
                decreases c,
            {
                if t.kind_is(c - 1, kind) {
                    return Some(c - 1);
                }
                c = c - 1;
            }
            None
        },
    }
}

} // verus!
