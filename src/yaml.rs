use vstd::prelude::*;

use crate::extract::{kind_of, node_string, opt_token, tok, txt};
use crate::grammar::{Grammar, get_tree, is_syntax_of};
use crate::syntax::{Point, SyntaxTree, get_node_at_position, last_in};
use crate::text::{chars_of, ends_with, has_suffix, is_text, remove_all, remove_char, string_of, trim, trim_chars};
use crate::tokens::{
    DrupalPermission, DrupalRoute, DrupalRouteDefaults, DrupalService, MethodModel, PhpClassName,
    PhpMethod, RouteDefaultsModel, Token, TokenData, TokenDataModel, TokenModel, canonical_class_name,
    class_opt, method_opt, split_method, tokens_view,
};
use crate::pattern::opt_text;

verus! {

/// Reads tokens out of source text in the configuration language.
pub struct YamlParser {
    source: String,
    uri: String,
}

/// The mapping node of a block node.
pub open spec fn block_map(t: SyntaxTree, v: int) -> Option<int> {
    if kind_of(t, v) != "block_node"@ {
        None
    } else {
        t.child_at(v, 0)
    }
}

pub open spec fn pair_pred(t: SyntaxTree, key: Seq<char>) -> spec_fn(int) -> bool {
    |c: int| {
        &&& t.field_child(c, "key"@) is Some
        &&& t.field_child(c, "value"@) is Some
        &&& txt(t, t.field_child(c, "key"@)->Some_0) == key
    }
}

/// The value under `key` in the mapping `m`; the last pair wins where a key repeats.
pub open spec fn map_get(t: SyntaxTree, m: int, key: Seq<char>) -> Option<int> {
    let n = t.nodes@[m];
    match last_in(n.first_child as int, n.first_child + n.child_count, pair_pred(t, key)) {
        Some(c) => t.field_child(c, "value"@),
        None => None,
    }
}

/// `Class::method` text as a method reference.
pub open spec fn method_from(s: Seq<char>) -> Option<MethodModel> {
    match split_method(s) {
        Some(p) => Some(MethodModel { name: p.1, class_name: Some(canonical_class_name(p.0)), service_name: None }),
        None => None,
    }
}

pub open spec fn route_defaults(t: SyntaxTree, d: int) -> Option<RouteDefaultsModel> {
    match block_map(t, d) {
        None => None,
        Some(m) => Some(RouteDefaultsModel {
            controller: match map_get(t, m, "_controller"@) {
                Some(c) => method_from(txt(t, c)),
                None => None,
            },
            form: match map_get(t, m, "_form"@) {
                Some(f) => Some(canonical_class_name(txt(t, f))),
                None => None,
            },
            entity_form: match map_get(t, m, "_form"@) {
                Some(f) => Some(txt(t, f)),
                None => None,
            },
            title: match map_get(t, m, "_title"@) {
                Some(f) => Some(txt(t, f)),
                None => None,
            },
        }),
    }
}

/// What a pair whose value is a mapping defines: the outer `None` where it defines nothing
/// and its key decides instead.
pub open spec fn mapping_definition(t: SyntaxTree, i: int, uri: Seq<char>, key: Seq<char>, vn: int) -> Option<Option<TokenModel>> {
    match block_map(t, vn) {
        None => None,
        Some(m) => if has_suffix(uri, ".permissions.yml"@) && map_get(t, m, "title"@) is Some {
            Some(Some(tok(t, i, TokenDataModel::PermissionDefinition {
                name: key,
                title: txt(t, map_get(t, m, "title"@)->Some_0),
            })))
        } else if map_get(t, m, "path"@) is Some && map_get(t, m, "defaults"@) is Some {
            match route_defaults(t, map_get(t, m, "defaults"@)->Some_0) {
                None => Some(None),
                Some(d) => Some(Some(tok(t, i, TokenDataModel::RouteDefinition {
                    name: key,
                    path: txt(t, map_get(t, m, "path"@)->Some_0),
                    defaults: d,
                }))),
            }
        } else {
            match map_get(t, m, "class"@) {
                Some(c) => Some(Some(tok(t, i, TokenDataModel::ServiceDefinition { name: key, class: canonical_class_name(txt(t, c)) }))),
                None => None,
            }
        },
    }
}

/// The reference that a pair makes through its key.
pub open spec fn key_reference(t: SyntaxTree, key: Seq<char>, vn: int, p: Option<Point>) -> Option<TokenModel> {
    let v = txt(t, vn);
    if key == "_controller"@ {
        match method_from(v) {
            Some(m) => Some(tok(t, vn, TokenDataModel::MethodReference(m))),
            None => None,
        }
    } else if key == "_form"@ || key == "class"@ {
        Some(tok(t, vn, TokenDataModel::ClassReference(canonical_class_name(v))))
    } else if key == "_permission"@ {
        Some(tok(t, vn, TokenDataModel::PermissionReference(remove_char(v, '\''))))
    } else if key == "route_name"@ {
        Some(tok(t, vn, TokenDataModel::RouteReference(remove_char(v, '\''))))
    } else if key == "arguments"@ {
        match p {
            None => None,
            Some(pt) => {
                let a = t.descendant_at(vn, pt);
                if kind_of(t, a) == "single_quote_scalar"@ {
                    Some(tok(t, vn, TokenDataModel::ServiceReference(trim(txt(t, a), seq!['\'', '@']))))
                } else {
                    None
                }
            },
        }
    } else {
        None
    }
}

/// The token that a mapping pair yields.
pub open spec fn pair_token(t: SyntaxTree, i: int, uri: Seq<char>, p: Option<Point>) -> Option<TokenModel> {
    match t.field_child(i, "key"@) {
        None => None,
        Some(kn) => match t.field_child(i, "value"@) {
            None => None,
            Some(vn) => match mapping_definition(t, i, uri, txt(t, kn), vn) {
                Some(res) => res,
                None => key_reference(t, txt(t, kn), vn, p),
            },
        },
    }
}

pub open spec fn yaml_node_token(t: SyntaxTree, i: int, uri: Seq<char>, p: Option<Point>) -> Option<TokenModel> {
    if kind_of(t, i) == "block_mapping_pair"@ {
        pair_token(t, i, uri, p)
    } else {
        None
    }
}

/// Is node `i` met by the breadth-first walk?
pub open spec fn yaml_reached(t: SyntaxTree, uri: Seq<char>, i: int) -> bool
    decreases i,
{
    if i <= 0 {
        true
    } else {
        match t.nodes@[i].parent {
            Some(q) => if q < i {
                yaml_reached(t, uri, q as int) && !t.nodes@[q as int].is_error
                    && yaml_node_token(t, q as int, uri, None) is None
            } else {
                false
            },
            None => false,
        }
    }
}

pub open spec fn yaml_emits(t: SyntaxTree, uri: Seq<char>, i: int) -> bool {
    yaml_reached(t, uri, i) && !t.nodes@[i].is_error && yaml_node_token(t, i, uri, None) is Some
}

/// The tokens of the first `k` nodes, in breadth-first order.
pub open spec fn yaml_extracted(t: SyntaxTree, uri: Seq<char>, k: int) -> Seq<TokenModel>
    decreases k,
{
    if k <= 0 {
        Seq::empty()
    } else {
        yaml_extracted(t, uri, k - 1) + if yaml_emits(t, uri, k - 1) {
            seq![yaml_node_token(t, k - 1, uri, None)->Some_0]
        } else {
            Seq::empty()
        }
    }
}

/// The first token yielded on the way up from node `i` to the root.
pub open spec fn yaml_ascend(t: SyntaxTree, uri: Seq<char>, i: int, p: Point) -> Option<TokenModel>
    decreases i,
{
    if !(0 <= i < t.len()) {
        None
    } else {
        match yaml_node_token(t, i, uri, Some(p)) {
            Some(x) => Some(x),
            None => match t.nodes@[i].parent {
                Some(q) => if q < i {
                    yaml_ascend(t, uri, q as int, p)
                } else {
                    None
                },
                None => None,
            },
        }
    }
}

/// Are the tokens those that the extractor reads off the syntax tree of `source`?
pub open spec fn yaml_parse_of(tokens: Seq<TokenModel>, uri: Seq<char>, source: Seq<char>) -> bool {
    exists|t: SyntaxTree|
        t.wf() && is_syntax_of(t, Grammar::Yaml, source) && #[trigger] yaml_extracted(t, uri, t.len()) == tokens
}

/// Is `r` the token under the point in the syntax tree of `source`?
pub open spec fn yaml_token_under(r: Option<TokenModel>, uri: Seq<char>, source: Seq<char>, p: Point) -> bool {
    exists|t: SyntaxTree|
        t.wf() && is_syntax_of(t, Grammar::Yaml, source) && #[trigger] yaml_ascend(t, uri, t.descendant_at(0, p), p) == r
}

proof fn lemma_lit_quotes()
    ensures
        "'@"@ == seq!['\'', '@'],
{
    reveal_strlit("'@");
    assert("'@"@ =~= seq!['\'', '@']);
}

fn block_node_map(t: &SyntaxTree, v: usize) -> (r: Option<usize>)
    requires
        t.wf(),
        v < t.len(),
    ensures
        r matches Some(m) ==> block_map(*t, v as int) == Some(m as int) && (m as int) < t.len(),
        r is None ==> block_map(*t, v as int) is None,
{
    if !t.kind_is(v, "block_node") {
        return None;
    }
    t.child(v, 0)
}

fn map_value(t: &SyntaxTree, m: usize, key: &str) -> (r: Option<usize>)
    requires
        t.wf(),
        m < t.len(),
    ensures
        r matches Some(c) ==> map_get(*t, m as int, key@) == Some(c as int) && (c as int) < t.len(),
        r is None ==> map_get(*t, m as int, key@) is None,
{
    let lo = t.nodes[m].first_child;
    let hi = lo + t.nodes[m].child_count;
    let ghost pr = pair_pred(*t, key@);
    let mut c = hi;
    while c > lo
        invariant
            t.wf(),
            m < t.len(),
            lo == t.nodes@[m as int].first_child,
            hi == lo + t.nodes@[m as int].child_count,
            hi <= t.len(),
            lo <= c <= hi,
            pr == pair_pred(*t, key@),
            last_in(lo as int, hi as int, pr) == last_in(lo as int, c as int, pr),
        decreases c,
    {
        let k = t.child_by_field_name(c - 1, "key");
        let v = t.child_by_field_name(c - 1, "value");
        match (k, v) {
            (Some(k), Some(v)) => {
                if is_text(t.nodes[k].text.as_slice(), key) {
                    return Some(v);
                }
            },
            _ => {},
        }
        c = c - 1;
    }
    None
}

fn method_from_text(t: &SyntaxTree, i: usize) -> (r: Option<PhpMethod>)
    requires
        i < t.len(),
    ensures
        method_opt(r) == method_from(txt(*t, i as int)),
{
    match PhpMethod::from_chars(t.nodes[i].text.as_slice()) {
        Ok(m) => Some(m),
        Err(_) => None,
    }
}

fn parse_route_defaults(t: &SyntaxTree, d: usize) -> (r: Option<DrupalRouteDefaults>)
    requires
        t.wf(),
        d < t.len(),
    ensures
        match r {
            Some(x) => route_defaults(*t, d as int) == Some(x@),
            None => route_defaults(*t, d as int) is None,
        },
{
    let m = match block_node_map(t, d) {
        None => {
            return None;
        },
        Some(m) => m,
    };
    let controller = match map_value(t, m, "_controller") {
        Some(c) => method_from_text(t, c),
        None => None,
    };
    let form = match map_value(t, m, "_form") {
        Some(f) => Some(PhpClassName::from_chars(t.nodes[f].text.as_slice())),
        None => None,
    };
    let entity_form = match map_value(t, m, "_form") {
        Some(f) => Some(node_string(t, f)),
        None => None,
    };
    let title = match map_value(t, m, "_title") {
        Some(f) => Some(node_string(t, f)),
        None => None,
    };
    Some(DrupalRouteDefaults { _controller: controller, _form: form, _entity_form: entity_form, _title: title })
}

fn parse_mapping_definition(t: &SyntaxTree, i: usize, uri: &Vec<char>, kn: usize, vn: usize) -> (r: Option<Option<Token>>)
    requires
        t.wf(),
        i < t.len(),
        kn < t.len(),
        vn < t.len(),
    ensures
        match r {
            Some(x) => mapping_definition(*t, i as int, uri@, txt(*t, kn as int), vn as int) == Some(opt_token(x)),
            None => mapping_definition(*t, i as int, uri@, txt(*t, kn as int), vn as int) is None,
        },
{
    let m = match block_node_map(t, vn) {
        None => {
            return None;
        },
        Some(m) => m,
    };
    let range = t.nodes[i].range;
    let title = if ends_with(uri.as_slice(), ".permissions.yml") {
        map_value(t, m, "title")
    } else {
        None
    };
    if let Some(ti) = title {
        Some(Some(Token::new(
            TokenData::DrupalPermissionDefinition(DrupalPermission {
                name: node_string(t, kn),
                title: node_string(t, ti),
            }),
            range,
        )))
    } else {
        let path = map_value(t, m, "path");
        let defaults = map_value(t, m, "defaults");
        match (path, defaults) {
            (Some(path), Some(defaults)) => match parse_route_defaults(t, defaults) {
                None => Some(None),
                Some(d) => Some(Some(Token::new(
                    TokenData::DrupalRouteDefinition(DrupalRoute {
                        name: node_string(t, kn),
                        path: node_string(t, path),
                        _defaults: d,
                    }),
                    range,
                ))),
            },
            _ => match map_value(t, m, "class") {
                Some(c) => Some(Some(Token::new(
                    TokenData::DrupalServiceDefinition(DrupalService {
                        name: node_string(t, kn),
                        class: PhpClassName::from_chars(t.nodes[c].text.as_slice()),
                    }),
                    range,
                ))),
                None => None,
            },
        }
    }
}

fn parse_key_reference(t: &SyntaxTree, kn: usize, vn: usize, point: Option<Point>) -> (r: Option<Token>)
    requires
        t.wf(),
        kn < t.len(),
        vn < t.len(),
    ensures
        opt_token(r) == key_reference(*t, txt(*t, kn as int), vn as int, point),
{
    let key = t.nodes[kn].text.as_slice();
    let v = t.nodes[vn].text.as_slice();
    let range = t.nodes[vn].range;
    if is_text(key, "_controller") {
        match method_from_text(t, vn) {
            Some(m) => Some(Token::new(TokenData::PhpMethodReference(m), range)),
            None => None,
        }
    } else if is_text(key, "_form") || is_text(key, "class") {
        Some(Token::new(TokenData::PhpClassReference(PhpClassName::from_chars(v)), range))
    } else if is_text(key, "_permission") {
        let s = remove_all(v, '\'');
        Some(Token::new(TokenData::DrupalPermissionReference(string_of(s.as_slice())), range))
    } else if is_text(key, "route_name") {
        let s = remove_all(v, '\'');
        Some(Token::new(TokenData::DrupalRouteReference(string_of(s.as_slice())), range))
    } else if is_text(key, "arguments") {
        match point {
            None => None,
            Some(pt) => {
                let a = t.descendant_for_point(vn, pt);
                if t.kind_is(a, "single_quote_scalar") {
                    proof {
                        lemma_lit_quotes();
                    }
                    let s = trim_chars(t.nodes[a].text.as_slice(), "'@");
                    Some(Token::new(TokenData::DrupalServiceReference(string_of(s.as_slice())), range))
                } else {
                    None
                }
            },
        }
    } else {
        None
    }
}

/// The token that node `i` yields, if any; `point` is the cursor, if there is one.
pub fn parse_yaml_node(t: &SyntaxTree, i: usize, uri: &Vec<char>, point: Option<Point>) -> (r: Option<Token>)
    requires
        t.wf(),
        i < t.len(),
    ensures
        opt_token(r) == yaml_node_token(*t, i as int, uri@, point),
{
    if !t.kind_is(i, "block_mapping_pair") {
        return None;
    }
    let kn = match t.child_by_field_name(i, "key") {
        None => {
            return None;
        },
        Some(k) => k,
    };
    let vn = match t.child_by_field_name(i, "value") {
        None => {
            return None;
        },
        Some(v) => v,
    };
    match parse_mapping_definition(t, i, uri, kn, vn) {
        Some(res) => res,
        None => parse_key_reference(t, kn, vn, point),
    }
}

/// The tokens of a syntax tree, in breadth-first order.
pub fn yaml_tokens(t: &SyntaxTree, uri: &Vec<char>) -> (r: Vec<Token>)
    requires
        t.wf(),
    ensures
        tokens_view(r@) == yaml_extracted(*t, uri@, t.len()),
{
    let n = t.nodes.len();
    let mut opens: Vec<bool> = Vec::new();
    let mut out: Vec<Token> = Vec::new();
    let mut i: usize = 0;
    while i < n
        invariant
            t.wf(),
            n == t.len(),
            i <= n,
            opens@.len() == i,
            forall|k: int| 0 <= k < i ==> #[trigger] opens@[k] == (yaml_reached(*t, uri@, k) && !t.nodes@[k].is_error
                && yaml_node_token(*t, k, uri@, None) is None),
            tokens_view(out@) == yaml_extracted(*t, uri@, i as int),
        decreases n - i,
    {
        let reached = if i == 0 {
            true
        } else {
            match t.nodes[i].parent {
                Some(q) => q < i && opens[q],
                None => false,
            }
        };
        assert(reached == yaml_reached(*t, uri@, i as int));
        if reached && !t.nodes[i].is_error {
            match parse_yaml_node(t, i, uri, None) {
                Some(x) => {
                    let ghost before = out@;
                    out.push(x);
                    assert(tokens_view(out@) =~= tokens_view(before).push(x@));
                    opens.push(false);
                },
                None => {
                    opens.push(true);
                },
            }
        } else {
            opens.push(false);
        }
        assert(yaml_extracted(*t, uri@, i + 1) == yaml_extracted(*t, uri@, i as int) + if yaml_emits(*t, uri@, i as int) {
            seq![yaml_node_token(*t, i as int, uri@, None)->Some_0]
        } else {
            Seq::<TokenModel>::empty()
        });
        assert(tokens_view(out@) =~= yaml_extracted(*t, uri@, i + 1));
        i = i + 1;
    }
    out
}

/// The token under the point: the first that a node yields on the way up from the smallest
/// node holding the point.
pub fn yaml_token_at(t: &SyntaxTree, uri: &Vec<char>, p: Point) -> (r: Option<Token>)
    requires
        t.wf(),
    ensures
        opt_token(r) == yaml_ascend(*t, uri@, t.descendant_at(0, p), p),
{
    let mut cur = get_node_at_position(t, p);
    loop
        invariant
            t.wf(),
            cur < t.len(),
            yaml_ascend(*t, uri@, t.descendant_at(0, p), p) == yaml_ascend(*t, uri@, cur as int, p),
        decreases cur,
    {
        match parse_yaml_node(t, cur, uri, Some(p)) {
            Some(x) => {
                return Some(x);
            },
            None => match t.nodes[cur].parent {
                Some(q) => {
                    if q < cur {
                        cur = q;
                    } else {
                        return None;
                    }
                },
                None => {
                    return None;
                },
            },
        }
    }
}

impl YamlParser {
    pub fn new(source: &str, uri: &str) -> (r: YamlParser)
        ensures
            r.source() == source@,
            r.uri() == uri@,
    {
        let s = chars_of(source);
        let u = chars_of(uri);
        YamlParser { source: string_of(s.as_slice()), uri: string_of(u.as_slice()) }
    }

    pub closed spec fn source(&self) -> Seq<char> {
        self.source@
    }

    pub closed spec fn uri(&self) -> Seq<char> {
        self.uri@
    }

    /// The tokens of the source, as the extractor reads them off its syntax tree.
    pub fn get_tokens(&self) -> (r: Vec<Token>)
        ensures
            yaml_parse_of(tokens_view(r@), self.uri(), self.source()),
    {
        let t = get_tree(self.source.as_str(), Grammar::Yaml);
        let uri = chars_of(self.uri.as_str());
        let r = yaml_tokens(&t, &uri);
        assert(yaml_extracted(t, self.uri(), t.len()) == tokens_view(r@));
        r
    }

    /// The token under the cursor.
    pub fn get_token_at_position(&self, position: Point) -> (r: Option<Token>)
        ensures
            yaml_token_under(opt_token(r), self.uri(), self.source(), position),
    {
        let t = get_tree(self.source.as_str(), Grammar::Yaml);
        let uri = chars_of(self.uri.as_str());
        let r = yaml_token_at(&t, &uri, position);
        assert(yaml_ascend(t, self.uri(), t.descendant_at(0, position), position) == opt_token(r));
        r
    }
}

} // verus!
