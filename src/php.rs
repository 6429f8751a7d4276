use vstd::prelude::*;

use crate::extract::{
    first_group, kind_of, node_chars, node_string, opt_token, prev_sibling_of_kind,
    sibling_before_of_kind, tok, txt,
};
use crate::grammar::{Grammar, get_tree, is_syntax_of};
use crate::pattern::{captures, opt_text, regex_groups};
use crate::syntax::{Point, SyntaxTree, first_in, get_closest_parent_by_kind, get_node_at_position};
use crate::text::{
    append, chars_of, contains, contains_seq, ends_with, find, first_occurrence, has_prefix,
    has_suffix, is_text, join, join_with, lines, matches_at, occurs_at, slice_of, split_lines,
    starts_with, string_of, trim, trim_chars, trim_whitespace, whitespace,
};
use crate::tokens::{
    ClassAttribute, ClassModel, DrupalHook, DrupalPlugin, DrupalPluginReference, DrupalPluginType,
    DrupalTranslationString, MethodModel, PhpClass, PhpClassName, PhpMethod, PluginModel, Token,
    TokenData, TokenDataModel, TokenModel, attribute_opt, canonical_class_name, class_opt,
    method_slot, plugin_type_of, tokens_view,
};

verus! {

/// Reads tokens out of source text in the imperative language.
pub struct PhpParser {
    source: String,
}

// ---------------------------------------------------------------------------------------------
// What each node yields.

/// The pattern that finds the plugin label of an annotation in a doc comment.
pub open spec fn plugin_label_pattern() -> Seq<char> {
    "\\*\\s*@(?<type>.+)\\("@
}

/// The pattern that finds the plugin id of an annotation in a doc comment.
pub open spec fn plugin_id_pattern() -> Seq<char> {
    "id\\s*=\\s*\"(?<id>[^\"]+)\""@
}

/// The pattern of the comment leader at the start of a line of a doc comment.
pub open spec fn comment_leader_pattern() -> Seq<char> {
    "^(?<lead>\\s*\\*\\s?)"@
}

/// The qualified name of a class declaration: the name of the nearest earlier namespace
/// definition, a backslash, and the class's own name.
pub open spec fn class_name_of(t: SyntaxTree, i: int) -> Option<Seq<char>> {
    if kind_of(t, i) != "class_declaration"@ {
        None
    } else {
        match sibling_before_of_kind(t, i, "namespace_definition"@) {
            None => None,
            Some(ns) => match t.field_child(ns, "name"@) {
                None => None,
                Some(nn) => match t.field_child(i, "name"@) {
                    None => None,
                    Some(cn) => Some(canonical_class_name(txt(t, nn) + seq!['\\'] + txt(t, cn))),
                },
            },
        }
    }
}

pub open spec fn method_definition(t: SyntaxTree, i: int) -> Option<TokenModel> {
    if kind_of(t, i) != "method_declaration"@ {
        None
    } else {
        match t.ancestor_of_kind(i, "class_declaration"@) {
            None => None,
            Some(c) => match t.field_child(i, "name"@) {
                None => None,
                Some(nm) => Some(tok(t, i, TokenDataModel::MethodDefinition(MethodModel {
                    name: txt(t, nm),
                    class_name: class_name_of(t, c),
                    service_name: None,
                }))),
            },
        }
    }
}

/// `s` without one opening parenthesis at its start and one closing parenthesis at its end.
pub open spec fn strip_outer_parens(s: Seq<char>) -> Seq<char> {
    let a = if s.len() > 0 && s[0] == '(' {
        s.drop_first()
    } else {
        s
    };
    if a.len() > 0 && a.last() == ')' {
        a.drop_last()
    } else {
        a
    }
}

/// A function whose name starts with `hook` defines a hook.
pub open spec fn hook_definition(t: SyntaxTree, i: int) -> Option<TokenModel> {
    if kind_of(t, i) != "function_definition"@ {
        None
    } else {
        match t.field_child(i, "name"@) {
            None => None,
            Some(nm) => if has_prefix(txt(t, nm), "hook"@) {
                match t.field_child(i, "parameters"@) {
                    None => None,
                    Some(ps) => Some(tok(t, i, TokenDataModel::HookDefinition {
                        name: txt(t, nm),
                        parameters: Some(strip_outer_parens(txt(t, ps))),
                    })),
                }
            } else {
                None
            },
        }
    }
}

/// A comment saying `Implements hook_X()` refers to the hook `hook_X`.
pub open spec fn hook_reference(t: SyntaxTree, i: int) -> Option<TokenModel> {
    let s = txt(t, i);
    if kind_of(t, i) != "comment"@ || !contains_seq(s, "Implements hook_"@) {
        None
    } else {
        match first_occurrence(s, "hook_"@) {
            None => None,
            Some(a) => match first_occurrence(s.subrange(a, s.len() as int), "()"@) {
                None => None,
                Some(e) => Some(tok(t, i, TokenDataModel::HookReference(s.subrange(a, a + e)))),
            },
        }
    }
}

/// The reference that a call with method name `name` and string argument `s` makes.
pub open spec fn call_table(t: SyntaxTree, i: int, name: Seq<char>, s: Seq<char>) -> Option<TokenModel> {
    if name == "fromRoute"@ || name == "createFromRoute"@ || name == "setRedirect"@ {
        Some(tok(t, i, TokenDataModel::RouteReference(s)))
    } else if name == "service"@ {
        Some(tok(t, i, TokenDataModel::ServiceReference(s)))
    } else if name == "hasPermission"@ {
        Some(tok(t, i, TokenDataModel::PermissionReference(s)))
    } else if name == "get"@ {
        match t.field_child(i, "object"@) {
            None => None,
            Some(o) => if txt(t, o) == "$container"@ {
                Some(tok(t, i, TokenDataModel::ServiceReference(s)))
            } else if contains_seq(txt(t, o), "queueFactory"@) {
                Some(tok(t, i, TokenDataModel::PluginReference { plugin_type: DrupalPluginType::QueueWorker, plugin_id: s }))
            } else {
                None
            },
        }
    } else if name == "getStorage"@ {
        match t.field_child(i, "object"@) {
            None => None,
            Some(o) => if contains_seq(txt(t, o), "entityTypeManager"@) {
                Some(tok(t, i, TokenDataModel::PluginReference { plugin_type: DrupalPluginType::EntityType, plugin_id: s }))
            } else {
                None
            },
        }
    } else if name == "create"@ {
        match t.field_child(i, "scope"@) {
            None => None,
            Some(o) => if contains_seq(txt(t, o), "BaseFieldDefinition"@) {
                Some(tok(t, i, TokenDataModel::PluginReference { plugin_type: DrupalPluginType::FieldType, plugin_id: s }))
            } else if contains_seq(txt(t, o), "DataDefinition"@) {
                Some(tok(t, i, TokenDataModel::PluginReference { plugin_type: DrupalPluginType::DataType, plugin_id: s }))
            } else {
                None
            },
        }
    } else if name == "queue"@ {
        Some(tok(t, i, TokenDataModel::PluginReference { plugin_type: DrupalPluginType::QueueWorker, plugin_id: s }))
    } else if name == "t"@ {
        Some(tok(t, i, TokenDataModel::TranslationString { string: s, placeholders: None }))
    } else {
        None
    }
}

/// The reference that a call expression makes, seen from the point `p`: only a call whose
/// string argument holds the point makes one, except a method called on
/// `\Drupal::service(...)`, which refers to that service's method.
pub open spec fn call_reference(t: SyntaxTree, i: int, p: Option<Point>) -> Option<TokenModel> {
    match p {
        None => None,
        Some(pt) => {
            let sc = t.descendant_at(i, pt);
            let name_node = if kind_of(t, i) == "function_call_expression"@ {
                t.field_child(i, "function"@)
            } else {
                t.field_child(i, "name"@)
            };
            match name_node {
                None => None,
                Some(nn) => {
                    let name = txt(t, nn);
                    let member = kind_of(t, i) == "member_call_expression"@;
                    if member && t.field_child(i, "object"@) is None {
                        None
                    } else if member && contains_seq(txt(t, t.field_child(i, "object"@)->Some_0), "Drupal::service"@) {
                        match t.field_child(t.field_child(i, "object"@)->Some_0, "arguments"@) {
                            None => None,
                            Some(a) => Some(tok(t, i, TokenDataModel::MethodReference(MethodModel {
                                name,
                                class_name: None,
                                service_name: Some(trim(txt(t, a), seq!['\'', '(', ')'])),
                            }))),
                        }
                    } else if kind_of(t, sc) != "string_content"@ {
                        None
                    } else {
                        call_table(t, i, name, txt(t, sc))
                    }
                },
            }
        },
    }
}

/// A line of a doc comment without its leading `*`.
pub open spec fn strip_leader(l: Seq<char>) -> Seq<char> {
    match first_group(regex_groups(comment_leader_pattern(), l, "lead"@)) {
        Some(g) => if has_prefix(l, g) {
            l.subrange(g.len() as int, l.len() as int)
        } else {
            l
        },
        None => l,
    }
}

/// The code between `@code` and `@endcode` of a doc comment, with comment leaders and the
/// closing line removed.
pub open spec fn usage_example(t: SyntaxTree, i: int) -> Option<Seq<char>> {
    let s = txt(t, i);
    if kind_of(t, i) != "comment"@ {
        None
    } else {
        match (first_occurrence(s, "@code"@), first_occurrence(s, "@endcode"@)) {
            (Some(a), Some(b)) => if b > a {
                let ex = trim(s.subrange(a + 5, b), whitespace());
                let ls = lines(ex).map_values(|l: Seq<char>| strip_leader(l));
                let kept = if ls.len() > 0 {
                    ls.drop_last()
                } else {
                    ls
                };
                Some(trim(join(kept, "\n"@), whitespace()))
            } else {
                None
            },
            _ => None,
        }
    }
}

/// A plugin declared by annotation in the doc comment `i`.
pub open spec fn comment_plugin(t: SyntaxTree, i: int) -> Option<PluginModel> {
    let s = txt(t, i);
    let ty = match first_group(regex_groups(plugin_label_pattern(), s, "type"@)) {
        Some(l) => plugin_type_of(l),
        None => None,
    };
    match (ty, first_group(regex_groups(plugin_id_pattern(), s, "id"@))) {
        (Some(ty), Some(id)) => Some(PluginModel { plugin_type: ty, plugin_id: id, usage_example: usage_example(t, i) }),
        _ => None,
    }
}

/// The plugin id given among the arguments of an attribute, from the `k`-th named argument
/// on: a quoted first argument, or an `id` argument. `None` where an argument is malformed.
pub open spec fn attribute_id(t: SyntaxTree, ps: int, k: int, acc: Seq<char>) -> Option<Seq<char>>
    decreases t.nodes@[ps].child_count - k,
{
    if k < 0 || k >= t.nodes@[ps].child_count {
        Some(acc)
    } else {
        match t.spec_named_child(ps, k) {
            None => Some(acc),
            Some(arg) => {
                let a = txt(t, arg);
                if has_prefix(a, "'"@) && has_suffix(a, "'"@) {
                    Some(trim(a, seq!['"', '\'']))
                } else {
                    match t.field_child(arg, "name"@) {
                        None => None,
                        Some(an) => if txt(t, an) == "id"@ {
                            match t.spec_named_child(arg, 1) {
                                None => None,
                                Some(v) => attribute_id(t, ps, k + 1, trim(txt(t, v), seq!['"', '\''])),
                            }
                        } else {
                            attribute_id(t, ps, k + 1, acc)
                        },
                    }
                }
            },
        }
    }
}

/// The doc comment before the class that carries the attribute `i`.
pub open spec fn attribute_comment(t: SyntaxTree, i: int) -> Option<int> {
    match t.nodes@[i].parent {
        None => None,
        Some(a) => match t.nodes@[a as int].parent {
            None => None,
            Some(b) => match t.nodes@[b as int].parent {
                None => None,
                Some(c) => t.spec_prev_named_sibling(c as int),
            },
        },
    }
}

/// A plugin declared by the attribute node `i`.
pub open spec fn attribute_plugin(t: SyntaxTree, i: int) -> Option<PluginModel> {
    if kind_of(t, i) != "attribute"@ {
        None
    } else {
        match t.field_child(i, "parameters"@) {
            None => None,
            Some(ps) => match attribute_id(t, ps, 0, Seq::empty()) {
                None => None,
                Some(id) => match t.child_at(i, 0) {
                    None => None,
                    Some(c0) => match plugin_type_of(txt(t, c0)) {
                        None => None,
                        Some(ty) => match attribute_comment(t, i) {
                            None => None,
                            Some(cm) => Some(PluginModel { plugin_type: ty, plugin_id: id, usage_example: usage_example(t, cm) }),
                        },
                    },
                },
            },
        }
    }
}

/// The plugin of the first attribute among the children of the group `g`, from its `k`-th
/// child on, whose label is a plugin kind.
pub open spec fn plugin_in_group(t: SyntaxTree, g: int, k: int) -> Option<PluginModel>
    decreases t.nodes@[g].child_count - k,
{
    if k < 0 || k >= t.nodes@[g].child_count {
        None
    } else {
        match attribute_plugin(t, t.nodes@[g].first_child + k) {
            Some(p) => Some(p),
            None => plugin_in_group(t, g, k + 1),
        }
    }
}

/// The plugin of the first attribute, over the groups of the attribute list `l` from its
/// `k`-th child on, whose label is a plugin kind.
pub open spec fn plugin_in_list(t: SyntaxTree, l: int, k: int) -> Option<PluginModel>
    decreases t.nodes@[l].child_count - k,
{
    if k < 0 || k >= t.nodes@[l].child_count {
        None
    } else {
        match plugin_in_group(t, t.nodes@[l].first_child + k, 0) {
            Some(p) => Some(p),
            None => plugin_in_list(t, l, k + 1),
        }
    }
}

/// The plugin attribute of class `i`: from its attribute list, the first attribute whose
/// label is a plugin kind; without one, from the doc comment before it. The outer option
/// is always present.
pub open spec fn class_attribute(t: SyntaxTree, i: int) -> Option<Option<PluginModel>> {
    match t.field_child(i, "attributes"@) {
        Some(a) => Some(plugin_in_list(t, a, 0)),
        None => match t.spec_prev_named_sibling(i) {
            Some(cm) => if kind_of(t, cm) == "comment"@ {
                Some(comment_plugin(t, cm))
            } else {
                Some(None)
            },
            None => Some(None),
        },
    }
}

pub open spec fn same_name_pred(ms: Seq<(crate::syntax::Range, MethodModel)>, name: Seq<char>) -> spec_fn(int) -> bool {
    |j: int| ms[j].1.name == name
}

/// Adds a method to a class's methods, in place of one of the same name.
pub open spec fn insert_method(
    ms: Seq<(crate::syntax::Range, MethodModel)>,
    e: (crate::syntax::Range, MethodModel),
) -> Seq<(crate::syntax::Range, MethodModel)> {
    match first_in(0, ms.len() as int, same_name_pred(ms, e.1.name)) {
        Some(j) => ms.update(j, e),
        None => ms.push(e),
    }
}

/// The methods among the first `k` children of the class body `b`.
pub open spec fn methods_upto(t: SyntaxTree, b: int, k: int) -> Seq<(crate::syntax::Range, MethodModel)>
    decreases k,
{
    if k <= 0 {
        Seq::empty()
    } else {
        let prev = methods_upto(t, b, k - 1);
        match method_definition(t, t.nodes@[b].first_child + k - 1) {
            Some(m) => match m.data {
                TokenDataModel::MethodDefinition(md) => insert_method(prev, (m.range, md)),
                _ => prev,
            },
            None => prev,
        }
    }
}

pub open spec fn class_methods(t: SyntaxTree, i: int) -> Seq<(crate::syntax::Range, MethodModel)> {
    match t.field_child(i, "body"@) {
        None => Seq::empty(),
        Some(b) => methods_upto(t, b, t.nodes@[b].child_count as int),
    }
}

pub open spec fn class_definition(t: SyntaxTree, i: int) -> Option<TokenModel> {
    match class_attribute(t, i) {
        None => None,
        Some(attribute) => match class_name_of(t, i) {
            None => None,
            Some(name) => Some(tok(t, i, TokenDataModel::ClassDefinition(ClassModel {
                name,
                attribute,
                methods: class_methods(t, i),
            }))),
        },
    }
}

/// The token that node `i` yields, if any; `p` is the cursor, if there is one.
pub open spec fn php_node_token(t: SyntaxTree, i: int, p: Option<Point>) -> Option<TokenModel> {
    let k = kind_of(t, i);
    if k == "class_declaration"@ {
        class_definition(t, i)
    } else if k == "method_declaration"@ {
        if p is Some {
            method_definition(t, i)
        } else {
            None
        }
    } else if k == "scoped_call_expression"@ || k == "member_call_expression"@ || k == "function_call_expression"@ {
        call_reference(t, i, p)
    } else if k == "function_definition"@ {
        hook_definition(t, i)
    } else if k == "comment"@ {
        hook_reference(t, i)
    } else {
        None
    }
}

/// Is node `i` met by the breadth-first walk? The walk does not descend into error nodes
/// nor into nodes that yielded a token.
pub open spec fn php_reached(t: SyntaxTree, i: int) -> bool
    decreases i,
{
    if i <= 0 {
        true
    } else {
        match t.nodes@[i].parent {
            Some(q) => if q < i {
                php_reached(t, q as int) && !t.nodes@[q as int].is_error && php_node_token(t, q as int, None) is None
            } else {
                false
            },
            None => false,
        }
    }
}

pub open spec fn php_emits(t: SyntaxTree, i: int) -> bool {
    php_reached(t, i) && !t.nodes@[i].is_error && php_node_token(t, i, None) is Some
}

/// The tokens of the first `k` nodes, in breadth-first order.
pub open spec fn php_extracted(t: SyntaxTree, k: int) -> Seq<TokenModel>
    decreases k,
{
    if k <= 0 {
        Seq::empty()
    } else {
        php_extracted(t, k - 1) + if php_emits(t, k - 1) {
            seq![php_node_token(t, k - 1, None)->Some_0]
        } else {
            Seq::empty()
        }
    }
}

/// The first token yielded on the way up from node `i` to the root.
pub open spec fn php_ascend(t: SyntaxTree, i: int, p: Point) -> Option<TokenModel>
    decreases i,
{
    if !(0 <= i < t.len()) {
        None
    } else {
        match php_node_token(t, i, Some(p)) {
            Some(x) => Some(x),
            None => match t.nodes@[i].parent {
                Some(q) => if q < i {
                    php_ascend(t, q as int, p)
                } else {
                    None
                },
                None => None,
            },
        }
    }
}


// ---------------------------------------------------------------------------------------------
// Executable extraction.

proof fn lemma_lit_parens()
    ensures
        "()"@ == seq!['(', ')'],
        "'()"@ == seq!['\'', '(', ')'],
        "\"'"@ == seq!['"', '\''],
        "'"@ == seq!['\''],
{
    reveal_strlit("()");
    reveal_strlit("'()");
    reveal_strlit("\"'");
    reveal_strlit("'");
    assert("()"@ =~= seq!['(', ')']);
    assert("'()"@ =~= seq!['\'', '(', ')']);
    assert("\"'"@ =~= seq!['"', '\'']);
    assert("'"@ =~= seq!['\'']);
}

proof fn lemma_code_markers(s: Seq<char>, a: int, b: int)
    requires
        occurs_at(s, "@code"@, a),
        occurs_at(s, "@endcode"@, b),
        b > a,
    ensures
        a + 5 <= b,
{
    reveal_strlit("@code");
    reveal_strlit("@endcode");
    if b < a + 5 {
        assert(s.subrange(a, a + 5)[b - a] == s[b]);
        assert(s.subrange(b, b + 8)[0] == s[b]);
    }
}

pub open spec fn opt_chars(o: Option<Vec<char>>) -> Option<Seq<char>> {
    match o {
        Some(v) => Some(v@),
        None => None,
    }
}

/// The first group of the first match, as characters.
pub fn first_group_chars(found: &Vec<Option<String>>) -> (r: Option<Vec<char>>)
    ensures
        opt_chars(r) == first_group(found@.map_values(|o: Option<String>| opt_text(o))),
{
    if found.len() == 0 {
        return None;
    }
    assert(found@.map_values(|o: Option<String>| opt_text(o))[0] == opt_text(found@[0]));
    match &found[0] {
        Some(g) => Some(chars_of(g.as_str())),
        None => None,
    }
}

fn class_name_from_node(t: &SyntaxTree, i: usize) -> (r: Option<PhpClassName>)
    requires
        t.wf(),
        i < t.len(),
    ensures
        class_opt(r) == class_name_of(*t, i as int),
{
    if !t.kind_is(i, "class_declaration") {
        return None;
    }
    let ns = match prev_sibling_of_kind(t, i, "namespace_definition") {
        None => {
            return None;
        },
        Some(n) => n,
    };
    let nn = match t.child_by_field_name(ns, "name") {
        None => {
            return None;
        },
        Some(n) => n,
    };
    let cn = match t.child_by_field_name(i, "name") {
        None => {
            return None;
        },
        Some(n) => n,
    };
    let mut v = node_chars(t, nn);
    v.push('\\');
    append(&mut v, t.nodes[cn].text.as_slice());
    assert(v@ =~= txt(*t, nn as int) + seq!['\\'] + txt(*t, cn as int));
    Some(PhpClassName::from_chars(v.as_slice()))
}

fn parse_method_declaration(t: &SyntaxTree, i: usize) -> (r: Option<Token>)
    requires
        t.wf(),
        i < t.len(),
    ensures
        opt_token(r) == method_definition(*t, i as int),
        r matches Some(x) ==> x.data is PhpMethodDefinition,
{
    if !t.kind_is(i, "method_declaration") {
        return None;
    }
    let class_node = match get_closest_parent_by_kind(t, i, "class_declaration") {
        None => {
            return None;
        },
        Some(c) => c,
    };
    let name_node = match t.child_by_field_name(i, "name") {
        None => {
            return None;
        },
        Some(n) => n,
    };
    Some(Token::new(
        TokenData::PhpMethodDefinition(PhpMethod {
            name: node_string(t, name_node),
            class_name: class_name_from_node(t, class_node),
            service_name: None,
        }),
        t.nodes[i].range,
    ))
}

fn strip_parens(s: &[char]) -> (r: Vec<char>)
    ensures
        r@ == strip_outer_parens(s@),
{
    let lo: usize = if s.len() > 0 && s[0] == '(' { 1 } else { 0 };
    let hi: usize = if s.len() > lo && s[s.len() - 1] == ')' { s.len() - 1 } else { s.len() };
    let r = slice_of(s, lo, hi);
    proof {
        let a = if s@.len() > 0 && s@[0] == '(' { s@.drop_first() } else { s@ };
        assert(a =~= s@.subrange(lo as int, s@.len() as int));
        if a.len() > 0 && a.last() == ')' {
            assert(a.drop_last() =~= s@.subrange(lo as int, hi as int));
        } else {
            assert(a =~= s@.subrange(lo as int, hi as int));
        }
    }
    r
}

fn parse_function_definition(t: &SyntaxTree, i: usize) -> (r: Option<Token>)
    requires
        t.wf(),
        i < t.len(),
    ensures
        opt_token(r) == hook_definition(*t, i as int),
{
    if !t.kind_is(i, "function_definition") {
        return None;
    }
    let name_node = match t.child_by_field_name(i, "name") {
        None => {
            return None;
        },
        Some(n) => n,
    };
    if !starts_with(t.nodes[name_node].text.as_slice(), "hook") {
        return None;
    }
    let params = match t.child_by_field_name(i, "parameters") {
        None => {
            return None;
        },
        Some(n) => n,
    };
    let inner = strip_parens(t.nodes[params].text.as_slice());
    Some(Token::new(
        TokenData::DrupalHookDefinition(DrupalHook {
            name: node_string(t, name_node),
            parameters: Some(string_of(inner.as_slice())),
        }),
        t.nodes[i].range,
    ))
}

fn parse_comment(t: &SyntaxTree, i: usize) -> (r: Option<Token>)
    requires
        t.wf(),
        i < t.len(),
    ensures
        opt_token(r) == hook_reference(*t, i as int),
{
    if !t.kind_is(i, "comment") {
        return None;
    }
    let s = &t.nodes[i].text;
    if !contains(s.as_slice(), "Implements hook_") {
        return None;
    }
    let hook = chars_of("hook_");
    let a = match find(s.as_slice(), hook.as_slice()) {
        None => {
            return None;
        },
        Some(a) => a,
    };
    let rest = slice_of(s.as_slice(), a, s.len());
    let parens = chars_of("()");
    let e = match find(rest.as_slice(), parens.as_slice()) {
        None => {
            return None;
        },
        Some(e) => e,
    };
    assert(occurs_at(rest@, parens@, e as int));
    let name = slice_of(s.as_slice(), a, a + e);
    assert(name@ =~= s@.subrange(a as int, a + e));
    Some(Token::new(TokenData::DrupalHookReference(string_of(name.as_slice())), t.nodes[i].range))
}

fn call_table_token(t: &SyntaxTree, i: usize, name: &Vec<char>, sc: usize) -> (r: Option<Token>)
    requires
        t.wf(),
        i < t.len(),
        sc < t.len(),
    ensures
        opt_token(r) == call_table(*t, i as int, name@, txt(*t, sc as int)),
{
    let range = t.nodes[i].range;
    let n = name.as_slice();
    if is_text(n, "fromRoute") || is_text(n, "createFromRoute") || is_text(n, "setRedirect") {
        Some(Token::new(TokenData::DrupalRouteReference(node_string(t, sc)), range))
    } else if is_text(n, "service") {
        Some(Token::new(TokenData::DrupalServiceReference(node_string(t, sc)), range))
    } else if is_text(n, "hasPermission") {
        Some(Token::new(TokenData::DrupalPermissionReference(node_string(t, sc)), range))
    } else if is_text(n, "get") {
        let o = match t.child_by_field_name(i, "object") {
            None => {
                return None;
            },
            Some(o) => o,
        };
        if is_text(t.nodes[o].text.as_slice(), "$container") {
            Some(Token::new(TokenData::DrupalServiceReference(node_string(t, sc)), range))
        } else if contains(t.nodes[o].text.as_slice(), "queueFactory") {
            Some(Token::new(
                TokenData::DrupalPluginReference(DrupalPluginReference {
                    plugin_type: DrupalPluginType::QueueWorker,
                    plugin_id: node_string(t, sc),
                }),
                range,
            ))
        } else {
            None
        }
    } else if is_text(n, "getStorage") {
        let o = match t.child_by_field_name(i, "object") {
            None => {
                return None;
            },
            Some(o) => o,
        };
        if contains(t.nodes[o].text.as_slice(), "entityTypeManager") {
            Some(Token::new(
                TokenData::DrupalPluginReference(DrupalPluginReference {
                    plugin_type: DrupalPluginType::EntityType,
                    plugin_id: node_string(t, sc),
                }),
                range,
            ))
        } else {
            None
        }
    } else if is_text(n, "create") {
        let o = match t.child_by_field_name(i, "scope") {
            None => {
                return None;
            },
            Some(o) => o,
        };
        if contains(t.nodes[o].text.as_slice(), "BaseFieldDefinition") {
            Some(Token::new(
                TokenData::DrupalPluginReference(DrupalPluginReference {
                    plugin_type: DrupalPluginType::FieldType,
                    plugin_id: node_string(t, sc),
                }),
                range,
            ))
        } else if contains(t.nodes[o].text.as_slice(), "DataDefinition") {
            Some(Token::new(
                TokenData::DrupalPluginReference(DrupalPluginReference {
                    plugin_type: DrupalPluginType::DataType,
                    plugin_id: node_string(t, sc),
                }),
                range,
            ))
        } else {
            None
        }
    } else if is_text(n, "queue") {
        Some(Token::new(
            TokenData::DrupalPluginReference(DrupalPluginReference {
                plugin_type: DrupalPluginType::QueueWorker,
                plugin_id: node_string(t, sc),
            }),
            range,
        ))
    } else if is_text(n, "t") {
        Some(Token::new(
            TokenData::DrupalTranslationString(DrupalTranslationString {
                string: node_string(t, sc),
                placeholders: None,
            }),
            range,
        ))
    } else {
        None
    }
}

fn parse_call_expression(t: &SyntaxTree, i: usize, point: Option<Point>) -> (r: Option<Token>)
    requires
        t.wf(),
        i < t.len(),
    ensures
        opt_token(r) == call_reference(*t, i as int, point),
{
    let pt = match point {
        None => {
            return None;
        },
        Some(p) => p,
    };
    let sc = t.descendant_for_point(i, pt);
    let name_node = if t.kind_is(i, "function_call_expression") {
        t.child_by_field_name(i, "function")
    } else {
        t.child_by_field_name(i, "name")
    };
    let nn = match name_node {
        None => {
            return None;
        },
        Some(n) => n,
    };
    let name = node_chars(t, nn);
    if t.kind_is(i, "member_call_expression") {
        let o = match t.child_by_field_name(i, "object") {
            None => {
                return None;
            },
            Some(o) => o,
        };
        if contains(t.nodes[o].text.as_slice(), "Drupal::service") {
            let a = match t.child_by_field_name(o, "arguments") {
                None => {
                    return None;
                },
                Some(a) => a,
            };
            proof {
                lemma_lit_parens();
            }
            let service = trim_chars(t.nodes[a].text.as_slice(), "'()");
            return Some(Token::new(
                TokenData::PhpMethodReference(PhpMethod {
                    name: string_of(name.as_slice()),
                    class_name: None,
                    service_name: Some(string_of(service.as_slice())),
                }),
                t.nodes[i].range,
            ));
        }
    }
    if !t.kind_is(sc, "string_content") {
        return None;
    }
    call_table_token(t, i, &name, sc)
}

fn strip_comment_leader(l: &Vec<char>) -> (r: Vec<char>)
    ensures
        r@ == strip_leader(l@),
{
    let text = string_of(l.as_slice());
    let found = captures("^(?<lead>\\s*\\*\\s?)", text.as_str(), "lead");
    let whole = slice_of(l.as_slice(), 0, l.len());
    assert(l@.subrange(0, l@.len() as int) == l@);
    match first_group_chars(&found) {
        Some(g) => {
            if matches_at(l.as_slice(), g.as_slice(), 0) {
                slice_of(l.as_slice(), g.len(), l.len())
            } else {
                whole
            }
        },
        None => whole,
    }
}

fn extract_usage_example_from_comment(t: &SyntaxTree, i: usize) -> (r: Option<String>)
    requires
        t.wf(),
        i < t.len(),
    ensures
        opt_text(r) == usage_example(*t, i as int),
{
    if !t.kind_is(i, "comment") {
        return None;
    }
    let s = &t.nodes[i].text;
    let start_tag = chars_of("@code");
    let end_tag = chars_of("@endcode");
    let a = match find(s.as_slice(), start_tag.as_slice()) {
        None => {
            return None;
        },
        Some(a) => a,
    };
    let b = match find(s.as_slice(), end_tag.as_slice()) {
        None => {
            return None;
        },
        Some(b) => b,
    };
    if b <= a {
        return None;
    }
    proof {
        lemma_code_markers(s@, a as int, b as int);
    }
    let body = slice_of(s.as_slice(), a + 5, b);
    let example = trim_whitespace(body.as_slice());
    let ls = split_lines(example.as_slice());
    let ghost want = lines(example@).map_values(|l: Seq<char>| strip_leader(l));
    let mut cleaned: Vec<Vec<char>> = Vec::new();
    let mut k: usize = 0;
    while k < ls.len()
        invariant
            k <= ls@.len(),
            ls@.map_values(|l: Vec<char>| l@) == lines(example@),
            want == lines(example@).map_values(|l: Seq<char>| strip_leader(l)),
            cleaned@.map_values(|l: Vec<char>| l@) == want.subrange(0, k as int),
        decreases ls.len() - k,
    {
        let c = strip_comment_leader(&ls[k]);
        proof {
            assert(ls@.map_values(|l: Vec<char>| l@)[k as int] == ls@[k as int]@);
            assert(want[k as int] == c@);
        }
        let ghost before = cleaned@;
        cleaned.push(c);
        proof {
            assert(cleaned@.map_values(|l: Vec<char>| l@) =~= before.map_values(|l: Vec<char>| l@).push(c@));
            assert(want.subrange(0, k + 1) =~= want.subrange(0, k as int).push(c@));
        }
        k = k + 1;
    }
    assert(want.subrange(0, k as int) =~= want);
    if cleaned.len() > 0 {
        let ghost before = cleaned@;
        cleaned.pop();
        assert(cleaned@.map_values(|l: Vec<char>| l@) =~= want.drop_last());
    }
    let joined = join_with(&cleaned, "\n");
    let result = trim_whitespace(joined.as_slice());
    Some(string_of(result.as_slice()))
}

fn comment_plugin_of(t: &SyntaxTree, i: usize) -> (r: Option<DrupalPlugin>)
    requires
        t.wf(),
        i < t.len(),
    ensures
        match r {
            Some(p) => comment_plugin(*t, i as int) == Some(p@),
            None => comment_plugin(*t, i as int) is None,
        },
{
    let text = node_string(t, i);
    let labels = captures("\\*\\s*@(?<type>.+)\\(", text.as_str(), "type");
    let ty = match first_group_chars(&labels) {
        Some(l) => match DrupalPluginType::from_chars(l.as_slice()) {
            Ok(ty) => Some(ty),
            Err(_) => None,
        },
        None => None,
    };
    let ids = captures("id\\s*=\\s*\"(?<id>[^\"]+)\"", text.as_str(), "id");
    let id = first_group_chars(&ids);
    match (ty, id) {
        (Some(ty), Some(id)) => Some(DrupalPlugin {
            plugin_type: ty,
            plugin_id: string_of(id.as_slice()),
            usage_example: extract_usage_example_from_comment(t, i),
        }),
        _ => None,
    }
}

fn attribute_plugin_id(t: &SyntaxTree, ps: usize) -> (r: Option<Vec<char>>)
    requires
        t.wf(),
        ps < t.len(),
    ensures
        opt_chars(r) == attribute_id(*t, ps as int, 0, Seq::empty()),
{
    let n = t.nodes[ps].child_count;
    let mut acc: Vec<char> = Vec::new();
    let mut k: usize = 0;
    proof {
        lemma_lit_parens();
    }
    while k < n
        invariant
            t.wf(),
            ps < t.len(),
            n == t.nodes@[ps as int].child_count,
            k <= n,
            attribute_id(*t, ps as int, 0, Seq::empty()) == attribute_id(*t, ps as int, k as int, acc@),
            "\"'"@ == seq!['"', '\''],
            "'"@ == seq!['\''],
        decreases n - k,
    {
        let arg = match t.named_child(ps, k) {
            None => {
                return Some(acc);
            },
            Some(a) => a,
        };
        let a = &t.nodes[arg].text;
        if starts_with(a.as_slice(), "'") && ends_with(a.as_slice(), "'") {
            return Some(trim_chars(a.as_slice(), "\"'"));
        }
        let an = match t.child_by_field_name(arg, "name") {
            None => {
                return None;
            },
            Some(x) => x,
        };
        if is_text(t.nodes[an].text.as_slice(), "id") {
            let v = match t.named_child(arg, 1) {
                None => {
                    return None;
                },
                Some(v) => v,
            };
            acc = trim_chars(t.nodes[v].text.as_slice(), "\"'");
        }
        k = k + 1;
    }
    Some(acc)
}

fn attribute_comment_node(t: &SyntaxTree, i: usize) -> (r: Option<usize>)
    requires
        t.wf(),
        i < t.len(),
    ensures
        r matches Some(c) ==> attribute_comment(*t, i as int) == Some(c as int) && (c as int) < t.len(),
        r is None ==> attribute_comment(*t, i as int) is None,
{
    let a = match t.nodes[i].parent {
        None => {
            return None;
        },
        Some(a) => a,
    };
    if a >= t.nodes.len() {
        return None;
    }
    let b = match t.nodes[a].parent {
        None => {
            return None;
        },
        Some(b) => b,
    };
    if b >= t.nodes.len() {
        return None;
    }
    let c = match t.nodes[b].parent {
        None => {
            return None;
        },
        Some(c) => c,
    };
    if c >= t.nodes.len() {
        return None;
    }
    t.prev_named_sibling(c)
}

fn parse_class_attribute(t: &SyntaxTree, i: usize) -> (r: Option<ClassAttribute>)
    requires
        t.wf(),
        i < t.len(),
    ensures
        attribute_opt(r) == attribute_plugin(*t, i as int),
{
    if !t.kind_is(i, "attribute") {
        return None;
    }
    let ps = match t.child_by_field_name(i, "parameters") {
        None => {
            return None;
        },
        Some(p) => p,
    };
    let id = match attribute_plugin_id(t, ps) {
        None => {
            return None;
        },
        Some(id) => id,
    };
    let c0 = match t.child(i, 0) {
        None => {
            return None;
        },
        Some(c) => c,
    };
    let ty = match DrupalPluginType::from_chars(t.nodes[c0].text.as_slice()) {
        Err(_) => {
            return None;
        },
        Ok(ty) => ty,
    };
    let cm = match attribute_comment_node(t, i) {
        None => {
            return None;
        },
        Some(c) => c,
    };
    Some(ClassAttribute::Plugin(DrupalPlugin {
        plugin_type: ty,
        plugin_id: string_of(id.as_slice()),
        usage_example: extract_usage_example_from_comment(t, cm),
    }))
}

fn attribute_in_group(t: &SyntaxTree, g: usize) -> (r: Option<ClassAttribute>)
    requires
        t.wf(),
        g < t.len(),
    ensures
        attribute_opt(r) == plugin_in_group(*t, g as int, 0),
{
    let lo = t.nodes[g].first_child;
    let n = t.nodes[g].child_count;
    let mut k: usize = 0;
    while k < n
        invariant
            t.wf(),
            g < t.len(),
            lo == t.nodes@[g as int].first_child,
            n == t.nodes@[g as int].child_count,
            lo + n <= t.len(),
            k <= n,
            plugin_in_group(*t, g as int, 0) == plugin_in_group(*t, g as int, k as int),
        decreases n - k,
    {
        match parse_class_attribute(t, lo + k) {
            Some(x) => {
                return Some(x);
            },
            None => {},
        }
        k = k + 1;
    }
    None
}

fn attribute_in_list(t: &SyntaxTree, l: usize) -> (r: Option<ClassAttribute>)
    requires
        t.wf(),
        l < t.len(),
    ensures
        attribute_opt(r) == plugin_in_list(*t, l as int, 0),
{
    let lo = t.nodes[l].first_child;
    let n = t.nodes[l].child_count;
    let mut k: usize = 0;
    while k < n
        invariant
            t.wf(),
            l < t.len(),
            lo == t.nodes@[l as int].first_child,
            n == t.nodes@[l as int].child_count,
            lo + n <= t.len(),
            k <= n,
            plugin_in_list(*t, l as int, 0) == plugin_in_list(*t, l as int, k as int),
        decreases n - k,
    {
        match attribute_in_group(t, lo + k) {
            Some(x) => {
                return Some(x);
            },
            None => {},
        }
        k = k + 1;
    }
    None
}

fn class_attribute_of(t: &SyntaxTree, i: usize) -> (r: Option<Option<ClassAttribute>>)
    requires
        t.wf(),
        i < t.len(),
    ensures
        match r {
            Some(a) => class_attribute(*t, i as int) == Some(attribute_opt(a)),
            None => class_attribute(*t, i as int) is None,
        },
{
    match t.child_by_field_name(i, "attributes") {
        Some(a) => Some(attribute_in_list(t, a)),
        None => match t.prev_named_sibling(i) {
            Some(cm) => {
                if t.kind_is(cm, "comment") {
                    match comment_plugin_of(t, cm) {
                        Some(p) => Some(Some(ClassAttribute::Plugin(p))),
                        None => Some(None),
                    }
                } else {
                    Some(None)
                }
            },
            None => Some(None),
        },
    }
}

/// No two methods share a name.
pub open spec fn unique_method_names(ms: Seq<Token>) -> bool {
    forall|j: int, k: int|
        0 <= j < ms.len() && 0 <= k < ms.len() && j != k ==> method_slot(#[trigger] ms[j]).1.name != method_slot(
            #[trigger] ms[k],
        ).1.name
}

proof fn lemma_first_in_none(lo: int, hi: int, p: spec_fn(int) -> bool, k: int)
    requires
        first_in(lo, hi, p) is None,
        lo <= k < hi,
    ensures
        !p(k),
    decreases hi - lo,
{
    if lo < k {
        lemma_first_in_none(lo + 1, hi, p, k);
    }
}

pub open spec fn all_methods(ms: Seq<Token>) -> bool {
    forall|k: int| 0 <= k < ms.len() ==> (#[trigger] ms[k]).data is PhpMethodDefinition
}

fn method_name_of(t: &Token) -> (r: String)
    requires
        t.data is PhpMethodDefinition,
    ensures
        r@ == method_slot(*t).1.name,
{
    match &t.data {
        TokenData::PhpMethodDefinition(m) => m.name.clone(),
        _ => String::new(),
    }
}

/// Adds a method token, in place of the one of the same name if there is one.
fn insert_method_token(methods: &mut Vec<Token>, token: Token)
    requires
        token.data is PhpMethodDefinition,
        all_methods(old(methods)@),
        unique_method_names(old(methods)@),
    ensures
        all_methods(final(methods)@),
        unique_method_names(final(methods)@),
        final(methods)@.map_values(|x: Token| method_slot(x)) == insert_method(
            old(methods)@.map_values(|x: Token| method_slot(x)),
            method_slot(token),
        ),
{
    let name = method_name_of(&token);
    let ghost ms = methods@.map_values(|x: Token| method_slot(x));
    let ghost pr = same_name_pred(ms, method_slot(token).1.name);
    let mut j: usize = 0;
    while j < methods.len()
        invariant
            methods@ == old(methods)@,
            ms == old(methods)@.map_values(|x: Token| method_slot(x)),
            pr == same_name_pred(ms, method_slot(token).1.name),
            name@ == method_slot(token).1.name,
            token.data is PhpMethodDefinition,
            all_methods(methods@),
            unique_method_names(methods@),
            j <= methods@.len(),
            first_in(0, ms.len() as int, pr) == first_in(j as int, ms.len() as int, pr),
        decreases methods.len() - j,
    {
        let hit = method_name_of(&methods[j]) == name;
        assert(ms[j as int] == method_slot(methods@[j as int]));
        if hit {
            let ghost before = methods@;
            let ghost tk = token;
            methods.set(j, token);
            proof {
                assert(methods@ == before.update(j as int, tk));
                assert(methods@[j as int] == tk);
                assert(methods@.map_values(|x: Token| method_slot(x)) =~= ms.update(j as int, method_slot(token)));
                assert forall|k: int| 0 <= k < methods@.len() implies (#[trigger] methods@[k]).data is PhpMethodDefinition by {
                    if k != j {
                        assert(methods@[k] == before[k]);
                        assert(all_methods(before));
                        assert(before[k].data is PhpMethodDefinition);
                    } else {
                        assert(methods@[k] == tk);
                        assert(tk.data is PhpMethodDefinition);
                    }
                }
                assert(method_slot(before[j as int]).1.name == method_slot(tk).1.name);
                assert forall|a: int, b: int|
                    0 <= a < methods@.len() && 0 <= b < methods@.len() && a != b implies method_slot(
                        #[trigger] methods@[a],
                    ).1.name != method_slot(#[trigger] methods@[b]).1.name by {
                    if a == j {
                        assert(method_slot(before[b]).1.name != method_slot(before[a]).1.name);
                    } else if b == j {
                        assert(method_slot(before[a]).1.name != method_slot(before[b]).1.name);
                    } else {
                        assert(methods@[a] == before[a]);
                        assert(methods@[b] == before[b]);
                    }
                }
            }
            return;
        }
        j = j + 1;
    }
    let ghost before = methods@;
    let ghost tk = token;
    methods.push(token);
    proof {
        assert(methods@.map_values(|x: Token| method_slot(x)) =~= ms.push(method_slot(tk)));
        assert forall|a: int, b: int|
            0 <= a < methods@.len() && 0 <= b < methods@.len() && a != b implies method_slot(
                #[trigger] methods@[a],
            ).1.name != method_slot(#[trigger] methods@[b]).1.name by {
            if a == before.len() {
                lemma_first_in_none(0, ms.len() as int, pr, b);
                assert(ms[b] == method_slot(before[b]));
                assert(methods@[b] == before[b]);
            } else if b == before.len() {
                lemma_first_in_none(0, ms.len() as int, pr, a);
                assert(ms[a] == method_slot(before[a]));
                assert(methods@[a] == before[a]);
            } else {
                assert(methods@[a] == before[a]);
                assert(methods@[b] == before[b]);
            }
        }
        assert forall|k: int| 0 <= k < methods@.len() implies (#[trigger] methods@[k]).data is PhpMethodDefinition by {
            if k < before.len() {
                assert(methods@[k] == before[k]);
            }
        }
    }
}

fn class_methods_of(t: &SyntaxTree, i: usize) -> (r: Vec<Token>)
    requires
        t.wf(),
        i < t.len(),
    ensures
        r@.map_values(|x: Token| method_slot(x)) == class_methods(*t, i as int),
        all_methods(r@),
        unique_method_names(r@),
{
    let mut methods: Vec<Token> = Vec::new();
    let b = match t.child_by_field_name(i, "body") {
        None => {
            assert(methods@.map_values(|x: Token| method_slot(x)) =~= Seq::empty());
            return methods;
        },
        Some(b) => b,
    };
    let lo = t.nodes[b].first_child;
    let n = t.nodes[b].child_count;
    let mut k: usize = 0;
    assert(methods@.map_values(|x: Token| method_slot(x)) =~= Seq::empty());
    while k < n
        invariant
            t.wf(),
            b < t.len(),
            lo == t.nodes@[b as int].first_child,
            n == t.nodes@[b as int].child_count,
            lo + n <= t.len(),
            k <= n,
            all_methods(methods@),
            unique_method_names(methods@),
            methods@.map_values(|x: Token| method_slot(x)) == methods_upto(*t, b as int, k as int),
        decreases n - k,
    {
        match parse_method_declaration(t, lo + k) {
            Some(tk) => {
                insert_method_token(&mut methods, tk);
            },
            None => {},
        }
        k = k + 1;
    }
    methods
}

fn parse_class_declaration(t: &SyntaxTree, i: usize) -> (r: Option<Token>)
    requires
        t.wf(),
        i < t.len(),
    ensures
        opt_token(r) == class_definition(*t, i as int),
        r matches Some(x) ==> (x.data matches TokenData::PhpClassDefinition(c) && unique_method_names(c.methods@)),
{
    let methods = class_methods_of(t, i);
    let attribute = match class_attribute_of(t, i) {
        None => {
            return None;
        },
        Some(a) => a,
    };
    let name = match class_name_from_node(t, i) {
        None => {
            return None;
        },
        Some(n) => n,
    };
    Some(Token::new(
        TokenData::PhpClassDefinition(PhpClass { name, attribute, methods }),
        t.nodes[i].range,
    ))
}

/// The token that node `i` yields, if any; `point` is the cursor, if there is one.
pub fn parse_php_node(t: &SyntaxTree, i: usize, point: Option<Point>) -> (r: Option<Token>)
    requires
        t.wf(),
        i < t.len(),
    ensures
        opt_token(r) == php_node_token(*t, i as int, point),
{
    if t.kind_is(i, "class_declaration") {
        parse_class_declaration(t, i)
    } else if t.kind_is(i, "method_declaration") {
        match point {
            Some(_) => parse_method_declaration(t, i),
            None => None,
        }
    } else if t.kind_is(i, "scoped_call_expression") || t.kind_is(i, "member_call_expression")
        || t.kind_is(i, "function_call_expression") {
        parse_call_expression(t, i, point)
    } else if t.kind_is(i, "function_definition") {
        parse_function_definition(t, i)
    } else if t.kind_is(i, "comment") {
        parse_comment(t, i)
    } else {
        None
    }
}

/// The tokens of a syntax tree, in breadth-first order.
pub fn php_tokens(t: &SyntaxTree) -> (r: Vec<Token>)
    requires
        t.wf(),
    ensures
        tokens_view(r@) == php_extracted(*t, t.len()),
{
    let n = t.nodes.len();
    let mut opens: Vec<bool> = Vec::new();
    let mut out: Vec<Token> = Vec::new();
    let mut i: usize = 0;
    while i < n
        invariant
            t.wf(),
            n == t.len(),
            i <= n,
            opens@.len() == i,
            forall|k: int| 0 <= k < i ==> #[trigger] opens@[k] == (php_reached(*t, k) && !t.nodes@[k].is_error
                && php_node_token(*t, k, None) is None),
            tokens_view(out@) == php_extracted(*t, i as int),
        decreases n - i,
    {
        let reached = if i == 0 {
            true
        } else {
            match t.nodes[i].parent {
                Some(q) => q < i && opens[q],
                None => false,
            }
        };
        assert(reached == php_reached(*t, i as int));
        if reached && !t.nodes[i].is_error {
            match parse_php_node(t, i, None) {
                Some(x) => {
                    let ghost before = out@;
                    out.push(x);
                    assert(tokens_view(out@) =~= tokens_view(before).push(x@));
                    opens.push(false);
                },
                None => {
                    opens.push(true);
                },
            }
        } else {
            opens.push(false);
        }
        assert(php_extracted(*t, i + 1) == php_extracted(*t, i as int) + if php_emits(*t, i as int) {
            seq![php_node_token(*t, i as int, None)->Some_0]
        } else {
            Seq::<TokenModel>::empty()
        });
        assert(tokens_view(out@) =~= php_extracted(*t, i + 1));
        i = i + 1;
    }
    out
}

/// The token under the point: the first that a node yields on the way up from the smallest
/// node holding the point.
pub fn php_token_at(t: &SyntaxTree, p: Point) -> (r: Option<Token>)
    requires
        t.wf(),
    ensures
        opt_token(r) == php_ascend(*t, t.descendant_at(0, p), p),
{
    let mut cur = get_node_at_position(t, p);
    loop
        invariant
            t.wf(),
            cur < t.len(),
            php_ascend(*t, t.descendant_at(0, p), p) == php_ascend(*t, cur as int, p),
        decreases cur,
    {
        match parse_php_node(t, cur, Some(p)) {
            Some(x) => {
                return Some(x);
            },
            None => match t.nodes[cur].parent {
                Some(q) => {
                    if q < cur {
                        cur = q;
                    } else {
                        return None;
                    }
                },
                None => {
                    return None;
                },
            },
        }
    }
}

/// Are the tokens those that the extractor reads off the syntax tree of `source`?
pub open spec fn php_parse_of(tokens: Seq<TokenModel>, source: Seq<char>) -> bool {
    exists|t: SyntaxTree|
        t.wf() && is_syntax_of(t, Grammar::Php, source) && #[trigger] php_extracted(t, t.len()) == tokens
}

/// Is `r` the token under the point in the syntax tree of `source`?
pub open spec fn php_token_under(r: Option<TokenModel>, source: Seq<char>, p: Point) -> bool {
    exists|t: SyntaxTree|
        t.wf() && is_syntax_of(t, Grammar::Php, source) && #[trigger] php_ascend(t, t.descendant_at(0, p), p) == r
}

impl PhpParser {
    pub fn new(source: &str) -> (r: PhpParser)
        ensures
            r.source() == source@,
    {
        let c = chars_of(source);
        PhpParser { source: string_of(c.as_slice()) }
    }

    pub closed spec fn source(&self) -> Seq<char> {
        self.source@
    }

    /// The tokens of the source, as the extractor reads them off its syntax tree.
    pub fn get_tokens(&self) -> (r: Vec<Token>)
        ensures
            php_parse_of(tokens_view(r@), self.source()),
    {
        let t = get_tree(self.source.as_str(), Grammar::Php);
        let r = php_tokens(&t);
        assert(php_extracted(t, t.len()) == tokens_view(r@));
        r
    }

    /// The token under the cursor.
    pub fn get_token_at_position(&self, position: Point) -> (r: Option<Token>)
        ensures
            php_token_under(opt_token(r), self.source(), position),
    {
        let t = get_tree(self.source.as_str(), Grammar::Php);
        let r = php_token_at(&t, position);
        assert(php_ascend(t, t.descendant_at(0, position), position) == opt_token(r));
        r
    }
}

} // verus!
