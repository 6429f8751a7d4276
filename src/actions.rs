use vstd::prelude::*;

use crate::document::Document;
use crate::pattern::{captures, opt_text, regex_groups, regex_replaced, replace_matches};
use crate::store::{DefinitionKind, DocumentStore, find_definition, find_method, located, method_located};
use crate::syntax::Point;
use crate::text::{append, chars_of, join, replace_all, replace_text, string_of};
use crate::tokens::{DrupalHook, DrupalRoute, Token, TokenData, TokenDataModel, route_parameters};

verus! {

// ---------------------------------------------------------------------------------------------
// Code action: placeholders of a translation string.

/// The pattern of a placeholder in a translation string.
pub open spec fn placeholder_pattern() -> Seq<char> {
    "(?<placeholder>[@%:]\\w+)"@
}

/// `'p' => ''` for a placeholder `p`.
pub open spec fn placeholder_entry(p: Seq<char>) -> Seq<char> {
    "'"@ + p + "' => ''"@
}

/// The entries of the placeholders that matched, in order.
pub open spec fn placeholder_entries(gs: Seq<Option<Seq<char>>>) -> Seq<Seq<char>>
    decreases gs.len(),
{
    if gs.len() == 0 {
        Seq::empty()
    } else {
        placeholder_entries(gs.drop_last()) + match gs.last() {
            Some(p) => seq![placeholder_entry(p)],
            None => Seq::empty(),
        }
    }
}

/// The argument array that lists each placeholder of the translation string.
pub open spec fn placeholders_argument(s: Seq<char>) -> Seq<char> {
    ", ["@ + join(placeholder_entries(regex_groups(placeholder_pattern(), s, "placeholder"@)), ", "@) + "]"@
}

/// The argument array that lists each placeholder of the translation string with an empty
/// value: `, ['@name' => '', ...]`.
pub fn translation_placeholders(s: &str) -> (r: String)
    ensures
        r@ == placeholders_argument(s@),
{
    let found = captures("(?<placeholder>[@%:]\\w+)", s, "placeholder");
    let ghost gs = found@.map_values(|o: Option<String>| opt_text(o));
    let mut entries: Vec<Vec<char>> = Vec::new();
    let mut i: usize = 0;
    while i < found.len()
        invariant
            i <= found@.len(),
            gs == found@.map_values(|o: Option<String>| opt_text(o)),
            entries@.map_values(|l: Vec<char>| l@) == placeholder_entries(gs.subrange(0, i as int)),
        decreases found.len() - i,
    {
        assert(gs.subrange(0, i + 1).drop_last() =~= gs.subrange(0, i as int));
        assert(gs.subrange(0, i + 1).last() == opt_text(found@[i as int]));
        match &found[i] {
            Some(p) => {
                let mut e = chars_of("'");
                let pc = chars_of(p.as_str());
                append(&mut e, pc.as_slice());
                let tail = chars_of("' => ''");
                append(&mut e, tail.as_slice());
                let ghost before = entries@;
                entries.push(e);
                assert(entries@.map_values(|l: Vec<char>| l@) =~= before.map_values(|l: Vec<char>| l@).push(e@));
                assert(e@ =~= placeholder_entry(p@));
            },
            None => {
                assert(placeholder_entries(gs.subrange(0, i + 1)) =~= placeholder_entries(gs.subrange(0, i as int)));
            },
        }
        i = i + 1;
    }
    assert(gs.subrange(0, i as int) =~= gs);
    let mut out = chars_of(", [");
    let body = crate::text::join_with(&entries, ", ");
    append(&mut out, body.as_slice());
    let close = chars_of("]");
    append(&mut out, close.as_slice());
    string_of(out.as_slice())
}

/// Where the placeholders of a translation string go: just before the call's closing
/// parenthesis, which ends the token's span.
pub open spec fn placeholders_position(end: Point) -> Point {
    Point { row: end.row, column: if end.column > 0 { (end.column - 1) as usize } else { 0 } }
}

/// The edit that adds the placeholders of the translation string under the cursor: where
/// to insert, and what.
pub fn translation_code_action(token: &Token) -> (r: Option<(Point, String)>)
    ensures
        match token@.data {
            TokenDataModel::TranslationString { string, .. } => r matches Some(e) && e.0 == placeholders_position(
                token.range.end_point,
            ) && e.1@ == placeholders_argument(string),
            _ => r is None,
        },
{
    match &token.data {
        TokenData::DrupalTranslationString(t) => {
            let end = token.range.end_point;
            let column = if end.column > 0 { end.column - 1 } else { 0 };
            Some((Point { row: end.row, column }, translation_placeholders(t.string.as_str())))
        },
        _ => None,
    }
}

// ---------------------------------------------------------------------------------------------
// Definition.

/// The definition that a reference token points at, by the kind of the reference.
pub open spec fn definition_lookup(docs: Seq<Document>, t: crate::tokens::TokenModel) -> Option<(DefinitionKind, Seq<char>)> {
    match t.data {
        TokenDataModel::ClassReference(c) => Some((DefinitionKind::Class, c)),
        TokenDataModel::ServiceReference(n) => Some((DefinitionKind::Service, n)),
        TokenDataModel::RouteReference(n) => Some((DefinitionKind::Route, n)),
        TokenDataModel::HookReference(n) => Some((DefinitionKind::Hook, n)),
        TokenDataModel::PermissionReference(n) => Some((DefinitionKind::Permission, n)),
        _ => None,
    }
}

/// The definition of the symbol that the token refers to: classes, services, routes, hooks
/// and permissions by name, methods within their class. Other tokens have none.
pub fn provide_definition_for_token<'a>(store: &'a DocumentStore, token: &Token) -> (r: Option<(&'a Document, &'a Token)>)
    ensures
        match token@.data {
            TokenDataModel::MethodReference(m) => method_located(store.documents(), r, find_method(store.documents(), m)),
            _ => match definition_lookup(store.documents(), token@) {
                Some((kind, name)) => located(store.documents(), r, find_definition(store.documents(), kind, name)),
                None => r is None,
            },
        },
{
    match &token.data {
        TokenData::PhpClassReference(class) => store.get_class_definition(class),
        TokenData::PhpMethodReference(method) => store.get_method_definition(method),
        TokenData::DrupalServiceReference(name) => store.get_service_definition(name.as_str()),
        TokenData::DrupalRouteReference(name) => store.get_route_definition(name.as_str()),
        TokenData::DrupalHookReference(name) => store.get_hook_definition(name.as_str()),
        TokenData::DrupalPermissionReference(name) => store.get_permission_definition(name.as_str()),
        _ => None,
    }
}

// ---------------------------------------------------------------------------------------------
// Completion texts.

/// `'p' => $p` for a route parameter `p`.
pub open spec fn parameter_entry(p: Seq<char>) -> Seq<char> {
    "'"@ + p + "' => $"@ + p
}

/// The parameter array that a route's path asks for: empty for a path without `{segment}`s,
/// else `, ['a' => $a, ...]`.
pub open spec fn route_parameters_argument(path: Seq<char>) -> Seq<char> {
    let ps = route_parameters(path);
    if ps.len() == 0 {
        Seq::empty()
    } else {
        ", ["@ + join(ps.map_values(|p: Seq<char>| parameter_entry(p)), ", "@) + "]"@
    }
}

/// The parameter array that a route's path asks for.
pub fn route_parameters_text(route: &DrupalRoute) -> (r: String)
    ensures
        r@ == route_parameters_argument(route.path@),
{
    let ps = route.get_route_parameters();
    let ghost pv = ps@.map_values(|s: String| s@);
    if ps.len() == 0 {
        proof {
            reveal_strlit("");
        }
        return string_of(chars_of("").as_slice());
    }
    let mut entries: Vec<Vec<char>> = Vec::new();
    let mut i: usize = 0;
    while i < ps.len()
        invariant
            i <= ps@.len(),
            pv == ps@.map_values(|s: String| s@),
            entries@.map_values(|l: Vec<char>| l@) == pv.subrange(0, i as int).map_values(|p: Seq<char>| parameter_entry(p)),
        decreases ps.len() - i,
    {
        let mut e = chars_of("'");
        let pc = chars_of(ps[i].as_str());
        append(&mut e, pc.as_slice());
        let mid = chars_of("' => $");
        append(&mut e, mid.as_slice());
        append(&mut e, pc.as_slice());
        assert(e@ =~= parameter_entry(pv[i as int]));
        let ghost before = entries@;
        entries.push(e);
        assert(entries@.map_values(|l: Vec<char>| l@) =~= before.map_values(|l: Vec<char>| l@).push(e@));
        assert(pv.subrange(0, i + 1).map_values(|p: Seq<char>| parameter_entry(p)) =~= pv.subrange(0, i as int).map_values(|p: Seq<char>| parameter_entry(p)).push(parameter_entry(pv[i as int])));
        i = i + 1;
    }
    assert(pv.subrange(0, i as int) =~= pv);
    let mut out = chars_of(", [");
    let body = crate::text::join_with(&entries, ", ");
    append(&mut out, body.as_slice());
    let close = chars_of("]");
    append(&mut out, close.as_slice());
    string_of(out.as_slice())
}

/// The pattern of a `fromRoute('name', [...])` call on a line.
pub open spec fn from_route_pattern() -> Seq<char> {
    "(?<method>.*fromRoute\\(')(?<name>[^']*)'(?<params>, \\[.*\\])?"@
}

/// The length in characters of the first match's group, or 0.
pub open spec fn group_length(gs: Seq<Option<Seq<char>>>) -> nat {
    match crate::extract::first_group(gs) {
        Some(g) => g.len(),
        None => 0,
    }
}

/// The lengths in characters of the parts of a `fromRoute('name', [...])` call on a line: everything up
/// to and with the opening quote, the name, and the parameter array (0 where absent).
pub fn from_route_spans(line: &str) -> (r: (usize, usize, usize))
    ensures
        r.0 == group_length(regex_groups(from_route_pattern(), line@, "method"@)),
        r.1 == group_length(regex_groups(from_route_pattern(), line@, "name"@)),
        r.2 == group_length(regex_groups(from_route_pattern(), line@, "params"@)),
{
    let method = first_group_len(&captures("(?<method>.*fromRoute\\(')(?<name>[^']*)'(?<params>, \\[.*\\])?", line, "method"));
    let name = first_group_len(&captures("(?<method>.*fromRoute\\(')(?<name>[^']*)'(?<params>, \\[.*\\])?", line, "name"));
    let params = first_group_len(&captures("(?<method>.*fromRoute\\(')(?<name>[^']*)'(?<params>, \\[.*\\])?", line, "params"));
    (method, name, params)
}

fn first_group_len(found: &Vec<Option<String>>) -> (r: usize)
    ensures
        r == group_length(found@.map_values(|o: Option<String>| opt_text(o))),
{
    if found.len() == 0 {
        return 0;
    }
    assert(found@.map_values(|o: Option<String>| opt_text(o))[0] == opt_text(found@[0]));
    match &found[0] {
        Some(g) => {
            let c = chars_of(g.as_str());
            c.len()
        },
        None => 0,
    }
}

/// The pattern of an upper-case placeholder in a hook's name.
pub open spec fn hook_placeholder_pattern() -> Seq<char> {
    "([A-Z][A-Z_]+[A-Z])"@
}

/// The implementation skeleton of a hook in the module `module`: the hook's upper-case
/// placeholders become snippet fields and `$` in its parameters is escaped.
pub open spec fn hook_snippet_text(name: Seq<char>, parameters: Option<Seq<char>>, module: Seq<char>) -> Seq<char> {
    let suffix = regex_replaced(hook_placeholder_pattern(), replace_all(name, "hook_"@, Seq::empty()), "$${$1}"@);
    let params = match parameters {
        Some(p) => p,
        None => Seq::empty(),
    };
    "/**\n * Implements "@ + name + "().\n */\nfunction "@ + module + "_"@ + suffix + "("@ + replace_all(
        params,
        "$"@,
        "\\$"@,
    ) + ") {\n  $0\n}"@
}

/// The implementation skeleton of a hook in the module `module`.
pub fn hook_snippet(hook: &DrupalHook, module: &str) -> (r: String)
    ensures
        r@ == hook_snippet_text(hook.name@, opt_text(hook.parameters), module@),
{
    proof {
        reveal_strlit("");
    }
    let empty = chars_of("");
    let name = chars_of(hook.name.as_str());
    let bare = replace_text(name.as_slice(), "hook_", empty.as_slice());
    let bare_s = string_of(bare.as_slice());
    let suffix = replace_matches("([A-Z][A-Z_]+[A-Z])", bare_s.as_str(), "$${$1}");
    let params = match &hook.parameters {
        Some(p) => chars_of(p.as_str()),
        None => chars_of(""),
    };
    let dollar = chars_of("\\$");
    let escaped = replace_text(params.as_slice(), "$", dollar.as_slice());
    let mut out = chars_of("/**\n * Implements ");
    append(&mut out, name.as_slice());
    let a = chars_of("().\n */\nfunction ");
    append(&mut out, a.as_slice());
    let m = chars_of(module);
    append(&mut out, m.as_slice());
    let u = chars_of("_");
    append(&mut out, u.as_slice());
    let sfx = chars_of(suffix.as_str());
    append(&mut out, sfx.as_slice());
    let open = chars_of("(");
    append(&mut out, open.as_slice());
    append(&mut out, escaped.as_slice());
    let close = chars_of(") {\n  $0\n}");
    append(&mut out, close.as_slice());
    proof {
        assert(empty@ =~= Seq::<char>::empty());
    }
    string_of(out.as_slice())
}

} // verus!
