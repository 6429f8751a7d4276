use vstd::prelude::*;

use crate::document::{Document, is_uri, uri_length_ok};
use crate::store::{DefinitionKind, DocumentStore, find_definition};
use crate::text::{byte_range_text, byte_slice, chars_of, replace_all, replace_text, string_of, append};
use crate::tokens::{Token, TokenData, TokenDataModel, TokenModel, MethodModel};

verus! {

pub const CLASS_REFERENCE: &'static str = "\n# Class reference\n\n@see [@class_name](@class_name)\n";

pub const SERVICE_REFERENCE: &'static str = "\n# Service reference: @name\n\n*Implementation:*\n```yaml\n@definition\n```\n\n@see [@uri](@uri)\n";

pub const SERVICE_DEFINITION: &'static str = "\n# Service: @name\n\n*Class:* @class\n";

pub const ROUTE_REFERENCE: &'static str = "\n# Route reference: @name\n\n*Implementation:*\n```yaml\n@definition\n```\n\n@see [@uri](@uri)\n";

pub const ROUTE_DEFINITION: &'static str = "\n# Route: @name\n\n*Path:* @path\n";

pub const HOOK_REFERENCE: &'static str = "\n# Hook reference: @name\n\n*Implementation:*\n```yaml\n@definition\n```\n\n@see [@uri](@uri)\n";

pub const HOOK_DEFINITION: &'static str = "\n# Hook: @name\n\n```php\n<?php function @name(@parameters) {}\n```\n";

pub const PERMISSION_REFERENCE: &'static str = "\n# Permission reference: @name\n\n*Implementation:*\n```yaml\n@definition\n```\n\n@see [@uri](@uri)\n";

pub const PERMISSION_DEFINITION: &'static str = "\n# Permission: @name\nTitle: @title\n";

/// The name that a definition token defines.
pub open spec fn defined_name(t: TokenModel) -> Seq<char> {
    match t.data {
        TokenDataModel::ServiceDefinition { name, .. } => name,
        TokenDataModel::RouteDefinition { name, .. } => name,
        TokenDataModel::HookDefinition { name, .. } => name,
        TokenDataModel::PermissionDefinition { name, .. } => name,
        _ => Seq::empty(),
    }
}

/// The documentation of a reference: the template filled with the name, the URI and the
/// source text of the first definition.
pub open spec fn reference_documentation(
    docs: Seq<Document>,
    kind: DefinitionKind,
    name: Seq<char>,
    template: Seq<char>,
) -> Option<Seq<char>> {
    match find_definition(docs, kind, name) {
        None => None,
        Some((i, k)) => {
            let d = docs[i];
            let t = d.tokens@[k]@;
            if uri_length_ok(d.uri()) && is_uri(d.uri()) {
                let definition = byte_range_text(d.content@, t.range.start_byte as int, t.range.end_byte as int);
                Some(replace_all(
                    replace_all(replace_all(template, "@name"@, defined_name(t)), "@uri"@, d.uri()),
                    "@definition"@,
                    definition,
                ))
            } else {
                None
            }
        },
    }
}

/// The documentation of a method reference.
pub open spec fn method_documentation(m: MethodModel) -> Seq<char> {
    let class = match m.class_name {
        Some(c) => c,
        None => Seq::empty(),
    };
    "PHP Method reference\nclass: "@ + class + "\nmethod: "@ + m.name
}

/// The Markdown documentation of a token.
pub open spec fn documentation(docs: Seq<Document>, t: TokenModel) -> Option<Seq<char>> {
    match t.data {
        TokenDataModel::ClassReference(c) => Some(replace_all(CLASS_REFERENCE@, "@class_name"@, c)),
        TokenDataModel::MethodReference(m) => Some(method_documentation(m)),
        TokenDataModel::RouteReference(n) => reference_documentation(docs, DefinitionKind::Route, n, ROUTE_REFERENCE@),
        TokenDataModel::RouteDefinition { name, path, .. } => Some(
            replace_all(replace_all(ROUTE_DEFINITION@, "@name"@, name), "@path"@, path),
        ),
        TokenDataModel::ServiceReference(n) => reference_documentation(docs, DefinitionKind::Service, n, SERVICE_REFERENCE@),
        TokenDataModel::ServiceDefinition { name, class } => Some(
            replace_all(replace_all(SERVICE_DEFINITION@, "@name"@, name), "@class"@, class),
        ),
        TokenDataModel::HookReference(n) => reference_documentation(docs, DefinitionKind::Hook, n, HOOK_REFERENCE@),
        TokenDataModel::HookDefinition { name, parameters } => Some(
            replace_all(
                replace_all(HOOK_DEFINITION@, "@name"@, name),
                "@parameters"@,
                match parameters {
                    Some(p) => p,
                    None => Seq::empty(),
                },
            ),
        ),
        TokenDataModel::PermissionReference(n) => reference_documentation(
            docs,
            DefinitionKind::Permission,
            n,
            PERMISSION_REFERENCE@,
        ),
        TokenDataModel::PermissionDefinition { name, title } => Some(
            replace_all(replace_all(PERMISSION_DEFINITION@, "@name"@, name), "@title"@, title),
        ),
        _ => None,
    }
}

pub open spec fn opt_string(o: Option<String>) -> Option<Seq<char>> {
    match o {
        Some(s) => Some(s@),
        None => None,
    }
}

/// `template` with one placeholder filled.
fn fill(template: &[char], placeholder: &str, value: &str) -> (r: Vec<char>)
    ensures
        r@ == replace_all(template@, placeholder@, value@),
{
    let v = chars_of(value);
    replace_text(template, placeholder, v.as_slice())
}

fn reference_doc(store: &DocumentStore, kind: DefinitionKind, name: &str, template: &str) -> (r: Option<String>)
    ensures
        opt_string(r) == reference_documentation(store.documents(), kind, name@, template@),
{
    let (i, k) = match store.find(kind, name) {
        None => {
            return None;
        },
        Some(p) => p,
    };
    let d = &store.get_documents()[i];
    if !d.has_valid_uri() {
        return None;
    }
    let t = &d.tokens[k];
    let defined = match &t.data {
        TokenData::DrupalServiceDefinition(s) => chars_of(s.name.as_str()),
        TokenData::DrupalRouteDefinition(s) => chars_of(s.name.as_str()),
        TokenData::DrupalHookDefinition(s) => chars_of(s.name.as_str()),
        TokenData::DrupalPermissionDefinition(s) => chars_of(s.name.as_str()),
        _ => {
            proof {
                reveal_strlit("");
            }
            chars_of("")
        },
    };
    let definition = chars_of(byte_slice(d.content.as_str(), t.range.start_byte, t.range.end_byte));
    let t0 = chars_of(template);
    let t1 = replace_text(t0.as_slice(), "@name", defined.as_slice());
    let t2 = fill(t1.as_slice(), "@uri", d.uri_text());
    let t3 = replace_text(t2.as_slice(), "@definition", definition.as_slice());
    proof {
        let tm = store.documents()[i as int].tokens@[k as int]@;
        assert(defined@ == defined_name(tm));
        assert(t0@ == template@);
    }
    Some(string_of(t3.as_slice()))
}

/// The Markdown documentation of a token; references are documented from their first
/// definition in the store.
pub fn get_documentation_for_token(store: &DocumentStore, token: &Token) -> (r: Option<String>)
    ensures
        opt_string(r) == documentation(store.documents(), token@),
{
    match &token.data {
        TokenData::PhpClassReference(class) => {
            let t0 = chars_of(CLASS_REFERENCE);
            let out = fill(t0.as_slice(), "@class_name", class.as_str());
            Some(string_of(out.as_slice()))
        },
        TokenData::PhpMethodReference(method) => {
            let mut out = chars_of("PHP Method reference\nclass: ");
            match &method.class_name {
                Some(c) => {
                    let cc = chars_of(c.as_str());
                    append(&mut out, cc.as_slice());
                },
                None => {},
            }
            let tail = chars_of("\nmethod: ");
            append(&mut out, tail.as_slice());
            let nm = chars_of(method.name.as_str());
            append(&mut out, nm.as_slice());
            proof {
                match method@.class_name {
                    Some(c) => {
                        assert(out@ =~= "PHP Method reference\nclass: "@ + c + "\nmethod: "@ + method.name@);
                    },
                    None => {
                        assert(out@ =~= "PHP Method reference\nclass: "@ + Seq::<char>::empty() + "\nmethod: "@ + method.name@);
                    },
                }
            }
            Some(string_of(out.as_slice()))
        },
        TokenData::DrupalRouteReference(name) => reference_doc(store, DefinitionKind::Route, name.as_str(), ROUTE_REFERENCE),
        TokenData::DrupalRouteDefinition(route) => {
            let t0 = chars_of(ROUTE_DEFINITION);
            let t1 = fill(t0.as_slice(), "@name", route.name.as_str());
            let out = fill(t1.as_slice(), "@path", route.path.as_str());
            Some(string_of(out.as_slice()))
        },
        TokenData::DrupalServiceReference(name) => reference_doc(store, DefinitionKind::Service, name.as_str(), SERVICE_REFERENCE),
        TokenData::DrupalServiceDefinition(service) => {
            let t0 = chars_of(SERVICE_DEFINITION);
            let t1 = fill(t0.as_slice(), "@name", service.name.as_str());
            let out = fill(t1.as_slice(), "@class", service.class.as_str());
            Some(string_of(out.as_slice()))
        },
        TokenData::DrupalHookReference(name) => reference_doc(store, DefinitionKind::Hook, name.as_str(), HOOK_REFERENCE),
        TokenData::DrupalHookDefinition(hook) => {
            let t0 = chars_of(HOOK_DEFINITION);
            let t1 = fill(t0.as_slice(), "@name", hook.name.as_str());
            let params = match &hook.parameters {
                Some(p) => chars_of(p.as_str()),
                None => {
                    proof {
                        reveal_strlit("");
                        assert(""@ =~= Seq::<char>::empty());
                    }
                    chars_of("")
                },
            };
            assert(params@ == match token@.data {
                TokenDataModel::HookDefinition { parameters: Some(p), .. } => p,
                _ => Seq::<char>::empty(),
            });
            let out = replace_text(t1.as_slice(), "@parameters", params.as_slice());
            Some(string_of(out.as_slice()))
        },
        TokenData::DrupalPermissionReference(name) => reference_doc(
            store,
            DefinitionKind::Permission,
            name.as_str(),
            PERMISSION_REFERENCE,
        ),
        TokenData::DrupalPermissionDefinition(permission) => {
            let t0 = chars_of(PERMISSION_DEFINITION);
            let t1 = fill(t0.as_slice(), "@name", permission.name.as_str());
            let out = fill(t1.as_slice(), "@title", permission.title.as_str());
            Some(string_of(out.as_slice()))
        },
        _ => None,
    }
}

} // verus!
