use vstd::prelude::*;

use crate::actions::{
    from_route_pattern, from_route_spans, group_length, hook_snippet, hook_snippet_text,
    route_parameters_argument, route_parameters_text,
};
use crate::document::Document;
use crate::documentation::{documentation, get_documentation_for_token, opt_string};
use crate::pattern::{opt_text, regex_groups};
use crate::store::{DefinitionKind, DocumentStore, class_of, find_definition};
use crate::text::{
    append, chars_of, find, first_occurrence, is_text, lines, occurs_at, replace_all, replace_text, slice_of,
    split_lines, string_of,
};
use crate::tokens::{
    ClassAttribute, DrupalPluginType, PhpMethod, Token, TokenData, TokenDataModel, TokenModel,
    method_slot, plugin_type_name, tokens_view,
};

verus! {

/// Which definitions a completion lists.
#[derive(Clone, Copy, Debug, PartialEq, Eq, Structural)]
pub enum CompletionRequest {
    Routes,
    Services,
    Permissions,
    Plugins(DrupalPluginType),
    Hooks,
    Elements,
}

/// One completion item, in plain values.
#[derive(Debug)]
pub struct CompletionCandidate {
    pub label: String,
    pub description: String,
    pub documentation: Option<String>,
    /// The snippet to insert, where it is not the label.
    pub insert_text: Option<String>,
    /// For a route, the parameter array its path asks for.
    pub route_parameters: Option<String>,
}

pub struct CandidateModel {
    pub label: Seq<char>,
    pub description: Seq<char>,
    pub documentation: Option<Seq<char>>,
    pub insert_text: Option<Seq<char>>,
    pub route_parameters: Option<Seq<char>>,
}

impl View for CompletionCandidate {
    type V = CandidateModel;

    open spec fn view(&self) -> CandidateModel {
        CandidateModel {
            label: self.label@,
            description: self.description@,
            documentation: opt_text(self.documentation),
            insert_text: opt_text(self.insert_text),
            route_parameters: opt_text(self.route_parameters),
        }
    }
}

/// The request that a reference token under the cursor makes.
pub open spec fn request_of(t: TokenDataModel) -> Option<CompletionRequest> {
    match t {
        TokenDataModel::RouteReference(_) => Some(CompletionRequest::Routes),
        TokenDataModel::ServiceReference(_) => Some(CompletionRequest::Services),
        TokenDataModel::PermissionReference(_) => Some(CompletionRequest::Permissions),
        TokenDataModel::PluginReference { plugin_type, .. } => Some(CompletionRequest::Plugins(plugin_type)),
        _ => None,
    }
}

/// The request that a reference token under the cursor makes.
pub fn completion_request(token: &Token) -> (r: Option<CompletionRequest>)
    ensures
        r == request_of(token@.data),
{
    match &token.data {
        TokenData::DrupalRouteReference(_) => Some(CompletionRequest::Routes),
        TokenData::DrupalServiceReference(_) => Some(CompletionRequest::Services),
        TokenData::DrupalPermissionReference(_) => Some(CompletionRequest::Permissions),
        TokenData::DrupalPluginReference(p) => Some(CompletionRequest::Plugins(p.plugin_type)),
        _ => None,
    }
}

pub open spec fn cand(
    label: Seq<char>,
    description: Seq<char>,
    documentation: Option<Seq<char>>,
    insert_text: Option<Seq<char>>,
    route_parameters: Option<Seq<char>>,
) -> CandidateModel {
    CandidateModel { label, description, documentation, insert_text, route_parameters }
}

/// The snippet prefix of an element plugin kind.
pub open spec fn element_prefix(k: DrupalPluginType) -> Option<Seq<char>> {
    match k {
        DrupalPluginType::RenderElement => Some("render"@),
        DrupalPluginType::FormElement => Some("form"@),
        _ => None,
    }
}

/// The item that a token of the workspace gives for the request, if any.
pub open spec fn candidate_of(docs: Seq<Document>, req: CompletionRequest, module: Seq<char>, t: TokenModel) -> Option<CandidateModel> {
    match (req, t.data) {
        (CompletionRequest::Routes, TokenDataModel::RouteDefinition { name, path, .. }) => Some(
            cand(name, "Route"@, documentation(docs, t), None, Some(route_parameters_argument(path))),
        ),
        (CompletionRequest::Services, TokenDataModel::ServiceDefinition { name, .. }) => Some(
            cand(name, "Service"@, documentation(docs, t), None, None),
        ),
        (CompletionRequest::Permissions, TokenDataModel::PermissionDefinition { name, .. }) => Some(
            cand(name, "Permission"@, documentation(docs, t), None, None),
        ),
        (CompletionRequest::Plugins(k), TokenDataModel::ClassDefinition(c)) => match c.attribute {
            Some(p) => if p.plugin_type == k {
                Some(cand(p.plugin_id, plugin_type_name(k), documentation(docs, t), None, None))
            } else {
                None
            },
            None => None,
        },
        (CompletionRequest::Hooks, TokenDataModel::HookDefinition { name, parameters }) => Some(
            cand(name, "hook"@, documentation(docs, t), Some(hook_snippet_text(name, parameters, module)), None),
        ),
        (CompletionRequest::Elements, TokenDataModel::ClassDefinition(c)) => match c.attribute {
            Some(p) => match (element_prefix(p.plugin_type), p.usage_example) {
                (Some(prefix), Some(u)) => Some(
                    cand(prefix + "-"@ + p.plugin_id, Seq::empty(), None, Some(replace_all(u, "$"@, "\\$"@)), None),
                ),
                _ => None,
            },
            None => None,
        },
        _ => None,
    }
}

/// The items of the tokens, in order.
pub open spec fn select(docs: Seq<Document>, req: CompletionRequest, module: Seq<char>, ts: Seq<TokenModel>) -> Seq<CandidateModel>
    decreases ts.len(),
{
    if ts.len() == 0 {
        Seq::empty()
    } else {
        select(docs, req, module, ts.drop_last()) + match candidate_of(docs, req, module, ts.last()) {
            Some(c) => seq![c],
            None => Seq::empty(),
        }
    }
}

/// The items of the documents' tokens, document by document.
pub open spec fn candidates_in(docs: Seq<Document>, req: CompletionRequest, module: Seq<char>, ds: Seq<Document>) -> Seq<CandidateModel>
    decreases ds.len(),
{
    if ds.len() == 0 {
        Seq::empty()
    } else {
        candidates_in(docs, req, module, ds.drop_last()) + select(docs, req, module, tokens_view(ds.last().tokens@))
    }
}

pub open spec fn candidates_view(cs: Seq<CompletionCandidate>) -> Seq<CandidateModel> {
    cs.map_values(|c: CompletionCandidate| c@)
}

fn make(
    label: String,
    description: &str,
    documentation: Option<String>,
    insert_text: Option<String>,
    route_parameters: Option<String>,
) -> (r: CompletionCandidate)
    ensures
        r@ == cand(label@, description@, opt_text(documentation), opt_text(insert_text), opt_text(route_parameters)),
{
    let d = chars_of(description);
    CompletionCandidate {
        label,
        description: string_of(d.as_slice()),
        documentation,
        insert_text,
        route_parameters,
    }
}

fn candidate_for(store: &DocumentStore, req: CompletionRequest, module: &str, t: &Token) -> (r: Option<CompletionCandidate>)
    ensures
        match r {
            Some(c) => candidate_of(store.documents(), req, module@, t@) == Some(c@),
            None => candidate_of(store.documents(), req, module@, t@) is None,
        },
{
    match (req, &t.data) {
        (CompletionRequest::Routes, TokenData::DrupalRouteDefinition(route)) => {
            let doc = get_documentation_for_token(store, t);
            Some(make(route.name.clone(), "Route", doc, None, Some(route_parameters_text(route))))
        },
        (CompletionRequest::Services, TokenData::DrupalServiceDefinition(service)) => {
            let doc = get_documentation_for_token(store, t);
            Some(make(service.name.clone(), "Service", doc, None, None))
        },
        (CompletionRequest::Permissions, TokenData::DrupalPermissionDefinition(permission)) => {
            let doc = get_documentation_for_token(store, t);
            Some(make(permission.name.clone(), "Permission", doc, None, None))
        },
        (CompletionRequest::Plugins(k), TokenData::PhpClassDefinition(class)) => match &class.attribute {
            Some(ClassAttribute::Plugin(plugin)) => {
                if plugin.plugin_type == k {
                    let doc = get_documentation_for_token(store, t);
                    let d = k.to_string();
                    Some(make(plugin.plugin_id.clone(), d.as_str(), doc, None, None))
                } else {
                    None
                }
            },
            None => None,
        },
        (CompletionRequest::Hooks, TokenData::DrupalHookDefinition(hook)) => {
            let doc = get_documentation_for_token(store, t);
            Some(make(hook.name.clone(), "hook", doc, Some(hook_snippet(hook, module)), None))
        },
        (CompletionRequest::Elements, TokenData::PhpClassDefinition(class)) => match &class.attribute {
            Some(ClassAttribute::Plugin(plugin)) => {
                let prefix = match plugin.plugin_type {
                    DrupalPluginType::RenderElement => "render",
                    DrupalPluginType::FormElement => "form",
                    _ => {
                        return None;
                    },
                };
                match &plugin.usage_example {
                    Some(u) => {
                        let mut label = chars_of(prefix);
                        let dash = chars_of("-");
                        append(&mut label, dash.as_slice());
                        let id = chars_of(plugin.plugin_id.as_str());
                        append(&mut label, id.as_slice());
                        let uc = chars_of(u.as_str());
                        let esc = chars_of("\\$");
                        let body = replace_text(uc.as_slice(), "$", esc.as_slice());
                        proof {
                            reveal_strlit("");
                            assert(""@ =~= Seq::<char>::empty());
                            assert(label@ =~= element_prefix(plugin.plugin_type)->Some_0 + "-"@ + plugin.plugin_id@);
                        }
                        Some(make(string_of(label.as_slice()), "", None, Some(string_of(body.as_slice())), None))
                    },
                    None => None,
                }
            },
            None => None,
        },
        _ => None,
    }
}

/// Every item that the workspace offers for the request, document by document and token by
/// token. `module` is the base name of the file being edited, for hook skeletons.
pub fn completion_candidates(store: &DocumentStore, req: CompletionRequest, module: &str) -> (r: Vec<CompletionCandidate>)
    ensures
        candidates_view(r@) == candidates_in(store.documents(), req, module@, store.documents()),
{
    let docs = store.get_documents();
    let ghost all = store.documents();
    let mut out: Vec<CompletionCandidate> = Vec::new();
    let mut i: usize = 0;
    while i < docs.len()
        invariant
            docs@ == all,
            all == store.documents(),
            i <= all.len(),
            candidates_view(out@) == candidates_in(all, req, module@, all.subrange(0, i as int)),
        decreases docs.len() - i,
    {
        let d = &docs[i];
        let ghost base = candidates_view(out@);
        let ghost ts = tokens_view(d.tokens@);
        let mut k: usize = 0;
        while k < d.tokens.len()
            invariant
                docs@ == all,
                all == store.documents(),
                i < all.len(),
                *d == all[i as int],
                ts == tokens_view(d.tokens@),
                k <= d.tokens@.len(),
                candidates_view(out@) == base + select(all, req, module@, ts.subrange(0, k as int)),
            decreases d.tokens.len() - k,
        {
            assert(ts.subrange(0, k + 1).drop_last() =~= ts.subrange(0, k as int));
            assert(ts.subrange(0, k + 1).last() == d.tokens@[k as int]@);
            match candidate_for(store, req, module, &d.tokens[k]) {
                Some(c) => {
                    let ghost before = out@;
                    out.push(c);
                    assert(candidates_view(out@) =~= candidates_view(before).push(c@));
                    assert(candidates_view(out@) =~= base + select(all, req, module@, ts.subrange(0, k + 1)));
                },
                None => {
                    assert(select(all, req, module@, ts.subrange(0, k + 1)) =~= select(all, req, module@, ts.subrange(0, k as int)));
                },
            }
            k = k + 1;
        }
        assert(ts.subrange(0, k as int) =~= ts);
        assert(all.subrange(0, i + 1).drop_last() =~= all.subrange(0, i as int));
        assert(all.subrange(0, i + 1).last() == all[i as int]);
        i = i + 1;
    }
    assert(all.subrange(0, i as int) =~= all);
    out
}

/// The names of the methods of the class that a method reference belongs to, in the first
/// definition of that class.
pub open spec fn method_names(docs: Seq<Document>, m: crate::tokens::MethodModel) -> Seq<Seq<char>> {
    match class_of(docs, m) {
        None => Seq::empty(),
        Some(c) => match find_definition(docs, DefinitionKind::Class, c) {
            None => Seq::empty(),
            Some((i, k)) => match docs[i].tokens@[k]@.data {
                TokenDataModel::ClassDefinition(cl) => cl.methods.map_values(|e: (crate::syntax::Range, crate::tokens::MethodModel)| e.1.name),
                _ => Seq::empty(),
            },
        },
    }
}

/// The names of the methods that may complete a method reference.
pub fn method_candidates(store: &DocumentStore, method: &PhpMethod) -> (r: Vec<String>)
    ensures
        r@.map_values(|s: String| s@) == method_names(store.documents(), method@),
{
    let mut out: Vec<String> = Vec::new();
    let class = match method.get_class(store) {
        None => {
            assert(out@.map_values(|s: String| s@) =~= Seq::<Seq<char>>::empty());
            return out;
        },
        Some(c) => c,
    };
    let (_, token) = match store.get_class_definition(&class) {
        None => {
            assert(out@.map_values(|s: String| s@) =~= Seq::<Seq<char>>::empty());
            return out;
        },
        Some(p) => p,
    };
    match &token.data {
        TokenData::PhpClassDefinition(c) => {
            let ghost want = c@.methods.map_values(|e: (crate::syntax::Range, crate::tokens::MethodModel)| e.1.name);
            let mut j: usize = 0;
            while j < c.methods.len()
                invariant
                    j <= c.methods@.len(),
                    want == c@.methods.map_values(|e: (crate::syntax::Range, crate::tokens::MethodModel)| e.1.name),
                    out@.map_values(|s: String| s@) == want.subrange(0, j as int),
                decreases c.methods.len() - j,
            {
                let name = match &c.methods[j].data {
                    TokenData::PhpMethodDefinition(m) => m.name.clone(),
                    _ => {
                        proof {
                            reveal_strlit("");
                        }
                        string_of(chars_of("").as_slice())
                    },
                };
                assert(want[j as int] == method_slot(c.methods@[j as int]).1.name);
                assert(name@ == want[j as int]);
                let ghost before = out@;
                out.push(name);
                assert(out@.map_values(|s: String| s@) =~= before.map_values(|s: String| s@).push(want[j as int]));
                assert(want.subrange(0, j + 1) =~= want.subrange(0, j as int).push(want[j as int]));
                j = j + 1;
            }
            assert(want.subrange(0, j as int) =~= want);
            out
        },
        _ => {
            assert(out@.map_values(|s: String| s@) =~= Seq::<Seq<char>>::empty());
            out
        },
    }
}

/// Where a route completion on a `fromRoute('name', [...])` line writes: the name from the
/// end of `fromRoute('` up to the cursor, and the parameter array after the closing quote.
#[derive(Clone, Copy, Debug, PartialEq, Eq, Structural)]
pub struct RouteEdits {
    pub name_start: usize,
    pub name_end: usize,
    pub params_start: usize,
    pub params_end: usize,
}

/// The edits of a route completion on the line, with the cursor at column `cursor`; none
/// where the line holds no `fromRoute('`.
pub open spec fn route_edits_of(line: Seq<char>, cursor: usize) -> Option<RouteEdits> {
    let m = group_length(regex_groups(from_route_pattern(), line, "method"@));
    let n = group_length(regex_groups(from_route_pattern(), line, "name"@));
    let p = group_length(regex_groups(from_route_pattern(), line, "params"@));
    if m > 0 && m + n + 1 + p <= usize::MAX {
        Some(RouteEdits {
            name_start: m as usize,
            name_end: cursor,
            params_start: (m + n + 1) as usize,
            params_end: (m + n + 1 + p) as usize,
        })
    } else {
        None
    }
}

/// The edits of a route completion on the line, with the cursor at column `cursor`.
pub fn route_completion_edits(line: &str, cursor: usize) -> (r: Option<RouteEdits>)
    ensures
        r == route_edits_of(line@, cursor),
{
    let (m, n, p) = from_route_spans(line);
    if m > 0 && n < usize::MAX - m && p <= usize::MAX - (m + n + 1) {
        Some(RouteEdits { name_start: m, name_end: cursor, params_start: m + n + 1, params_end: m + n + 1 + p })
    } else {
        None
    }
}

/// The `n`-th line of the text, or nothing past the last line.
pub open spec fn line_of(text: Seq<char>, n: int) -> Seq<char> {
    if 0 <= n < lines(text).len() {
        lines(text)[n]
    } else {
        Seq::empty()
    }
}

/// The `n`-th line of the text, as `str::lines` counts them; empty past the last line.
pub fn nth_line(text: &str, n: usize) -> (r: String)
    ensures
        r@ == line_of(text@, n as int),
{
    let t = chars_of(text);
    let ls = split_lines(t.as_slice());
    if n < ls.len() {
        assert(ls@.map_values(|l: Vec<char>| l@)[n as int] == ls@[n as int]@);
        string_of(ls[n].as_slice())
    } else {
        proof {
            reveal_strlit("");
        }
        string_of(chars_of("").as_slice())
    }
}

/// `s` after its last `c`, or all of `s` where it holds none.
pub open spec fn after_last(s: Seq<char>, c: char) -> Seq<char>
    decreases s.len(),
{
    if s.len() == 0 {
        s
    } else if s.last() == c {
        Seq::empty()
    } else {
        after_last(s.drop_last(), c).push(s.last())
    }
}

/// The base name and the extension of the file a URI names: its last segment split at the
/// first dot; none where that segment holds no dot.
pub open spec fn file_name_parts_of(uri: Seq<char>) -> Option<(Seq<char>, Seq<char>)> {
    let seg = after_last(uri, '/');
    match first_occurrence(seg, seq!['.']) {
        Some(i) => Some((seg.subrange(0, i), seg.subrange(i + 1, seg.len() as int))),
        None => None,
    }
}

/// The base name and the extension of the file a URI names.
pub fn file_name_parts(uri: &str) -> (r: Option<(String, String)>)
    ensures
        match r {
            Some((a, b)) => file_name_parts_of(uri@) == Some((a@, b@)),
            None => file_name_parts_of(uri@) is None,
        },
{
    let u = chars_of(uri);
    let mut k: usize = u.len();
    assert(u@.subrange(0, u@.len() as int) =~= u@);
    assert(after_last(u@, '/') + u@.subrange(k as int, u@.len() as int) =~= after_last(u@, '/'));
    while k > 0 && u[k - 1] != '/'
        invariant
            k <= u@.len(),
            after_last(u@, '/') == after_last(u@.subrange(0, k as int), '/') + u@.subrange(k as int, u@.len() as int),
        decreases k,
    {
        let ghost pre = u@.subrange(0, k as int);
        assert(pre.drop_last() =~= u@.subrange(0, k - 1));
        assert(u@.subrange(k - 1, u@.len() as int) =~= seq![pre.last()] + u@.subrange(k as int, u@.len() as int));
        assert(after_last(pre, '/') == after_last(pre.drop_last(), '/').push(pre.last()));
        assert(after_last(pre.drop_last(), '/').push(pre.last()) + u@.subrange(k as int, u@.len() as int)
            =~= after_last(pre.drop_last(), '/') + (seq![pre.last()] + u@.subrange(k as int, u@.len() as int)));
        k = k - 1;
    }
    let seg = slice_of(u.as_slice(), k, u.len());
    proof {
        assert(after_last(u@.subrange(0, k as int), '/') == Seq::<char>::empty());
        assert(seg@ =~= after_last(u@, '/'));
    }
    let dot = chars_of(".");
    proof {
        reveal_strlit(".");
        assert(dot@ =~= seq!['.']);
    }
    match find(seg.as_slice(), dot.as_slice()) {
        Some(i) => {
            assert(occurs_at(seg@, dot@, i as int));
            let a = slice_of(seg.as_slice(), 0, i);
            let b = slice_of(seg.as_slice(), i + 1, seg.len());
            Some((string_of(a.as_slice()), string_of(b.as_slice())))
        },
        None => None,
    }
}

/// Hook skeletons are offered in module and theme files.
pub open spec fn offers_hooks(extension: Seq<char>) -> bool {
    extension == "module"@ || extension == "theme"@
}

/// Are hook skeletons offered in a file with this extension?
pub fn hooks_offered(extension: &str) -> (r: bool)
    ensures
        r == offers_hooks(extension@),
{
    let e = chars_of(extension);
    is_text(e.as_slice(), "module") || is_text(e.as_slice(), "theme")
}

} // verus!
