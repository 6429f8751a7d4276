use vstd::prelude::*;

use crate::document::{Document, FileType, file_type_of};
use crate::syntax::first_in;
use crate::text::{chars_of, eq_chars};
use crate::tokens::{
    MethodModel, PhpClassName, PhpMethod, Token, TokenData, TokenDataModel, TokenModel, class_opt,
    method_slot,
};

verus! {

/// One change of a document's content: its full new text.
#[derive(Debug)]
pub struct ContentChange {
    pub text: String,
}

/// The kinds of symbol that a definition lookup searches for.
#[derive(Clone, Copy, Debug, PartialEq, Eq, Structural)]
pub enum DefinitionKind {
    Service,
    Route,
    Class,
    Hook,
    Permission,
}

/// Does the token define the symbol `name` of the given kind?
pub open spec fn defines(kind: DefinitionKind, name: Seq<char>, t: TokenModel) -> bool {
    match kind {
        DefinitionKind::Service => t.data matches TokenDataModel::ServiceDefinition { name: n, .. } && n == name,
        DefinitionKind::Route => t.data matches TokenDataModel::RouteDefinition { name: n, .. } && n == name,
        DefinitionKind::Class => t.data matches TokenDataModel::ClassDefinition(c) && c.name == name,
        DefinitionKind::Hook => t.data matches TokenDataModel::HookDefinition { name: n, .. } && n == name,
        DefinitionKind::Permission => t.data matches TokenDataModel::PermissionDefinition { name: n, .. } && n == name,
    }
}

/// The kind of document that holds definitions of the given kind.
pub open spec fn defining_file_type(kind: DefinitionKind) -> FileType {
    match kind {
        DefinitionKind::Class | DefinitionKind::Hook => FileType::Php,
        _ => FileType::Yaml,
    }
}

pub open spec fn token_pred(d: Document, kind: DefinitionKind, name: Seq<char>) -> spec_fn(int) -> bool {
    |k: int| defines(kind, name, d.tokens@[k]@)
}

/// The first token of the document that defines the symbol.
pub open spec fn token_index(d: Document, kind: DefinitionKind, name: Seq<char>) -> Option<int> {
    first_in(0, d.tokens@.len() as int, token_pred(d, kind, name))
}

pub open spec fn doc_pred(docs: Seq<Document>, kind: DefinitionKind, name: Seq<char>) -> spec_fn(int) -> bool {
    |i: int| docs[i].file_type == defining_file_type(kind) && token_index(docs[i], kind, name) is Some
}

/// The first definition of the symbol: the first document of the right kind that defines
/// it, and the first token there that does.
pub open spec fn find_definition(docs: Seq<Document>, kind: DefinitionKind, name: Seq<char>) -> Option<(int, int)> {
    match first_in(0, docs.len() as int, doc_pred(docs, kind, name)) {
        Some(i) => Some((i, token_index(docs[i], kind, name)->Some_0)),
        None => None,
    }
}

/// Is `r` the document and token at the position `f`?
pub open spec fn located(docs: Seq<Document>, r: Option<(&Document, &Token)>, f: Option<(int, int)>) -> bool {
    match r {
        Some((d, t)) => f matches Some(p) && 0 <= p.0 < docs.len() && 0 <= p.1 < docs[p.0].tokens@.len()
            && *d == docs[p.0] && *t == docs[p.0].tokens@[p.1],
        None => f is None,
    }
}

pub open spec fn uri_pred(docs: Seq<Document>, uri: Seq<char>) -> spec_fn(int) -> bool {
    |i: int| docs[i].uri() == uri
}

/// The position of the document with the URI.
pub open spec fn index_of_uri(docs: Seq<Document>, uri: Seq<char>) -> Option<int> {
    first_in(0, docs.len() as int, uri_pred(docs, uri))
}

/// No two documents share a URI.
pub open spec fn uris_unique(docs: Seq<Document>) -> bool {
    forall|i: int, j: int| 0 <= i < docs.len() && 0 <= j < docs.len() && i != j ==> docs[i].uri() != docs[j].uri()
}

/// Is the document's kind that of its URI, and are its tokens the parse of its content?
#[verifier::opaque]
pub open spec fn doc_ok(d: Document) -> bool {
    d.file_type == file_type_of(d.uri()) && d.is_parsed()
}

proof fn lemma_put_doc_ok(docs: Seq<Document>, d: Document)
    requires
        forall|i: int| 0 <= i < docs.len() ==> doc_ok(#[trigger] docs[i]),
        doc_ok(d),
    ensures
        forall|i: int| 0 <= i < put_doc(docs, d).len() ==> doc_ok(#[trigger] put_doc(docs, d)[i]),
{
    crate::syntax::lemma_first_in_bounds(0, docs.len() as int, uri_pred(docs, d.uri()));
}

/// The document's kind is that of its URI and its tokens are the parse of its content.
pub proof fn lemma_doc_ok(d: Document)
    ensures
        doc_ok(d) == (d.file_type == file_type_of(d.uri()) && d.is_parsed()),
{
    reveal(doc_ok);
}

/// The documents with `d` in place of the one with its URI, or added at the end.
pub open spec fn put_doc(docs: Seq<Document>, d: Document) -> Seq<Document> {
    match index_of_uri(docs, d.uri()) {
        Some(i) => docs.update(i, d),
        None => docs.push(d),
    }
}

/// Where `put_doc` puts a document with the URI.
pub open spec fn slot_of(docs: Seq<Document>, uri: Seq<char>) -> int {
    match index_of_uri(docs, uri) {
        Some(i) => i,
        None => docs.len() as int,
    }
}

/// The documents with each of `ds`, in order, put in.
pub open spec fn put_all(docs: Seq<Document>, ds: Seq<Document>) -> Seq<Document>
    decreases ds.len(),
{
    if ds.len() == 0 {
        docs
    } else {
        put_doc(put_all(docs, ds.drop_last()), ds.last())
    }
}

/// The class that a method belongs to: its own class, or the class of the service that it
/// is called on.
pub open spec fn class_of(docs: Seq<Document>, m: MethodModel) -> Option<Seq<char>> {
    match m.class_name {
        Some(c) => Some(c),
        None => match m.service_name {
            Some(s) => match find_definition(docs, DefinitionKind::Service, s) {
                Some((i, k)) => match docs[i].tokens@[k]@.data {
                    TokenDataModel::ServiceDefinition { class, .. } => Some(class),
                    _ => None,
                },
                None => None,
            },
            None => None,
        },
    }
}

pub open spec fn method_pred(methods: Seq<Token>, name: Seq<char>) -> spec_fn(int) -> bool {
    |j: int| method_slot(methods[j]).1.name == name
}

/// The definition of a method: in the first definition of its class, the method of that name.
pub open spec fn find_method(docs: Seq<Document>, m: MethodModel) -> Option<(int, int, int)> {
    match class_of(docs, m) {
        None => None,
        Some(c) => match find_definition(docs, DefinitionKind::Class, c) {
            None => None,
            Some((i, k)) => match docs[i].tokens@[k].data {
                TokenData::PhpClassDefinition(cl) => match first_in(0, cl.methods@.len() as int, method_pred(cl.methods@, m.name)) {
                    Some(j) => Some((i, k, j)),
                    None => None,
                },
                _ => None,
            },
        },
    }
}

/// Is `r` the document and method token at the position `f`?
pub open spec fn method_located(docs: Seq<Document>, r: Option<(&Document, &Token)>, f: Option<(int, int, int)>) -> bool {
    match r {
        Some((d, t)) => match f {
            Some(p) => *d == docs[p.0] && match docs[p.0].tokens@[p.1].data {
                TokenData::PhpClassDefinition(c) => *t == c.methods@[p.2],
                _ => false,
            },
            None => false,
        },
        None => f is None,
    }
}

/// A symbol defined anywhere in the workspace is found: the lookup then yields a document
/// of the kind that holds such definitions, and a token there that defines the symbol.
pub proof fn lemma_definition_is_found(docs: Seq<Document>, kind: DefinitionKind, name: Seq<char>, i: int, k: int)
    requires
        0 <= i < docs.len(),
        docs[i].file_type == defining_file_type(kind),
        0 <= k < docs[i].tokens@.len(),
        defines(kind, name, docs[i].tokens@[k]@),
    ensures
        find_definition(docs, kind, name) matches Some(p) && 0 <= p.0 < docs.len() && 0 <= p.1 < docs[p.0].tokens@.len()
            && docs[p.0].file_type == defining_file_type(kind) && defines(kind, name, docs[p.0].tokens@[p.1]@),
{
    let tp = token_pred(docs[i], kind, name);
    lemma_first_in_first(0, docs[i].tokens@.len() as int, tp, k);
    let dp = doc_pred(docs, kind, name);
    lemma_first_in_first(0, docs.len() as int, dp, i);
    let a = first_in(0, docs.len() as int, dp)->Some_0;
    crate::syntax::lemma_first_in_bounds(0, docs[a].tokens@.len() as int, token_pred(docs[a], kind, name));
}

proof fn lemma_first_in_is(lo: int, hi: int, p: spec_fn(int) -> bool, k: int)
    requires
        lo <= k < hi,
        p(k),
        forall|j: int| lo <= j < k ==> !#[trigger] p(j),
    ensures
        first_in(lo, hi, p) == Some(k),
    decreases k - lo,
{
    if lo < k {
        lemma_first_in_is(lo + 1, hi, p, k);
    }
}

/// Where one document alone defines a symbol, the lookup yields that document and its first
/// token that defines the symbol, whatever the other documents hold.
pub proof fn lemma_sole_definition_is_found(docs: Seq<Document>, kind: DefinitionKind, name: Seq<char>, i: int, k: int)
    requires
        0 <= i < docs.len(),
        docs[i].file_type == defining_file_type(kind),
        token_index(docs[i], kind, name) == Some(k),
        forall|j: int|
            0 <= j < docs.len() && j != i && docs[j].file_type == defining_file_type(kind) ==> token_index(
                #[trigger] docs[j],
                kind,
                name,
            ) is None,
    ensures
        find_definition(docs, kind, name) == Some((i, k)),
{
    let dp = doc_pred(docs, kind, name);
    assert forall|j: int| 0 <= j < i implies !#[trigger] dp(j) by {
        if docs[j].file_type == defining_file_type(kind) {
            assert(token_index(docs[j], kind, name) is None);
        }
    }
    lemma_first_in_is(0, docs.len() as int, dp, i);
}

/// The workspace: every document by URI.
pub struct DocumentStore {
    documents: Vec<Document>,
}

proof fn lemma_first_in_none(lo: int, hi: int, p: spec_fn(int) -> bool, k: int)
    requires
        first_in(lo, hi, p) is None,
        lo <= k < hi,
    ensures
        !p(k),
    decreases hi - lo,
{
    if lo < k {
        lemma_first_in_none(lo + 1, hi, p, k);
    }
}

proof fn lemma_first_in_first(lo: int, hi: int, p: spec_fn(int) -> bool, k: int)
    requires
        lo <= k < hi,
        p(k),
    ensures
        first_in(lo, hi, p) matches Some(i) && lo <= i <= k && p(i),
    decreases hi - lo,
{
    if lo < k && !p(lo) {
        lemma_first_in_first(lo + 1, hi, p, k);
    }
}

proof fn lemma_put_doc_unique(docs: Seq<Document>, d: Document)
    requires
        uris_unique(docs),
    ensures
        uris_unique(put_doc(docs, d)),
{
    crate::syntax::lemma_first_in_bounds(0, docs.len() as int, uri_pred(docs, d.uri()));
    match index_of_uri(docs, d.uri()) {
        Some(i) => {
            let n = docs.update(i, d);
            assert forall|a: int, b: int| 0 <= a < n.len() && 0 <= b < n.len() && a != b implies n[a].uri() != n[b].uri() by {
                if a == i {
                    assert(docs[i].uri() == d.uri());
                } else if b == i {
                    assert(docs[i].uri() == d.uri());
                }
            }
        },
        None => {
            let n = docs.push(d);
            assert forall|a: int, b: int| 0 <= a < n.len() && 0 <= b < n.len() && a != b implies n[a].uri() != n[b].uri() by {
                if a == docs.len() {
                    lemma_first_in_none(0, docs.len() as int, uri_pred(docs, d.uri()), b);
                } else if b == docs.len() {
                    lemma_first_in_none(0, docs.len() as int, uri_pred(docs, d.uri()), a);
                }
            }
        },
    }
}

/// Are two strings equal?
pub fn same_text(a: &str, b: &str) -> (r: bool)
    ensures
        r == (a@ == b@),
{
    let x = chars_of(a);
    let y = chars_of(b);
    eq_chars(x.as_slice(), y.as_slice())
}

/// Does the token define the symbol `name` of the given kind?
pub fn token_defines(t: &Token, kind: DefinitionKind, name: &str) -> (r: bool)
    ensures
        r == defines(kind, name@, t@),
{
    match (kind, &t.data) {
        (DefinitionKind::Service, TokenData::DrupalServiceDefinition(s)) => same_text(s.name.as_str(), name),
        (DefinitionKind::Route, TokenData::DrupalRouteDefinition(s)) => same_text(s.name.as_str(), name),
        (DefinitionKind::Class, TokenData::PhpClassDefinition(c)) => same_text(c.name.as_str(), name),
        (DefinitionKind::Hook, TokenData::DrupalHookDefinition(h)) => same_text(h.name.as_str(), name),
        (DefinitionKind::Permission, TokenData::DrupalPermissionDefinition(p)) => same_text(p.name.as_str(), name),
        _ => false,
    }
}

fn defining_type(kind: DefinitionKind) -> (r: FileType)
    ensures
        r == defining_file_type(kind),
{
    match kind {
        DefinitionKind::Class | DefinitionKind::Hook => FileType::Php,
        _ => FileType::Yaml,
    }
}

/// The first token of the document that defines the symbol.
fn find_token(d: &Document, kind: DefinitionKind, name: &str) -> (r: Option<usize>)
    ensures
        r matches Some(k) ==> token_index(*d, kind, name@) == Some(k as int) && k < d.tokens@.len(),
        r is None ==> token_index(*d, kind, name@) is None,
{
    let ghost pr = token_pred(*d, kind, name@);
    let mut k: usize = 0;
    while k < d.tokens.len()
        invariant
            k <= d.tokens@.len(),
            pr == token_pred(*d, kind, name@),
            first_in(0, d.tokens@.len() as int, pr) == first_in(k as int, d.tokens@.len() as int, pr),
        decreases d.tokens.len() - k,
    {
        if token_defines(&d.tokens[k], kind, name) {
            return Some(k);
        }
        k = k + 1;
    }
    None
}

impl DocumentStore {
    pub closed spec fn documents(&self) -> Seq<Document> {
        self.documents@
    }

    /// URIs are unique, and each document's kind is that of its URI and its tokens are the
    /// parse of its content.
    pub open spec fn wf(&self) -> bool {
        &&& uris_unique(self.documents())
        &&& forall|i: int| 0 <= i < self.documents().len() ==> doc_ok(#[trigger] self.documents()[i])
    }

    pub fn new() -> (r: DocumentStore)
        ensures
            r.documents().len() == 0,
            r.wf(),
    {
        DocumentStore { documents: Vec::new() }
    }

    fn position_of(&self, uri: &str) -> (r: Option<usize>)
        ensures
            r matches Some(i) ==> index_of_uri(self.documents(), uri@) == Some(i as int) && i < self.documents().len(),
            r is None ==> index_of_uri(self.documents(), uri@) is None,
    {
        let ghost pr = uri_pred(self.documents(), uri@);
        let mut i: usize = 0;
        while i < self.documents.len()
            invariant
                i <= self.documents@.len(),
                pr == uri_pred(self.documents(), uri@),
                first_in(0, self.documents@.len() as int, pr) == first_in(i as int, self.documents@.len() as int, pr),
            decreases self.documents.len() - i,
        {
            if same_text(self.documents[i].uri.as_str(), uri) {
                return Some(i);
            }
            i = i + 1;
        }
        None
    }

    /// The document with the URI.
    pub fn get_document(&self, uri: &String) -> (r: Option<&Document>)
        ensures
            r matches Some(d) ==> index_of_uri(self.documents(), uri@) matches Some(i) && *d == self.documents()[i]
                && d.uri() == uri@,
            r is None ==> index_of_uri(self.documents(), uri@) is None,
    {
        match self.position_of(uri.as_str()) {
            Some(i) => {
                proof {
                    crate::syntax::lemma_first_in_bounds(0, self.documents().len() as int, uri_pred(self.documents(), uri@));
                }
                Some(&self.documents[i])
            },
            None => None,
        }
    }

    /// Every document, in no particular order.
    pub fn get_documents(&self) -> (r: &Vec<Document>)
        ensures
            r@ == self.documents(),
    {
        &self.documents
    }

    /// Puts a document in place of the one with its URI, or adds it.
    pub fn put(&mut self, d: Document)
        requires
            old(self).wf(),
            doc_ok(d),
        ensures
            final(self).wf(),
            final(self).documents() == put_doc(old(self).documents(), d),
    {
        proof {
            lemma_put_doc_unique(self.documents(), d);
            lemma_put_doc_ok(self.documents(), d);
            crate::syntax::lemma_first_in_bounds(0, self.documents().len() as int, uri_pred(self.documents(), d.uri()));
        }
        match self.position_of(d.uri.as_str()) {
            Some(i) => {
                self.documents.set(i, d);
            },
            None => {
                self.documents.push(d);
            },
        }
    }

    /// Creates or replaces the document with the URI, and reads its tokens.
    pub fn add_document(&mut self, uri: &String, text: String)
        requires
            old(self).wf(),
        ensures
            final(self).wf(),
            final(self).documents() == put_doc(
                old(self).documents(),
                final(self).documents()[slot_of(old(self).documents(), uri@)],
            ),
            ({
                let d = final(self).documents()[slot_of(old(self).documents(), uri@)];
                &&& d.uri() == uri@
                &&& d.content@ == text@
                &&& d.file_type == file_type_of(uri@)
                &&& d.is_parsed()
            }),
    {
        let mut d = Document::new(uri, text);
        d.parse();
        proof {
            reveal(doc_ok);
        }
        let ghost g = d;
        self.put(d);
        proof {
            crate::syntax::lemma_first_in_bounds(0, old(self).documents().len() as int, uri_pred(old(self).documents(), uri@));
            assert(final(self).documents()[slot_of(old(self).documents(), uri@)] == g);
        }
    }

    /// Puts each of the documents in, in order.
    pub fn add_documents(&mut self, documents: Vec<Document>)
        requires
            old(self).wf(),
            forall|i: int| 0 <= i < documents@.len() ==> doc_ok(#[trigger] documents@[i]),
        ensures
            final(self).wf(),
            final(self).documents() == put_all(old(self).documents(), documents@),
    {
        let mut rest = documents;
        let mut reversed: Vec<Document> = Vec::new();
        let ghost all = rest@;
        while rest.len() > 0
            invariant
                rest@ + reversed@.reverse() == all,
                forall|i: int| 0 <= i < all.len() ==> doc_ok(#[trigger] all[i]),
            decreases rest.len(),
        {
            let ghost before = rest@;
            let ghost rev_before = reversed@;
            match rest.pop() {
                Some(d) => {
                    reversed.push(d);
                    assert(rest@ + reversed@.reverse() =~= before.drop_last() + (seq![before.last()] + rev_before.reverse()));
                    assert(before.drop_last() + (seq![before.last()] + rev_before.reverse()) =~= before + rev_before.reverse());
                },
                None => {},
            }
        }
        assert(reversed@.reverse() =~= all);
        let rl = reversed.len();
        assert(all.len() == rl);
        let ghost start = self.documents();
        let mut done: usize = 0;
        while reversed.len() > 0
            invariant
                self.wf(),
                reversed@.reverse() == all.subrange(done as int, all.len() as int),
                done + reversed@.len() == all.len(),
                all.len() <= usize::MAX,
                forall|i: int| 0 <= i < all.len() ==> doc_ok(#[trigger] all[i]),
                self.documents() == put_all(start, all.subrange(0, done as int)),
            decreases reversed.len(),
        {
            let ghost rev_before = reversed@;
            match reversed.pop() {
                Some(d) => {
                    proof {
                        assert(rev_before.reverse()[0] == rev_before.last());
                        assert(all.subrange(done as int, all.len() as int)[0] == all[done as int]);
                        assert(d == all[done as int]);
                        assert(all.subrange(0, done + 1).drop_last() =~= all.subrange(0, done as int));
                        assert(reversed@.reverse() =~= rev_before.reverse().drop_first());
                        assert(all.subrange(done + 1, all.len() as int) =~= all.subrange(done as int, all.len() as int).drop_first());
                    }
                    self.put(d);
                    done = done + 1;
                },
                None => {},
            }
        }
        assert(all.subrange(0, all.len() as int) == all);
    }

    /// Replaces the content of the document with the URI by the text of the one change, and
    /// reads its tokens again. More than one change, or an unknown URI, leaves the store as it is.
    pub fn change_document(&mut self, uri: &String, changes: Vec<ContentChange>)
        requires
            old(self).wf(),
        ensures
            final(self).wf(),
            changes@.len() > 1 || index_of_uri(old(self).documents(), uri@) is None ==> final(self).documents()
                == old(self).documents(),
            changes@.len() <= 1 ==> (index_of_uri(old(self).documents(), uri@) matches Some(i) ==> {
                let d = final(self).documents()[i];
                let o = old(self).documents()[i];
                &&& final(self).documents() == old(self).documents().update(i, d)
                &&& d.uri() == uri@
                &&& d.file_type == o.file_type
                &&& d.file_type == file_type_of(uri@)
                &&& d.content@ == if changes@.len() == 1 {
                    changes@[0].text@
                } else {
                    o.content@
                }
                &&& d.is_parsed()
            }),
    {
        if changes.len() > 1 {
            return;
        }
        let i = match self.position_of(uri.as_str()) {
            None => {
                return;
            },
            Some(i) => i,
        };
        proof {
            crate::syntax::lemma_first_in_bounds(0, self.documents().len() as int, uri_pred(self.documents(), uri@));
        }
        let content = if changes.len() == 1 {
            changes[0].text.clone()
        } else {
            self.documents[i].content.clone()
        };
        let mut d = Document {
            file_type: self.documents[i].file_type,
            content,
            tokens: Vec::new(),
            uri: self.documents[i].uri.clone(),
        };
        d.parse();
        proof {
            assert(doc_ok(self.documents()[i as int]));
            reveal(doc_ok);
        }
        let ghost g = d;
        self.put(d);
        assert(final(self).documents()[i as int] == g);
    }

    /// The first document and token that define the symbol.
    pub fn find(&self, kind: DefinitionKind, name: &str) -> (r: Option<(usize, usize)>)
        ensures
            r matches Some(p) ==> find_definition(self.documents(), kind, name@) == Some((p.0 as int, p.1 as int))
                && p.0 < self.documents().len() && p.1 < self.documents()[p.0 as int].tokens@.len(),
            r is None ==> find_definition(self.documents(), kind, name@) is None,
    {
        let ft = defining_type(kind);
        let ghost pr = doc_pred(self.documents(), kind, name@);
        let mut i: usize = 0;
        while i < self.documents.len()
            invariant
                i <= self.documents@.len(),
                ft == defining_file_type(kind),
                pr == doc_pred(self.documents(), kind, name@),
                first_in(0, self.documents@.len() as int, pr) == first_in(i as int, self.documents@.len() as int, pr),
            decreases self.documents.len() - i,
        {
            if self.documents[i].file_type == ft {
                match find_token(&self.documents[i], kind, name) {
                    Some(k) => {
                        return Some((i, k));
                    },
                    None => {},
                }
            }
            i = i + 1;
        }
        None
    }

    fn locate(&self, kind: DefinitionKind, name: &str) -> (r: Option<(&Document, &Token)>)
        ensures
            located(self.documents(), r, find_definition(self.documents(), kind, name@)),
    {
        match self.find(kind, name) {
            Some((i, k)) => Some((&self.documents[i], &self.documents[i].tokens[k])),
            None => None,
        }
    }

    pub fn get_service_definition(&self, service_name: &str) -> (r: Option<(&Document, &Token)>)
        ensures
            located(self.documents(), r, find_definition(self.documents(), DefinitionKind::Service, service_name@)),
    {
        self.locate(DefinitionKind::Service, service_name)
    }

    pub fn get_route_definition(&self, route_name: &str) -> (r: Option<(&Document, &Token)>)
        ensures
            located(self.documents(), r, find_definition(self.documents(), DefinitionKind::Route, route_name@)),
    {
        self.locate(DefinitionKind::Route, route_name)
    }

    pub fn get_class_definition(&self, class_name: &PhpClassName) -> (r: Option<(&Document, &Token)>)
        ensures
            located(self.documents(), r, find_definition(self.documents(), DefinitionKind::Class, class_name@)),
    {
        self.locate(DefinitionKind::Class, class_name.as_str())
    }

    pub fn get_hook_definition(&self, hook_name: &str) -> (r: Option<(&Document, &Token)>)
        ensures
            located(self.documents(), r, find_definition(self.documents(), DefinitionKind::Hook, hook_name@)),
    {
        self.locate(DefinitionKind::Hook, hook_name)
    }

    pub fn get_permission_definition(&self, permission_name: &str) -> (r: Option<(&Document, &Token)>)
        ensures
            located(self.documents(), r, find_definition(self.documents(), DefinitionKind::Permission, permission_name@)),
    {
        self.locate(DefinitionKind::Permission, permission_name)
    }

    /// The definition of a method, in the first definition of the class it belongs to.
    pub fn get_method_definition(&self, method: &PhpMethod) -> (r: Option<(&Document, &Token)>)
        ensures
            method_located(self.documents(), r, find_method(self.documents(), method@)),
    {
        let class = match method.get_class(self) {
            None => {
                return None;
            },
            Some(c) => c,
        };
        let (i, k) = match self.find(DefinitionKind::Class, class.as_str()) {
            None => {
                return None;
            },
            Some(p) => p,
        };
        let d = &self.documents[i];
        match &d.tokens[k].data {
            TokenData::PhpClassDefinition(cl) => {
                let ghost pr = method_pred(cl.methods@, method@.name);
                let ghost want = match first_in(0, cl.methods@.len() as int, pr) {
                    Some(jj) => Some((i as int, k as int, jj)),
                    None => None,
                };
                assert(find_method(self.documents(), method@) == want);
                let mut j: usize = 0;
                while j < cl.methods.len()
                    invariant
                        j <= cl.methods@.len(),
                        find_method(self.documents(), method@) == want,
                        want == match first_in(0, cl.methods@.len() as int, pr) {
                            Some(jj) => Some((i as int, k as int, jj)),
                            None => None::<(int, int, int)>,
                        },
                        *d == self.documents()[i as int],
                        self.documents()[i as int].tokens@[k as int].data == TokenData::PhpClassDefinition(*cl),
                        pr == method_pred(cl.methods@, method@.name),
                        first_in(0, cl.methods@.len() as int, pr) == first_in(j as int, cl.methods@.len() as int, pr),
                    decreases cl.methods.len() - j,
                {
                    let hit = match &cl.methods[j].data {
                        TokenData::PhpMethodDefinition(m) => same_text(m.name.as_str(), method.name.as_str()),
                        _ => same_text("", method.name.as_str()),
                    };
                    proof {
                        reveal_strlit("");
                        assert(""@ =~= Seq::<char>::empty());
                        assert(hit == pr(j as int));
                    }
                    if hit {
                        assert(first_in(j as int, cl.methods@.len() as int, pr) == Some(j as int));
                        return Some((d, &cl.methods[j]));
                    }
                    j = j + 1;
                }
                None
            },
            _ => None,
        }
    }
}

impl PhpMethod {
    /// The class the method belongs to: its own class, or the class of the service it is
    /// called on.
    pub fn get_class(&self, store: &DocumentStore) -> (r: Option<PhpClassName>)
        ensures
            class_opt(r) == class_of(store.documents(), self@),
    {
        match &self.class_name {
            Some(c) => Some(c.cloned()),
            None => match &self.service_name {
                Some(s) => match store.get_service_definition(s.as_str()) {
                    Some((_, token)) => match &token.data {
                        TokenData::DrupalServiceDefinition(service) => Some(service.class.cloned()),
                        _ => None,
                    },
                    None => None,
                },
                None => None,
            },
        }
    }
}

} // verus!
