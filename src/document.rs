use vstd::prelude::*;

use crate::extract::opt_token;
use crate::php::{PhpParser, php_parse_of, php_token_under};
use crate::syntax::Point;
use crate::text::{chars_of, ends_with, has_suffix, string_of};
use crate::tokens::{Token, TokenModel, tokens_view};
use crate::yaml::{YamlParser, yaml_parse_of, yaml_token_under};

verus! {

/// `lsp_types::Uri`, carried opaquely.
#[verifier::external_type_specification]
#[verifier::external_body]
pub struct ExUri(lsp_types::Uri);

/// Is the text a URI?
pub uninterp spec fn is_uri(s: Seq<char>) -> bool;

/// Is the text short enough to be read as a URI (at most `i32::MAX` bytes)?
pub open spec fn uri_length_ok(s: Seq<char>) -> bool {
    (vstd::utf8::encode_utf8(s).len() as usize) <= i32::MAX as usize
}

/// Relies on `lsp_types::Uri`'s `FromStr`: the text read as a URI, if it is one. Whether it
/// is depends on the text alone. The parser panics on text over `i32::MAX` bytes.
#[verifier::external_body]
fn parse_uri(s: &str) -> (r: Option<lsp_types::Uri>)
    requires
        s.len() <= i32::MAX as usize,
    ensures
        r is Some == is_uri(s@),
{
    <lsp_types::Uri as std::str::FromStr>::from_str(s).ok()
}

#[derive(Debug, PartialEq, Eq, Structural, Clone, Copy)]
pub enum FileType {
    Php,
    Yaml,
    Unknown,
}

/// A document of the workspace and the tokens read from its content.
#[derive(Debug)]
pub struct Document {
    pub file_type: FileType,
    pub content: String,
    pub tokens: Vec<Token>,
    pub uri: String,
}

/// The kind of a document, by the suffix of its URI.
pub open spec fn file_type_of(uri: Seq<char>) -> FileType {
    if has_suffix(uri, ".yml"@) || has_suffix(uri, ".yaml"@) {
        FileType::Yaml
    } else if has_suffix(uri, ".php"@) || has_suffix(uri, ".module"@) || has_suffix(uri, ".theme"@)
        || has_suffix(uri, ".install"@) {
        FileType::Php
    } else {
        FileType::Unknown
    }
}

/// Are the tokens what parsing `content` as a document of that kind gives? A document of
/// unknown kind has no tokens.
pub open spec fn tokens_parsed(file_type: FileType, uri: Seq<char>, content: Seq<char>, tokens: Seq<TokenModel>) -> bool {
    match file_type {
        FileType::Php => php_parse_of(tokens, content),
        FileType::Yaml => yaml_parse_of(tokens, uri, content),
        FileType::Unknown => tokens.len() == 0,
    }
}

/// A parsed document of unknown kind has no tokens.
pub proof fn lemma_unknown_kind_has_no_tokens(d: Document)
    requires
        d.file_type == FileType::Unknown,
        d.is_parsed(),
    ensures
        d.tokens@.len() == 0,
{
    assert(tokens_view(d.tokens@).len() == d.tokens@.len());
}

/// The kind of a document, by the suffix of its URI.
pub fn uri_to_file_type(uri: &str) -> (r: FileType)
    ensures
        r == file_type_of(uri@),
{
    let u = chars_of(uri);
    let s = u.as_slice();
    if ends_with(s, ".yml") || ends_with(s, ".yaml") {
        FileType::Yaml
    } else if ends_with(s, ".php") || ends_with(s, ".module") || ends_with(s, ".theme") || ends_with(s, ".install") {
        FileType::Php
    } else {
        FileType::Unknown
    }
}

impl Document {
    pub open spec fn uri(&self) -> Seq<char> {
        self.uri@
    }

    /// Is the document's content read into its tokens?
    pub open spec fn is_parsed(&self) -> bool {
        tokens_parsed(self.file_type, self.uri(), self.content@, tokens_view(self.tokens@))
    }

    /// A document that is not parsed yet.
    pub fn new(uri: &String, content: String) -> (r: Document)
        ensures
            r.file_type == file_type_of(uri@),
            r.uri() == uri@,
            r.content@ == content@,
            r.tokens@.len() == 0,
    {
        Document { file_type: uri_to_file_type(uri.as_str()), uri: uri.clone(), tokens: Vec::new(), content }
    }

    pub fn set_content(&mut self, content: String)
        ensures
            final(self).content@ == content@,
            final(self).file_type == old(self).file_type,
            final(self).uri() == old(self).uri(),
            final(self).tokens@ == old(self).tokens@,
    {
        self.content = content;
    }

    /// Replaces the tokens with those read from the current content.
    pub fn parse(&mut self)
        ensures
            final(self).content@ == old(self).content@,
            final(self).file_type == old(self).file_type,
            final(self).uri() == old(self).uri(),
            final(self).is_parsed(),
    {
        self.tokens = match self.file_type {
            FileType::Php => {
                let parser = PhpParser::new(self.content.as_str());
                parser.get_tokens()
            },
            FileType::Yaml => {
                let parser = YamlParser::new(self.content.as_str(), self.uri.as_str());
                parser.get_tokens()
            },
            FileType::Unknown => Vec::new(),
        };
        assert(tokens_view(self.tokens@).len() == self.tokens@.len());
    }

    /// The document's URI as text.
    pub fn uri_text(&self) -> (r: &str)
        ensures
            r@ == self.uri(),
    {
        self.uri.as_str()
    }

    /// The document's URI, if its text is a valid URI.
    pub fn get_uri(&self) -> (r: Option<lsp_types::Uri>)
        ensures
            r is Some == (uri_length_ok(self.uri()) && is_uri(self.uri())),
    {
        let s = self.uri.as_str();
        if s.len() <= i32::MAX as usize {
            parse_uri(s)
        } else {
            None
        }
    }

    /// Is the document's URI text a valid URI?
    pub fn has_valid_uri(&self) -> (r: bool)
        ensures
            r == (uri_length_ok(self.uri()) && is_uri(self.uri())),
    {
        self.get_uri().is_some()
    }

    /// The token under the cursor, read off the syntax tree of the current content: the first
    /// that a node yields on the way up from the smallest node holding the point; none in a
    /// document of unknown kind.
    pub fn get_token_under_cursor(&self, position: Point) -> (r: Option<Token>)
        ensures
            match self.file_type {
                FileType::Php => php_token_under(opt_token(r), self.content@, position),
                FileType::Yaml => yaml_token_under(opt_token(r), self.uri(), self.content@, position),
                FileType::Unknown => r is None,
            },
    {
        match self.file_type {
            FileType::Php => {
                let parser = PhpParser::new(self.content.as_str());
                parser.get_token_at_position(position)
            },
            FileType::Yaml => {
                let parser = YamlParser::new(self.content.as_str(), self.uri.as_str());
                parser.get_token_at_position(position)
            },
            FileType::Unknown => None,
        }
    }
}

} // verus!
