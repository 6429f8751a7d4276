use vstd::prelude::*;

use crate::pattern::{captures, opt_text, regex_groups};
use crate::syntax::Range;
use crate::text::{chars_of, eq_chars, find, string_of, slice_of, trim, trim_chars, first_occurrence, occurs_at};

verus! {

/// A symbol found in a document, with the span it was found at.
#[derive(Debug)]
pub struct Token {
    pub range: Range,
    pub data: TokenData,
}

#[derive(Debug)]
pub enum TokenData {
    PhpClassReference(PhpClassName),
    PhpClassDefinition(PhpClass),
    PhpMethodReference(PhpMethod),
    PhpMethodDefinition(PhpMethod),
    DrupalRouteReference(String),
    DrupalRouteDefinition(DrupalRoute),
    DrupalServiceReference(String),
    DrupalServiceDefinition(DrupalService),
    DrupalHookReference(String),
    DrupalHookDefinition(DrupalHook),
    DrupalPermissionDefinition(DrupalPermission),
    DrupalPermissionReference(String),
    DrupalPluginReference(DrupalPluginReference),
    DrupalTranslationString(DrupalTranslationString),
}

/// A fully qualified class name, without surrounding quotes or backslashes.
#[derive(Debug, Clone)]
pub struct PhpClassName {
    value: String,
}

#[derive(Debug)]
pub enum ClassAttribute {
    Plugin(DrupalPlugin),
}

#[derive(Debug)]
pub struct PhpClass {
    pub name: PhpClassName,
    pub attribute: Option<ClassAttribute>,
    /// The class's methods, each a `PhpMethodDefinition` token, with distinct names.
    pub methods: Vec<Token>,
}

#[derive(Debug)]
pub struct PhpMethod {
    pub name: String,
    pub class_name: Option<PhpClassName>,
    pub service_name: Option<String>,
}

#[derive(Debug)]
pub struct DrupalRoute {
    pub name: String,
    pub path: String,
    pub _defaults: DrupalRouteDefaults,
}

#[derive(Debug)]
pub struct DrupalRouteDefaults {
    pub _controller: Option<PhpMethod>,
    pub _form: Option<PhpClassName>,
    pub _entity_form: Option<String>,
    pub _title: Option<String>,
}

#[derive(Debug)]
pub struct DrupalService {
    pub name: String,
    pub class: PhpClassName,
}

#[derive(Debug)]
pub struct DrupalHook {
    pub name: String,
    pub parameters: Option<String>,
}

#[derive(Debug)]
pub struct DrupalPermission {
    pub name: String,
    pub title: String,
}

#[derive(Debug, PartialEq, Eq, Structural, Clone, Copy)]
pub enum DrupalPluginType {
    EntityType,
    QueueWorker,
    FieldType,
    DataType,
    FormElement,
    RenderElement,
}

#[derive(Debug)]
pub struct DrupalPlugin {
    pub plugin_type: DrupalPluginType,
    pub plugin_id: String,
    pub usage_example: Option<String>,
}

#[derive(Debug)]
pub struct DrupalPluginReference {
    pub plugin_type: DrupalPluginType,
    pub plugin_id: String,
}

#[derive(Debug)]
pub struct DrupalTranslationString {
    pub string: String,
    pub placeholders: Option<String>,
}

// ---------------------------------------------------------------------------------------------
// Mathematical models of the token types: every string is its sequence of characters.

pub struct MethodModel {
    pub name: Seq<char>,
    pub class_name: Option<Seq<char>>,
    pub service_name: Option<Seq<char>>,
}

pub struct RouteDefaultsModel {
    pub controller: Option<MethodModel>,
    pub form: Option<Seq<char>>,
    pub entity_form: Option<Seq<char>>,
    pub title: Option<Seq<char>>,
}

pub struct PluginModel {
    pub plugin_type: DrupalPluginType,
    pub plugin_id: Seq<char>,
    pub usage_example: Option<Seq<char>>,
}

pub struct ClassModel {
    pub name: Seq<char>,
    pub attribute: Option<PluginModel>,
    /// The span and the method of each method token.
    pub methods: Seq<(Range, MethodModel)>,
}

pub enum TokenDataModel {
    ClassReference(Seq<char>),
    ClassDefinition(ClassModel),
    MethodReference(MethodModel),
    MethodDefinition(MethodModel),
    RouteReference(Seq<char>),
    RouteDefinition { name: Seq<char>, path: Seq<char>, defaults: RouteDefaultsModel },
    ServiceReference(Seq<char>),
    ServiceDefinition { name: Seq<char>, class: Seq<char> },
    HookReference(Seq<char>),
    HookDefinition { name: Seq<char>, parameters: Option<Seq<char>> },
    PermissionDefinition { name: Seq<char>, title: Seq<char> },
    PermissionReference(Seq<char>),
    PluginReference { plugin_type: DrupalPluginType, plugin_id: Seq<char> },
    TranslationString { string: Seq<char>, placeholders: Option<Seq<char>> },
}

pub struct TokenModel {
    pub range: Range,
    pub data: TokenDataModel,
}

impl View for PhpClassName {
    type V = Seq<char>;

    closed spec fn view(&self) -> Seq<char> {
        self.value@
    }
}

pub open spec fn class_opt(o: Option<PhpClassName>) -> Option<Seq<char>> {
    match o {
        Some(c) => Some(c@),
        None => None,
    }
}

impl View for PhpMethod {
    type V = MethodModel;

    open spec fn view(&self) -> MethodModel {
        MethodModel {
            name: self.name@,
            class_name: class_opt(self.class_name),
            service_name: opt_text(self.service_name),
        }
    }
}

pub open spec fn method_opt(o: Option<PhpMethod>) -> Option<MethodModel> {
    match o {
        Some(m) => Some(m@),
        None => None,
    }
}

impl View for DrupalRouteDefaults {
    type V = RouteDefaultsModel;

    open spec fn view(&self) -> RouteDefaultsModel {
        RouteDefaultsModel {
            controller: method_opt(self._controller),
            form: class_opt(self._form),
            entity_form: opt_text(self._entity_form),
            title: opt_text(self._title),
        }
    }
}

impl View for DrupalPlugin {
    type V = PluginModel;

    open spec fn view(&self) -> PluginModel {
        PluginModel {
            plugin_type: self.plugin_type,
            plugin_id: self.plugin_id@,
            usage_example: opt_text(self.usage_example),
        }
    }
}

pub open spec fn attribute_opt(o: Option<ClassAttribute>) -> Option<PluginModel> {
    match o {
        Some(ClassAttribute::Plugin(p)) => Some(p@),
        None => None,
    }
}

/// The span and method of a method token.
pub open spec fn method_slot(t: Token) -> (Range, MethodModel) {
    match t.data {
        TokenData::PhpMethodDefinition(m) => (t.range, m@),
        _ => (t.range, MethodModel { name: Seq::empty(), class_name: None, service_name: None }),
    }
}

impl View for PhpClass {
    type V = ClassModel;

    open spec fn view(&self) -> ClassModel {
        ClassModel {
            name: self.name@,
            attribute: attribute_opt(self.attribute),
            methods: self.methods@.map_values(|t: Token| method_slot(t)),
        }
    }
}

impl View for TokenData {
    type V = TokenDataModel;

    open spec fn view(&self) -> TokenDataModel {
        match self {
            TokenData::PhpClassReference(c) => TokenDataModel::ClassReference(c@),
            TokenData::PhpClassDefinition(c) => TokenDataModel::ClassDefinition(c@),
            TokenData::PhpMethodReference(m) => TokenDataModel::MethodReference(m@),
            TokenData::PhpMethodDefinition(m) => TokenDataModel::MethodDefinition(m@),
            TokenData::DrupalRouteReference(s) => TokenDataModel::RouteReference(s@),
            TokenData::DrupalRouteDefinition(r) => TokenDataModel::RouteDefinition {
                name: r.name@,
                path: r.path@,
                defaults: r._defaults@,
            },
            TokenData::DrupalServiceReference(s) => TokenDataModel::ServiceReference(s@),
            TokenData::DrupalServiceDefinition(s) => TokenDataModel::ServiceDefinition {
                name: s.name@,
                class: s.class@,
            },
            TokenData::DrupalHookReference(s) => TokenDataModel::HookReference(s@),
            TokenData::DrupalHookDefinition(h) => TokenDataModel::HookDefinition {
                name: h.name@,
                parameters: opt_text(h.parameters),
            },
            TokenData::DrupalPermissionDefinition(p) => TokenDataModel::PermissionDefinition {
                name: p.name@,
                title: p.title@,
            },
            TokenData::DrupalPermissionReference(s) => TokenDataModel::PermissionReference(s@),
            TokenData::DrupalPluginReference(p) => TokenDataModel::PluginReference {
                plugin_type: p.plugin_type,
                plugin_id: p.plugin_id@,
            },
            TokenData::DrupalTranslationString(t) => TokenDataModel::TranslationString {
                string: t.string@,
                placeholders: opt_text(t.placeholders),
            },
        }
    }
}

impl View for Token {
    type V = TokenModel;

    open spec fn view(&self) -> TokenModel {
        TokenModel { range: self.range, data: self.data@ }
    }
}

pub open spec fn tokens_view(ts: Seq<Token>) -> Seq<TokenModel> {
    ts.map_values(|t: Token| t@)
}

// ---------------------------------------------------------------------------------------------
// Parsing from strings.

/// The characters trimmed from both ends of a class name.
pub open spec fn class_name_trim() -> Seq<char> {
    seq!['\'', '\\']
}

/// The canonical form of a class name: quotes and backslashes stripped from both ends.
pub open spec fn canonical_class_name(s: Seq<char>) -> Seq<char> {
    trim(s, class_name_trim())
}

/// `Class::method`, split at the first `::` after trimming quotes and backslashes.
#[verifier::opaque]
pub open spec fn split_method(s: Seq<char>) -> Option<(Seq<char>, Seq<char>)> {
    let t = trim(s, class_name_trim());
    match first_occurrence(t, seq![':', ':']) {
        Some(i) => Some((t.subrange(0, i), t.subrange(i + 2, t.len() as int))),
        None => None,
    }
}

/// The plugin kind that an annotation label names.
pub open spec fn plugin_type_of(label: Seq<char>) -> Option<DrupalPluginType> {
    if label == "ContentEntityType"@ || label == "ConfigEntityType"@ {
        Some(DrupalPluginType::EntityType)
    } else if label == "QueueWorker"@ {
        Some(DrupalPluginType::QueueWorker)
    } else if label == "FieldType"@ {
        Some(DrupalPluginType::FieldType)
    } else if label == "DataType"@ {
        Some(DrupalPluginType::DataType)
    } else if label == "FormElement"@ {
        Some(DrupalPluginType::FormElement)
    } else if label == "RenderElement"@ {
        Some(DrupalPluginType::RenderElement)
    } else {
        None
    }
}

/// The pattern of a `{segment}` in a route path.
pub open spec fn route_parameter_pattern() -> Seq<char> {
    "\\{(?<param>[^{}]+)\\}"@
}

/// The segments of a route path, in order.
pub open spec fn route_parameters(path: Seq<char>) -> Seq<Seq<char>> {
    let g = regex_groups(route_parameter_pattern(), path, "param"@);
    g.map_values(|o: Option<Seq<char>>|
        match o {
            Some(s) => s,
            None => Seq::empty(),
        })
}

proof fn lemma_class_name_trim_text()
    ensures
        "'\\"@ == class_name_trim(),
{
    reveal_strlit("'\\");
    assert("'\\"@ =~= class_name_trim());
}

proof fn lemma_separator_text()
    ensures
        "::"@ == seq![':', ':'],
{
    reveal_strlit("::");
    assert("::"@ =~= seq![':', ':']);
}

impl PhpClassName {
    /// The canonical class name of `value`.
    pub fn from(value: &str) -> (r: PhpClassName)
        ensures
            r@ == canonical_class_name(value@),
    {
        let v = chars_of(value);
        PhpClassName::from_chars(v.as_slice())
    }

    pub fn from_chars(value: &[char]) -> (r: PhpClassName)
        ensures
            r@ == canonical_class_name(value@),
    {
        let t = trim_chars(value, "'\\");
        proof {
            lemma_class_name_trim_text();
        }
        PhpClassName { value: string_of(t.as_slice()) }
    }

    pub fn to_string(&self) -> (r: String)
        ensures
            r@ == self@,
    {
        self.value.clone()
    }

    pub fn as_str(&self) -> (r: &str)
        ensures
            r@ == self@,
    {
        self.value.as_str()
    }

    pub fn cloned(&self) -> (r: PhpClassName)
        ensures
            r@ == self@,
    {
        PhpClassName { value: self.value.clone() }
    }
}

impl PhpMethod {
    /// Parses `Class::method`; fails when the text holds no `::`.
    pub fn try_from(value: &str) -> (r: Result<PhpMethod, &'static str>)
        ensures
            r matches Ok(m) ==> split_method(value@) matches Some(p) && m@ == (MethodModel {
                name: p.1,
                class_name: Some(canonical_class_name(p.0)),
                service_name: None,
            }),
            r is Err <==> split_method(value@) is None,
    {
        let v = chars_of(value);
        PhpMethod::from_chars(v.as_slice())
    }

    pub fn from_chars(value: &[char]) -> (r: Result<PhpMethod, &'static str>)
        ensures
            r matches Ok(m) ==> split_method(value@) matches Some(p) && m@ == (MethodModel {
                name: p.1,
                class_name: Some(canonical_class_name(p.0)),
                service_name: None,
            }),
            r is Err <==> split_method(value@) is None,
    {
        let t = trim_chars(value, "'\\");
        proof {
            lemma_class_name_trim_text();
        }
        let sep = chars_of("::");
        proof {
            lemma_separator_text();
        }
        let ghost tv = t@;
        assert(tv == trim(value@, class_name_trim()));
        match find(t.as_slice(), sep.as_slice()) {
            Some(i) => {
                assert(first_occurrence(tv, seq![':', ':']) == Some(i as int));
                assert(occurs_at(tv, sep@, i as int));
                assert(sep@.len() == 2);
                assert(tv.len() == t.len());
                assert(i + 2 <= t.len());
                let class = slice_of(t.as_slice(), 0, i);
                let name = slice_of(t.as_slice(), i + 2, t.len());
                assert(split_method(value@) == Some((class@, name@))) by {
                    reveal(split_method);
                }
                let m = PhpMethod {
                    name: string_of(name.as_slice()),
                    class_name: Some(PhpClassName::from_chars(class.as_slice())),
                    service_name: None,
                };
                Ok(m)
            },
            None => {
                assert(split_method(value@) is None) by {
                    reveal(split_method);
                    assert(first_occurrence(tv, seq![':', ':']) is None);
                }
                Err("Unable to convert string to PhpMethod")
            },
        }
    }
}

impl DrupalPluginType {
    /// The plugin kind that an annotation label names.
    pub fn try_from(value: &str) -> (r: Result<DrupalPluginType, &'static str>)
        ensures
            r matches Ok(t) ==> plugin_type_of(value@) == Some(t),
            r is Err <==> plugin_type_of(value@) is None,
    {
        let v = chars_of(value);
        DrupalPluginType::from_chars(v.as_slice())
    }

    pub fn from_chars(v: &[char]) -> (r: Result<DrupalPluginType, &'static str>)
        ensures
            r matches Ok(t) ==> plugin_type_of(v@) == Some(t),
            r is Err <==> plugin_type_of(v@) is None,
    {
        if crate::text::is_text(v, "ContentEntityType") || crate::text::is_text(v, "ConfigEntityType") {
            Ok(DrupalPluginType::EntityType)
        } else if crate::text::is_text(v, "QueueWorker") {
            Ok(DrupalPluginType::QueueWorker)
        } else if crate::text::is_text(v, "FieldType") {
            Ok(DrupalPluginType::FieldType)
        } else if crate::text::is_text(v, "DataType") {
            Ok(DrupalPluginType::DataType)
        } else if crate::text::is_text(v, "FormElement") {
            Ok(DrupalPluginType::FormElement)
        } else if crate::text::is_text(v, "RenderElement") {
            Ok(DrupalPluginType::RenderElement)
        } else {
            Err("Unable to convert string to DrupalPluginType")
        }
    }

    /// The kind's name, as it is written in the type.
    pub fn to_string(&self) -> (r: String)
        ensures
            r@ == plugin_type_name(*self),
    {
        let s = match self {
            DrupalPluginType::EntityType => "EntityType",
            DrupalPluginType::QueueWorker => "QueueWorker",
            DrupalPluginType::FieldType => "FieldType",
            DrupalPluginType::DataType => "DataType",
            DrupalPluginType::FormElement => "FormElement",
            DrupalPluginType::RenderElement => "RenderElement",
        };
        let c = chars_of(s);
        string_of(c.as_slice())
    }
}

pub open spec fn plugin_type_name(t: DrupalPluginType) -> Seq<char> {
    match t {
        DrupalPluginType::EntityType => "EntityType"@,
        DrupalPluginType::QueueWorker => "QueueWorker"@,
        DrupalPluginType::FieldType => "FieldType"@,
        DrupalPluginType::DataType => "DataType"@,
        DrupalPluginType::FormElement => "FormElement"@,
        DrupalPluginType::RenderElement => "RenderElement"@,
    }
}

impl DrupalRoute {
    /// The `{segment}` names of the route's path, in order.
    pub fn get_route_parameters(&self) -> (r: Vec<String>)
        ensures
            r@.map_values(|s: String| s@) == route_parameters(self.path@),
    {
        let found = captures("\\{(?<param>[^{}]+)\\}", self.path.as_str(), "param");
        let mut r: Vec<String> = Vec::new();
        let mut i: usize = 0;
        while i < found.len()
            invariant
                i <= found@.len(),
                found@.map_values(|o: Option<String>| opt_text(o)) == regex_groups(route_parameter_pattern(), self.path@, "param"@),
                r@.map_values(|s: String| s@) == route_parameters(self.path@).subrange(0, i as int),
            decreases found.len() - i,
        {
            let s = match &found[i] {
                Some(s) => s.clone(),
                None => String::new(),
            };
            proof {
                assert(found@.map_values(|o: Option<String>| opt_text(o))[i as int] == opt_text(found@[i as int]));
                assert(route_parameters(self.path@)[i as int] == s@);
            }
            let ghost before = r@;
            r.push(s);
            proof {
                assert(r@ == before.push(s));
                assert(r@.map_values(|s: String| s@) =~= before.map_values(|s: String| s@).push(s@));
                assert(route_parameters(self.path@).subrange(0, i + 1) =~= route_parameters(self.path@).subrange(0, i as int).push(s@));
            }
            i = i + 1;
        }
        proof {
            assert(route_parameters(self.path@).subrange(0, i as int) =~= route_parameters(self.path@));
        }
        r
    }
}

impl Token {
    pub fn new(data: TokenData, range: Range) -> (r: Token)
        ensures
            r.data == data,
            r.range == range,
    {
        Token { data, range }
    }
}

} // verus!
