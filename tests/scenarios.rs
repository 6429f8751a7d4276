use drupal_ls::actions::{
    from_route_spans, hook_snippet, provide_definition_for_token, route_parameters_text,
    translation_code_action, translation_placeholders,
};
use drupal_ls::completion::{
    completion_candidates, file_name_parts, hooks_offered, method_candidates, nth_line, route_completion_edits,
    CompletionRequest, RouteEdits,
};
use drupal_ls::document::FileType;
use drupal_ls::documentation::get_documentation_for_token;
use drupal_ls::php::PhpParser;
use drupal_ls::store::DocumentStore;
use drupal_ls::syntax::Point;
use drupal_ls::tokens::{ClassAttribute, DrupalHook, DrupalPluginType, TokenData};
use drupal_ls::yaml::YamlParser;

fn point(row: usize, column: usize) -> Point {
    Point { row, column }
}

#[test]
fn service_round_trip() {
    let mut store = DocumentStore::new();
    let yml = String::from("file:///a.services.yml");
    store.add_document(&yml, String::from("my.svc:\n  class: N\\Impl"));
    let php = String::from("file:///b.php");
    store.add_document(&php, String::from("<?php\n$container->get('my.svc');\n"));
    let doc = store.get_document(&php).unwrap();
    let token = doc.get_token_under_cursor(point(1, 19)).expect("token under cursor");
    match &token.data {
        TokenData::DrupalServiceReference(name) => assert_eq!("my.svc", name),
        other => panic!("unexpected token {:?}", other),
    }
    let hover = get_documentation_for_token(&store, &token).expect("hover");
    assert!(hover.contains("Service reference: my.svc"), "{}", hover);
    assert!(hover.contains("```yaml\nmy.svc:\n  class: N\\Impl\n```"), "{}", hover);
    assert!(hover.contains("@see [file:///a.services.yml](file:///a.services.yml)"), "{}", hover);
    let (def_doc, def_token) = provide_definition_for_token(&store, &token).expect("definition");
    assert_eq!(yml, def_doc.uri);
    assert_eq!(point(0, 0), def_token.range.start_point);
    assert_eq!(point(1, 15), def_token.range.end_point);
}

#[test]
fn route_completion_with_parameters() {
    let mut store = DocumentStore::new();
    store.add_document(
        &String::from("file:///m.routing.yml"),
        String::from("r1:\n  path: /x/{a}/{b}\n  defaults:\n    _controller: 'N\\C::m'\n"),
    );
    let items = completion_candidates(&store, CompletionRequest::Routes, "m");
    assert_eq!(1, items.len());
    assert_eq!("r1", items[0].label);
    assert_eq!("Route", items[0].description);
    assert_eq!(Some(String::from(", ['a' => $a, 'b' => $b]")), items[0].route_parameters);
    assert_eq!((11, 0, 0), from_route_spans("fromRoute('')"));
    assert_eq!((18, 2, 12), from_route_spans("$url = fromRoute('r1', ['a' => 1])"));
    let (_, token) = store.get_route_definition("r1").unwrap();
    match &token.data {
        TokenData::DrupalRouteDefinition(route) => {
            assert_eq!("/x/{a}/{b}", route.path);
            assert_eq!(", ['a' => $a, 'b' => $b]", route_parameters_text(route));
            let controller = route._defaults._controller.as_ref().unwrap();
            assert_eq!("m", controller.name);
            assert_eq!("N\\C", controller.class_name.as_ref().unwrap().to_string());
        },
        other => panic!("unexpected token {:?}", other),
    }
}

#[test]
fn hook_definition_and_reference() {
    let mut store = DocumentStore::new();
    store.add_document(
        &String::from("file:///user.module"),
        String::from("<?php\nfunction hook_user_login($account) {\n}\n"),
    );
    let defs = &store.get_document(&String::from("file:///user.module")).unwrap().tokens;
    assert_eq!(1, defs.len());
    match &defs[0].data {
        TokenData::DrupalHookDefinition(h) => {
            assert_eq!("hook_user_login", h.name);
            assert_eq!(Some(String::from("$account")), h.parameters);
        },
        other => panic!("unexpected token {:?}", other),
    }
    let other = String::from("file:///mine.module");
    store.add_document(&other, String::from("<?php\n// Implements hook_user_login().\nfunction mine_user_login($account) {}\n"));
    let doc = store.get_document(&other).unwrap();
    let token = doc.get_token_under_cursor(point(1, 10)).expect("hook reference");
    match &token.data {
        TokenData::DrupalHookReference(name) => assert_eq!("hook_user_login", name),
        other => panic!("unexpected token {:?}", other),
    }
    let hover = get_documentation_for_token(&store, &token).expect("hover");
    assert!(hover.contains("Hook reference: hook_user_login"), "{}", hover);
    assert!(hover.contains("function hook_user_login($account) {\n}"), "{}", hover);
}

#[test]
fn plugin_class_from_doc_comment() {
    let source = "<?php\n\nnamespace Drupal\\my\\Plugin;\n\n/**\n * @QueueWorker(id = \"my.q\")\n *\n * @code\n * $queue = \\Drupal::queue('my.q');\n * @endcode\n */\nclass MyWorker {\n  public function processItem($data) {}\n}\n";
    let tokens = PhpParser::new(source).get_tokens();
    let class = tokens
        .iter()
        .find_map(|t| match &t.data {
            TokenData::PhpClassDefinition(c) => Some(c),
            _ => None,
        })
        .expect("class definition");
    assert_eq!("Drupal\\my\\Plugin\\MyWorker", class.name.to_string());
    match &class.attribute {
        Some(ClassAttribute::Plugin(p)) => {
            assert_eq!(DrupalPluginType::QueueWorker, p.plugin_type);
            assert_eq!("my.q", p.plugin_id);
            assert_eq!(Some(String::from("$queue = \\Drupal::queue('my.q');")), p.usage_example);
        },
        None => panic!("no plugin attribute"),
    }
    assert_eq!(1, class.methods.len());
    match &class.methods[0].data {
        TokenData::PhpMethodDefinition(m) => {
            assert_eq!("processItem", m.name);
            assert_eq!("Drupal\\my\\Plugin\\MyWorker", m.class_name.as_ref().unwrap().to_string());
        },
        other => panic!("unexpected token {:?}", other),
    }

    let mut store = DocumentStore::new();
    store.add_document(&String::from("file:///src/MyWorker.php"), String::from(source));
    let items = completion_candidates(&store, CompletionRequest::Plugins(DrupalPluginType::QueueWorker), "x");
    assert_eq!(1, items.len());
    assert_eq!("my.q", items[0].label);
    assert_eq!("QueueWorker", items[0].description);
    assert!(completion_candidates(&store, CompletionRequest::Plugins(DrupalPluginType::FieldType), "x").is_empty());
}

#[test]
fn queue_reference_under_cursor() {
    let parser = PhpParser::new("<?php\n$q = \\Drupal::queue('my.q');\n");
    let token = parser.get_token_at_position(point(1, 24)).expect("plugin reference");
    match &token.data {
        TokenData::DrupalPluginReference(p) => {
            assert_eq!(DrupalPluginType::QueueWorker, p.plugin_type);
            assert_eq!("my.q", p.plugin_id);
        },
        other => panic!("unexpected token {:?}", other),
    }
}

#[test]
fn translation_code_action_inserts_placeholders() {
    let parser = PhpParser::new("<?php\n$this->t('Hello @name, you have %count messages');\n");
    let token = parser.get_token_at_position(point(1, 14)).expect("translation string");
    match &token.data {
        TokenData::DrupalTranslationString(t) => assert_eq!("Hello @name, you have %count messages", t.string),
        other => panic!("unexpected token {:?}", other),
    }
    let (at, text) = translation_code_action(&token).expect("code action");
    assert_eq!(", ['@name' => '', '%count' => '']", text);
    assert_eq!(point(1, 48), at);
    assert_eq!(", []", translation_placeholders("no placeholders"));
    assert_eq!(", [':url' => '']", translation_placeholders("see :url"));
}

#[test]
fn cursor_in_from_route_string_is_route_reference() {
    let parser = PhpParser::new("<?php\n$u = Url::fromRoute('x');\n");
    let token = parser.get_token_at_position(point(1, 21)).expect("route reference");
    match &token.data {
        TokenData::DrupalRouteReference(name) => assert_eq!("x", name),
        other => panic!("unexpected token {:?}", other),
    }
    assert!(parser.get_token_at_position(point(0, 0)).is_none());
}

#[test]
fn yaml_references_by_key() {
    let source = "r1:\n  path: /x\n  defaults:\n    _form: '\\N\\Form'\n  requirements:\n    _permission: 'access content'\nlink:\n  route_name: 'r1'\n";
    let parser = YamlParser::new(source, "file:///m.routing.yml");
    let t = parser.get_token_at_position(point(5, 20)).expect("permission reference");
    match &t.data {
        TokenData::DrupalPermissionReference(p) => assert_eq!("access content", p),
        other => panic!("unexpected token {:?}", other),
    }
    let t = parser.get_token_at_position(point(7, 16)).expect("route reference");
    match &t.data {
        TokenData::DrupalRouteReference(r) => assert_eq!("r1", r),
        other => panic!("unexpected token {:?}", other),
    }
    let tokens = parser.get_tokens();
    assert_eq!(2, tokens.len());
    match &tokens[1].data {
        TokenData::DrupalRouteReference(r) => assert_eq!("r1", r),
        other => panic!("unexpected token {:?}", other),
    }
    match &tokens[0].data {
        TokenData::DrupalRouteDefinition(r) => {
            assert_eq!("r1", r.name);
            assert_eq!("N\\Form", r._defaults._form.as_ref().unwrap().to_string());
            assert_eq!(Some(String::from("'\\N\\Form'")), r._defaults._entity_form);
        },
        other => panic!("unexpected token {:?}", other),
    }
}

#[test]
fn permissions_file_defines_permissions() {
    let mut store = DocumentStore::new();
    let uri = String::from("file:///m.permissions.yml");
    store.add_document(&uri, String::from("access thing:\n  title: 'Access the thing'\n"));
    let d = store.get_document(&uri).unwrap();
    assert_eq!(FileType::Yaml, d.file_type);
    match &d.tokens[0].data {
        TokenData::DrupalPermissionDefinition(p) => {
            assert_eq!("access thing", p.name);
            assert_eq!("'Access the thing'", p.title);
        },
        other => panic!("unexpected token {:?}", other),
    }
    assert!(store.get_permission_definition("access thing").is_some());
    let items = completion_candidates(&store, CompletionRequest::Permissions, "m");
    assert_eq!(vec![String::from("access thing")], items.iter().map(|c| c.label.clone()).collect::<Vec<_>>());
}

#[test]
fn service_arguments_reference_under_cursor() {
    let source = "a.svc:\n  class: N\\A\n  arguments: ['@b.svc']\n";
    let parser = YamlParser::new(source, "file:///m.services.yml");
    let t = parser.get_token_at_position(point(2, 17)).expect("service reference");
    match &t.data {
        TokenData::DrupalServiceReference(s) => assert_eq!("b.svc", s),
        other => panic!("unexpected token {:?}", other),
    }
}

#[test]
fn method_completion_through_service() {
    let mut store = DocumentStore::new();
    store.add_document(&String::from("file:///m.services.yml"), String::from("my.svc:\n  class: N\\Impl\n"));
    store.add_document(
        &String::from("file:///src/Impl.php"),
        String::from("<?php\nnamespace N;\nclass Impl {\n  public function a() {}\n  public function b() {}\n}\n"),
    );
    let parser = PhpParser::new("<?php\n\\Drupal::service('my.svc')->a();\n");
    let token = parser.get_token_at_position(point(1, 28)).expect("method reference");
    let method = match &token.data {
        TokenData::PhpMethodReference(m) => m,
        other => panic!("unexpected token {:?}", other),
    };
    assert_eq!("a", method.name);
    assert_eq!(Some(String::from("my.svc")), method.service_name);
    assert_eq!(vec![String::from("a"), String::from("b")], method_candidates(&store, method));
    let (_, def) = store.get_method_definition(method).expect("method definition");
    assert_eq!(3, def.range.start_point.row);
}

#[test]
fn hook_snippet_for_module() {
    let hook = DrupalHook { name: String::from("hook_form_FORM_ID_alter"), parameters: Some(String::from("&$form, $state")) };
    assert_eq!(
        "/**\n * Implements hook_form_FORM_ID_alter().\n */\nfunction mine_form_${FORM_ID}_alter(&\\$form, \\$state) {\n  $0\n}",
        hook_snippet(&hook, "mine")
    );
}

#[test]
fn reference_documentation_needs_valid_uri() {
    let mut store = DocumentStore::new();
    store.add_document(&String::from("not a uri.services.yml"), String::from("my.svc:\n  class: N\\Impl\n"));
    assert!(store.get_service_definition("my.svc").is_some());
    let parser = PhpParser::new("<?php\n$container->get('my.svc');\n");
    let token = parser.get_token_at_position(point(1, 19)).expect("service reference");
    assert!(get_documentation_for_token(&store, &token).is_none());
}

#[test]
fn empty_from_route_string_yields_no_token() {
    // An empty literal has no string content for the cursor to rest on.
    let parser = PhpParser::new("<?php\n$u = Url::fromRoute('');\n");
    for column in 18..24 {
        assert!(parser.get_token_at_position(point(1, column)).is_none());
    }
}

#[test]
fn empty_sources_yield_no_tokens() {
    assert!(PhpParser::new("").get_tokens().is_empty());
    assert!(YamlParser::new("", "file:///a.services.yml").get_tokens().is_empty());
    assert!(PhpParser::new("").get_token_at_position(point(0, 0)).is_none());
}

#[test]
fn class_without_namespace_is_not_a_definition() {
    let tokens = PhpParser::new("<?php\nclass Loose {}\n").get_tokens();
    assert!(tokens.iter().all(|t| !matches!(t.data, TokenData::PhpClassDefinition(_))));
}

fn first_class_plugin(source: &str) -> Option<(DrupalPluginType, String, Option<String>)> {
    let tokens = PhpParser::new(source).get_tokens();
    tokens.into_iter().find_map(|t| match t.data {
        TokenData::PhpClassDefinition(c) => match c.attribute {
            Some(ClassAttribute::Plugin(p)) => Some((p.plugin_type, p.plugin_id, p.usage_example)),
            None => None,
        },
        _ => None,
    })
}

#[test]
fn plugin_class_from_attribute() {
    let source = "<?php\nnamespace Drupal\\m\\Element;\n\n/**\n * A date.\n *\n * @code\n * $build['x'] = ['#type' => 'date'];\n * @endcode\n */\n#[FormElement('date')]\nclass Date {}\n";
    let (kind, id, usage) = first_class_plugin(source).expect("plugin attribute");
    assert_eq!(DrupalPluginType::FormElement, kind);
    assert_eq!("date", id);
    assert_eq!(Some(String::from("$build['x'] = ['#type' => 'date'];")), usage);

    let mut store = DocumentStore::new();
    store.add_document(&String::from("file:///src/Element/Date.php"), String::from(source));
    let items = completion_candidates(&store, CompletionRequest::Elements, "m");
    assert_eq!(1, items.len());
    assert_eq!("form-date", items[0].label);
    assert_eq!(Some(String::from("\\$build['x'] = ['#type' => 'date'];")), items[0].insert_text);
}

#[test]
fn plugin_class_from_named_id_argument() {
    let source = "<?php\nnamespace Drupal\\m\\Plugin;\n\n/**\n * Worker.\n */\n#[QueueWorker(id: 'my.q', title: 'Q')]\nclass Worker {}\n";
    let (kind, id, usage) = first_class_plugin(source).expect("plugin attribute");
    assert_eq!(DrupalPluginType::QueueWorker, kind);
    assert_eq!("my.q", id);
    assert_eq!(None, usage);
}

#[test]
fn route_completion_edit_positions() {
    assert_eq!(
        Some(RouteEdits { name_start: 18, name_end: 20, params_start: 21, params_end: 33 }),
        route_completion_edits("$url = fromRoute('r1', ['a' => 1])", 20)
    );
    assert_eq!(
        Some(RouteEdits { name_start: 11, name_end: 11, params_start: 12, params_end: 12 }),
        route_completion_edits("fromRoute('')", 11)
    );
    assert_eq!(None, route_completion_edits("$x = 1;", 3));
}

#[test]
fn current_line_and_file_name() {
    assert_eq!("b", nth_line("a\nb\r\nc", 1));
    assert_eq!("c", nth_line("a\nb\r\nc", 2));
    assert_eq!("", nth_line("a\nb\n", 2));
    assert_eq!(
        Some((String::from("mine"), String::from("module"))),
        file_name_parts("file:///x/y/mine.module")
    );
    assert_eq!(
        Some((String::from("a"), String::from("services.yml"))),
        file_name_parts("file:///a.services.yml")
    );
    assert_eq!(None, file_name_parts("file:///x/Makefile"));
    assert!(hooks_offered("module"));
    assert!(hooks_offered("theme"));
    assert!(!hooks_offered("php"));
}

#[test]
fn lone_placeholder_markers_are_not_placeholders() {
    assert_eq!(", ['@x' => '']", translation_placeholders("100 % of @x and @ alone"));
}

#[test]
fn methods_of_a_class_without_namespace_are_not_top_level() {
    let tokens = PhpParser::new("<?php\nclass Loose {\n  public function a() {}\n}\nfunction hook_x() {}\n").get_tokens();
    assert_eq!(1, tokens.len());
    assert!(matches!(tokens[0].data, TokenData::DrupalHookDefinition(_)));
}

#[test]
fn repeated_method_names_are_kept_once() {
    let source = "<?php\nnamespace N;\nclass C {\n  public function a() {}\n  public function b() {}\n  public function a($x) {}\n}\n";
    let tokens = PhpParser::new(source).get_tokens();
    let class = tokens
        .iter()
        .find_map(|t| match &t.data {
            TokenData::PhpClassDefinition(c) => Some(c),
            _ => None,
        })
        .expect("class");
    let names: Vec<String> = class
        .methods
        .iter()
        .map(|m| match &m.data {
            TokenData::PhpMethodDefinition(m) => m.name.clone(),
            _ => String::new(),
        })
        .collect();
    assert_eq!(vec![String::from("a"), String::from("b")], names);
    assert_eq!(5, class.methods[0].range.start_point.row);
}

#[test]
fn hook_parameters_lose_only_the_outer_parentheses() {
    let tokens = PhpParser::new("<?php\nfunction hook_x($x = f()) {}\n").get_tokens();
    match &tokens[0].data {
        TokenData::DrupalHookDefinition(h) => assert_eq!(Some(String::from("$x = f()")), h.parameters),
        other => panic!("unexpected token {:?}", other),
    }
}

#[test]
fn permissions_file_pair_without_title_is_a_service() {
    let parser = YamlParser::new("my.svc:\n  class: N\\Impl\n", "file:///m.permissions.yml");
    let tokens = parser.get_tokens();
    assert_eq!(1, tokens.len());
    match &tokens[0].data {
        TokenData::DrupalServiceDefinition(s) => assert_eq!("my.svc", s.name),
        other => panic!("unexpected token {:?}", other),
    }
}

#[test]
fn first_known_plugin_attribute_is_taken() {
    let source = "<?php\nnamespace Drupal\\m\\Plugin;\n\n/**\n * Worker.\n */\n#[Other('x')]\n#[QueueWorker(id: 'my.q')]\nclass Worker {}\n";
    let (kind, id, _) = first_class_plugin(source).expect("plugin attribute");
    assert_eq!(DrupalPluginType::QueueWorker, kind);
    assert_eq!("my.q", id);
    let source = "<?php\nnamespace Drupal\\m\\Plugin;\n#[Other('x'), FieldType(id: 'f')]\nclass F {}\n";
    let (kind, id, usage) = first_class_plugin(source).expect("plugin attribute");
    assert_eq!(DrupalPluginType::FieldType, kind);
    assert_eq!("f", id);
    assert_eq!(None, usage);
}
