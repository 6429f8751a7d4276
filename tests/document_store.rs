use drupal_ls::document::{Document, FileType};
use drupal_ls::store::{ContentChange, DocumentStore};
use drupal_ls::tokens::TokenData;

#[test]
fn uri_to_file_type() {
    let document = Document::new(&String::from("file://test.php"), String::new());
    assert_eq!(FileType::Php, document.file_type);

    let document = Document::new(&String::from("file://test.yml"), String::new());
    assert_eq!(FileType::Yaml, document.file_type);

    let document = Document::new(&String::from("file://test.yaml"), String::new());
    assert_eq!(FileType::Yaml, document.file_type);

    let document = Document::new(&String::from("file://test"), String::new());
    assert_eq!(FileType::Unknown, document.file_type);

    let document = Document::new(&String::from("file://test.php.txt"), String::new());
    assert_eq!(FileType::Unknown, document.file_type);
}

#[test]
fn uri_kinds_of_every_suffix() {
    for (uri, kind) in [
        ("test.php", FileType::Php),
        ("foo.module", FileType::Php),
        ("foo.theme", FileType::Php),
        ("foo.install", FileType::Php),
        ("x.yml", FileType::Yaml),
        ("x.yaml", FileType::Yaml),
        ("test.php.txt", FileType::Unknown),
        ("test", FileType::Unknown),
    ] {
        assert_eq!(kind, drupal_ls::document::uri_to_file_type(uri), "{}", uri);
    }
}

#[test]
fn add_document_to_store() {
    let mut store = DocumentStore::new();

    let test_document = String::from("This is a test document.");
    let test_uri = String::from("file://test.php");
    store.add_document(&test_uri, test_document.clone());

    assert_eq!(
        test_document,
        store.get_document(&test_uri).unwrap().content
    );
    assert_eq!(
        FileType::Php,
        store.get_document(&test_uri).unwrap().file_type
    );
}

#[test]
fn change_document_in_store() {
    let mut store = DocumentStore::new();

    let test_uri = String::from("file://test-file.txt");
    store.add_document(&test_uri, String::new());

    let updated_document = String::from("This is an updated document.");
    let changes = vec![ContentChange {
        text: updated_document.clone(),
    }];
    store.change_document(&test_uri, changes);

    assert_eq!(
        updated_document,
        store.get_document(&test_uri).unwrap().content
    );
}

#[test]
fn unknown_kind_change_keeps_no_tokens() {
    let mut store = DocumentStore::new();
    let uri = String::from("file:///notes.txt");
    store.add_document(&uri, String::from("hello"));
    store.change_document(&uri, vec![ContentChange { text: String::from("function hook_x() {}") }]);
    let d = store.get_document(&uri).unwrap();
    assert_eq!("function hook_x() {}", d.content);
    assert_eq!(FileType::Unknown, d.file_type);
    assert!(d.tokens.is_empty());
}

#[test]
fn change_replaces_tokens_with_parse_of_new_text() {
    let mut store = DocumentStore::new();
    let uri = String::from("file:///m.module");
    store.add_document(&uri, String::from("<?php\nfunction hook_a() {}\n"));
    let text = String::from("<?php\nfunction hook_b($x) {}\n");
    store.change_document(&uri, vec![ContentChange { text: text.clone() }]);
    let d = store.get_document(&uri).unwrap();
    assert_eq!(text, d.content);
    assert_eq!(1, d.tokens.len());
    match &d.tokens[0].data {
        TokenData::DrupalHookDefinition(h) => assert_eq!("hook_b", h.name),
        other => panic!("unexpected token {:?}", other),
    }
}

#[test]
fn multiple_changes_are_refused() {
    let mut store = DocumentStore::new();
    let uri = String::from("file:///a.php");
    store.add_document(&uri, String::from("old"));
    store.change_document(
        &uri,
        vec![ContentChange { text: String::from("one") }, ContentChange { text: String::from("two") }],
    );
    assert_eq!("old", store.get_document(&uri).unwrap().content);
}

#[test]
fn change_of_unknown_document_is_dropped() {
    let mut store = DocumentStore::new();
    store.change_document(&String::from("file:///none.php"), vec![ContentChange { text: String::from("x") }]);
    assert!(store.get_document(&String::from("file:///none.php")).is_none());
    assert!(store.get_documents().is_empty());
}

#[test]
fn add_document_replaces_same_uri() {
    let mut store = DocumentStore::new();
    let uri = String::from("file:///a.php");
    store.add_document(&uri, String::from("one"));
    store.add_document(&uri, String::from("two"));
    assert_eq!(1, store.get_documents().len());
    assert_eq!("two", store.get_document(&uri).unwrap().content);
}

#[test]
fn service_defined_in_one_file_is_found_from_another() {
    let mut store = DocumentStore::new();
    let yml = String::from("file:///a.services.yml");
    store.add_document(&yml, String::from("my.svc:\n  class: N\\Impl\n"));
    store.add_document(&String::from("file:///b.php"), String::from("<?php\n$container->get('my.svc');\n"));
    let (doc, token) = store.get_service_definition("my.svc").expect("service found");
    assert_eq!(yml, doc.uri);
    match &token.data {
        TokenData::DrupalServiceDefinition(s) => {
            assert_eq!("my.svc", s.name);
            assert_eq!("N\\Impl", s.class.to_string());
        },
        other => panic!("unexpected token {:?}", other),
    }
    assert_eq!(0, token.range.start_byte);
    assert_eq!(0, token.range.start_point.row);
    assert!(store.get_service_definition("other.svc").is_none());
}
