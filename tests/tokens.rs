use drupal_ls::tokens::{DrupalPluginType, DrupalRoute, DrupalRouteDefaults, PhpClassName, PhpMethod};

#[test]
fn create_php_class_from_string() {
    assert_eq!(
        "Drupal\\test\\TestClass",
        PhpClassName::from("Drupal\\test\\TestClass").to_string()
    );
    assert_eq!(
        "Drupal\\test\\TestClass",
        PhpClassName::from("\\Drupal\\test\\TestClass").to_string()
    );
    assert_eq!(
        "Drupal\\test\\TestClass",
        PhpClassName::from("'\\Drupal\\test\\TestClass\\'").to_string()
    );
}

#[test]
fn create_php_method_from_string() {
    assert_eq!(
        "myMethod",
        PhpMethod::try_from("Drupal\\test\\TestClass::myMethod")
            .unwrap()
            .name
    );
    assert_eq!(
        "Drupal\\test\\TestClass",
        PhpMethod::try_from("Drupal\\test\\TestClass::myMethod")
            .unwrap()
            .class_name
            .unwrap()
            .to_string()
    );
    assert_eq!(
        "myMethod",
        PhpMethod::try_from("'\\Drupal\\test\\TestClass::myMethod'")
            .unwrap()
            .name
    );
    assert_eq!(
        "Drupal\\test\\TestClass",
        PhpMethod::try_from("'\\Drupal\\test\\TestClass::myMethod'")
            .unwrap()
            .class_name
            .unwrap()
            .to_string()
    );
    assert!(PhpMethod::try_from("invalid class").is_err());
}

#[test]
fn class_name_canonical_forms_agree() {
    assert_eq!("N\\C", PhpClassName::from("N\\C").to_string());
    assert_eq!("N\\C", PhpClassName::from("\\N\\C").to_string());
    assert_eq!("N\\C", PhpClassName::from("'\\N\\C\\'").to_string());
    assert_eq!("", PhpClassName::from("'\\'").to_string());
}

#[test]
fn method_reference_parsing() {
    let m = PhpMethod::try_from("N\\C::m").unwrap();
    assert_eq!("m", m.name);
    assert_eq!("N\\C", m.class_name.unwrap().to_string());
    assert!(m.service_name.is_none());
    let m = PhpMethod::try_from("'\\N\\C::m'").unwrap();
    assert_eq!("m", m.name);
    assert_eq!("N\\C", m.class_name.unwrap().to_string());
    assert!(PhpMethod::try_from("not_a_method").is_err());
    // Only the first `::` splits.
    let m = PhpMethod::try_from("A::b::c").unwrap();
    assert_eq!("b::c", m.name);
    assert_eq!("A", m.class_name.unwrap().to_string());
}

#[test]
fn plugin_kind_labels() {
    assert_eq!(Ok(DrupalPluginType::EntityType), DrupalPluginType::try_from("ContentEntityType"));
    assert_eq!(Ok(DrupalPluginType::EntityType), DrupalPluginType::try_from("ConfigEntityType"));
    assert_eq!(Ok(DrupalPluginType::QueueWorker), DrupalPluginType::try_from("QueueWorker"));
    assert_eq!(Ok(DrupalPluginType::FieldType), DrupalPluginType::try_from("FieldType"));
    assert_eq!(Ok(DrupalPluginType::DataType), DrupalPluginType::try_from("DataType"));
    assert_eq!(Ok(DrupalPluginType::FormElement), DrupalPluginType::try_from("FormElement"));
    assert_eq!(Ok(DrupalPluginType::RenderElement), DrupalPluginType::try_from("RenderElement"));
    assert!(DrupalPluginType::try_from("Block").is_err());
    assert!(DrupalPluginType::try_from("").is_err());
    assert_eq!("QueueWorker", DrupalPluginType::QueueWorker.to_string());
}

#[test]
fn route_parameters_in_order() {
    let route = DrupalRoute {
        name: String::from("r1"),
        path: String::from("/x/{a}/{b}"),
        _defaults: DrupalRouteDefaults { _controller: None, _form: None, _entity_form: None, _title: None },
    };
    assert_eq!(vec![String::from("a"), String::from("b")], route.get_route_parameters());
    let plain = DrupalRoute {
        name: String::from("r2"),
        path: String::from("/x/y"),
        _defaults: DrupalRouteDefaults { _controller: None, _form: None, _entity_form: None, _title: None },
    };
    assert!(plain.get_route_parameters().is_empty());
}
