use swagger_codegen::{
    parse_definition, parse_schema, parse_swagger, DefinitionPropertyType, DefinitionType,
    ParseError, RawValue,
};

fn obj(fields: Vec<(&str, RawValue)>) -> RawValue {
    RawValue::Object(fields.into_iter().map(|(k, v)| (k.to_string(), v)).collect())
}

fn s(text: &str) -> RawValue {
    RawValue::Str(text.to_string())
}

#[test]
fn items_field_resolves_to_array() {
    let node = obj(vec![
        ("items", obj(vec![("type", s("string"))])),
        ("x-vendor", s("kept")),
    ]);
    match parse_schema(node) {
        Ok(DefinitionType::Array { items, additional }) => {
            assert!(matches!(*items, DefinitionType::String { .. }));
            assert_eq!(additional.len(), 1);
            assert_eq!(additional[0].0, "x-vendor");
        }
        _ => panic!("a node with items must resolve to an array"),
    }
}

#[test]
fn properties_field_resolves_to_object_even_when_empty() {
    let node = obj(vec![("properties", obj(vec![]))]);
    match parse_schema(node) {
        Ok(DefinitionType::Object { properties, additional }) => {
            assert_eq!(properties.len(), 0);
            assert_eq!(additional.len(), 0);
        }
        _ => panic!("a node with properties must resolve to an object"),
    }
}

#[test]
fn primitive_type_field_resolves_to_that_primitive() {
    let node = obj(vec![("type", s("integer")), ("format", s("int32"))]);
    match parse_schema(node) {
        Ok(DefinitionType::Integer { additional }) => {
            assert_eq!(additional.len(), 1);
            assert_eq!(additional[0].0, "format");
        }
        _ => panic!("type integer must resolve to the integer shape"),
    }
}

#[test]
fn items_takes_precedence_over_properties_and_type() {
    let node = obj(vec![
        ("type", s("object")),
        ("properties", obj(vec![])),
        ("items", obj(vec![("type", s("boolean"))])),
    ]);
    assert!(matches!(parse_schema(node), Ok(DefinitionType::Array { .. })));
}

#[test]
fn fallback_is_a_permissive_object() {
    let node = obj(vec![("x-only-vendor", s("data"))]);
    match parse_schema(node) {
        Ok(DefinitionType::Object { properties, additional }) => {
            assert_eq!(properties.len(), 0);
            assert_eq!(additional.len(), 1);
        }
        _ => panic!("a bare mapping must fall back to a permissive object"),
    }
}

#[test]
fn unrecognized_type_string_is_rejected() {
    let node = obj(vec![("type", s("tuple"))]);
    match parse_schema(node) {
        Err(ParseError::UnrecognizedEnumValue { value, .. }) => {
            assert_eq!(value, "tuple");
        }
        _ => panic!("type tuple must be rejected"),
    }
}

#[test]
fn property_metadata_is_read_from_the_node() {
    let node = obj(vec![(
        "properties",
        obj(vec![(
            "name",
            obj(vec![
                ("type", s("string")),
                ("description", s("a name")),
                ("pattern", s("^[a-z]+$")),
                ("readOnly", RawValue::Bool(true)),
            ]),
        )]),
    )]);
    match parse_schema(node) {
        Ok(DefinitionType::Object { properties, .. }) => {
            assert_eq!(properties.len(), 1);
            assert_eq!(properties[0].0, "name");
            let p = &properties[0].1;
            assert!(matches!(p.schema, DefinitionType::String { .. }));
            assert_eq!(p.description.as_deref(), Some("a name"));
            assert_eq!(p.pattern.as_deref(), Some("^[a-z]+$"));
            assert_eq!(p.read_only, Some(true));
            assert!(matches!(
                p.definition_property_type,
                Some(DefinitionPropertyType::String)
            ));
        }
        _ => panic!("expected an object schema"),
    }
}

#[test]
fn definition_metadata_is_read_from_the_node() {
    let node = obj(vec![
        ("type", s("object")),
        ("properties", obj(vec![("id", obj(vec![("type", s("integer"))]))])),
        ("required", RawValue::Array(vec![s("id")])),
        (
            "allOf",
            RawValue::Array(vec![obj(vec![("$ref", s("#/definitions/Base"))])]),
        ),
        ("description", s("an entity")),
    ]);
    let d = parse_definition(node).expect("the definition must parse");
    assert!(matches!(d.schema, DefinitionType::Object { .. }));
    assert_eq!(d.required.unwrap(), vec!["id"]);
    let all_of = d.all_of.unwrap();
    assert_eq!(all_of.len(), 1);
    assert_eq!(all_of[0].path, "#/definitions/Base");
    assert_eq!(d.description.as_deref(), Some("an entity"));
}

#[test]
fn definition_with_wrong_kind_of_required_is_rejected() {
    let node = obj(vec![("required", s("id"))]);
    match parse_definition(node) {
        Err(ParseError::WrongKind { context }) => assert_eq!(context, "required"),
        _ => panic!("a non-array required list must be rejected"),
    }
}

#[test]
fn document_without_marker_is_rejected() {
    let doc = obj(vec![("definitions", obj(vec![]))]);
    assert!(matches!(
        parse_swagger(doc),
        Err(ParseError::MissingField { .. })
    ));
}

#[test]
fn document_with_unknown_method_is_rejected() {
    let doc = obj(vec![
        ("swagger", s("2.0")),
        (
            "paths",
            obj(vec![(
                "/pets",
                obj(vec![("fetch", RawValue::Null)]),
            )]),
        ),
    ]);
    match parse_swagger(doc) {
        Err(ParseError::UnrecognizedEnumValue { value, .. }) => {
            assert_eq!(value, "fetch");
        }
        _ => panic!("an unknown method must reject the document"),
    }
}

#[test]
fn walk_reports_the_document_tree() {
    let doc = obj(vec![
        ("swagger", s("2.0")),
        (
            "info",
            obj(vec![("title", s("Pets")), ("version", s("1.0"))]),
        ),
        (
            "paths",
            obj(vec![(
                "/pets",
                obj(vec![(
                    "get",
                    obj(vec![
                        ("operationId", s("listPets")),
                        ("description", s("lists pets")),
                        (
                            "parameters",
                            RawValue::Array(vec![
                                obj(vec![("$ref", s("#/parameters/limit"))]),
                                obj(vec![("name", s("verbose")), ("type", s("boolean"))]),
                            ]),
                        ),
                        (
                            "responses",
                            obj(vec![("200", obj(vec![("description", s("ok"))]))]),
                        ),
                    ]),
                )]),
            )]),
        ),
    ]);
    let sw = parse_swagger(doc).expect("the document must parse");
    let lines = sw.walk();
    assert_eq!(
        lines,
        vec![
            "Pets",
            "----------------------",
            "Endpoint: /pets",
            "Method: GET",
            "Id: listPets",
            "Description: lists pets",
            "Ref Parameter",
            "  Path: #/parameters/limit",
            "Inline Parameter",
        ]
    );
}

#[test]
fn document_sections_are_parsed() {
    let doc = obj(vec![
        ("swagger", s("2.0")),
        (
            "info",
            obj(vec![("title", s("Pets")), ("version", s("1.0"))]),
        ),
        ("host", s("example.test")),
        (
            "schemes",
            RawValue::Array(vec![s("https"), s("http")]),
        ),
        (
            "paths",
            obj(vec![(
                "/pets",
                obj(vec![(
                    "get",
                    obj(vec![
                        ("operationId", s("listPets")),
                        ("parameters", RawValue::Array(vec![])),
                        (
                            "responses",
                            obj(vec![(
                                "200",
                                obj(vec![("description", s("ok"))]),
                            )]),
                        ),
                    ]),
                )]),
            )]),
        ),
        (
            "parameters",
            obj(vec![(
                "limit",
                obj(vec![
                    ("name", s("limit")),
                    ("in", s("query")),
                    ("required", RawValue::Bool(false)),
                    ("type", s("integer")),
                ]),
            )]),
        ),
    ]);
    let sw = parse_swagger(doc).expect("the document must parse");
    assert_eq!(sw.swagger, "2.0");
    let info = sw.info.expect("info present");
    assert_eq!(info.title, "Pets");
    assert_eq!(info.version, "1.0");
    assert_eq!(sw.host.as_deref(), Some("example.test"));
    assert_eq!(sw.schemes.unwrap(), vec!["https", "http"]);
    let paths = sw.paths.expect("paths present");
    assert_eq!(paths.len(), 1);
    assert_eq!(paths[0].0, "/pets");
    assert_eq!(paths[0].1.operations.len(), 1);
    let op = paths[0].1.operations[0].1.as_ref().expect("operation present");
    assert_eq!(op.id, "listPets");
    assert_eq!(op.responses.len(), 1);
    let params = sw.parameters.expect("parameters present");
    assert_eq!(params.len(), 1);
    assert_eq!(params[0].0, "limit");
    assert_eq!(params[0].1.name.as_deref(), Some("limit"));
}
