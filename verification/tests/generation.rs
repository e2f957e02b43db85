use swagger_codegen::{
    assemble_manifest, create_struct_simple_type, GeneratedProject, ModuleOutcome, ParseError,
    RawValue, RustGenerator, SpecificationFile,
};

fn obj(fields: Vec<(&str, RawValue)>) -> RawValue {
    RawValue::Object(fields.into_iter().map(|(k, v)| (k.to_string(), v)).collect())
}

fn s(text: &str) -> RawValue {
    RawValue::Str(text.to_string())
}

fn pet_document() -> RawValue {
    obj(vec![
        ("swagger", s("2.0")),
        (
            "definitions",
            obj(vec![(
                "Pet",
                obj(vec![
                    ("type", s("object")),
                    (
                        "properties",
                        obj(vec![
                            ("name", obj(vec![("type", s("string"))])),
                            ("age", obj(vec![("type", s("integer"))])),
                        ]),
                    ),
                ]),
            )]),
        ),
    ])
}

fn written_modules(project: &GeneratedProject) -> Vec<(String, String)> {
    project
        .outcomes
        .iter()
        .filter_map(|o| match o {
            ModuleOutcome::Generated { key, module_name, .. } => {
                Some((key.clone(), module_name.clone()))
            }
            _ => None,
        })
        .collect()
}

fn empty_document() -> RawValue {
    obj(vec![("swagger", s("2.0")), ("definitions", obj(vec![]))])
}

#[test]
fn simple_type_is_a_single_field_wrapper() {
    let decl = create_struct_simple_type(&"user-id".to_string(), "String".to_string());
    assert_eq!(decl, "pub struct UserId(String);");
}

#[test]
fn two_parameters_with_one_primitive_get_distinct_types() {
    let a = create_struct_simple_type(&"user_id".to_string(), "String".to_string());
    let b = create_struct_simple_type(&"file_name".to_string(), "String".to_string());
    assert_ne!(a, b);
    assert!(a.contains("UserId"));
    assert!(b.contains("FileName"));
}

#[test]
fn pet_document_yields_one_struct_and_one_manifest_line() {
    let generator = RustGenerator::default();
    let project = generator.generate(vec![SpecificationFile {
        file_name: "pets.json".to_string(),
        domain_name: "store".to_string(),
        document: pet_document(),
    }]);
    assert_eq!(project.files.len(), 1);
    assert_eq!(project.files[0].0, "store_pets_json");
    let expected = "pub struct Pet {\n    pub age: i32,\n    pub name: String,\n}\n";
    assert_eq!(project.files[0].1, expected);
    assert_eq!(
        assemble_manifest(&written_modules(&project)),
        "pub mod store_pets_json;\n"
    );
    assert_eq!(project.outcomes.len(), 1);
    match &project.outcomes[0] {
        ModuleOutcome::Generated { key, .. } => assert_eq!(key, "pets.json"),
        _ => panic!("the pet document must generate a module"),
    }
}

#[test]
fn empty_document_produces_no_file_and_no_manifest_entry() {
    let generator = RustGenerator::default();
    let project = generator.generate(vec![SpecificationFile {
        file_name: "empty.json".to_string(),
        domain_name: "store".to_string(),
        document: empty_document(),
    }]);
    assert_eq!(project.files.len(), 0);
    assert_eq!(assemble_manifest(&written_modules(&project)), "");
    assert_eq!(project.outcomes.len(), 1);
    match &project.outcomes[0] {
        ModuleOutcome::Empty { file_name, .. } => assert_eq!(file_name, "empty.json"),
        _ => panic!("an empty document must be skipped"),
    }
}

#[test]
fn parameters_become_wrapper_types_before_definitions() {
    let generator = RustGenerator::default();
    let doc = obj(vec![
        ("swagger", s("2.0")),
        (
            "parameters",
            obj(vec![
                (
                    "limit",
                    obj(vec![("name", s("limit")), ("type", s("integer"))]),
                ),
                (
                    "user-id",
                    obj(vec![("name", s("user-id")), ("type", s("string"))]),
                ),
                (
                    "body",
                    obj(vec![("name", s("body")), ("type", s("object"))]),
                ),
            ]),
        ),
    ]);
    let project = generator.generate(vec![SpecificationFile {
        file_name: "api.json".to_string(),
        domain_name: "svc".to_string(),
        document: doc,
    }]);
    assert_eq!(project.files.len(), 1);
    let expected = "pub struct Limit(i32);\npub struct UserId(String);\n";
    assert_eq!(project.files[0].1, expected);
    match &project.outcomes[0] {
        ModuleOutcome::Generated { skipped_parameters, .. } => {
            assert_eq!(skipped_parameters, &vec!["body".to_string()]);
        }
        _ => panic!("the document must generate a module"),
    }
}

#[test]
fn a_failing_document_leaves_the_others_intact() {
    let generator = RustGenerator::default();
    let bad = obj(vec![
        ("swagger", s("2.0")),
        (
            "paths",
            obj(vec![("/x", obj(vec![("FETCH", RawValue::Null)]))]),
        ),
    ]);
    let project = generator.generate(vec![
        SpecificationFile {
            file_name: "bad.json".to_string(),
            domain_name: "store".to_string(),
            document: bad,
        },
        SpecificationFile {
            file_name: "pets.json".to_string(),
            domain_name: "store".to_string(),
            document: pet_document(),
        },
    ]);
    assert_eq!(project.outcomes.len(), 2);
    match &project.outcomes[0] {
        ModuleOutcome::Failed { file_name, error } => {
            assert_eq!(file_name, "bad.json");
            match error {
                ParseError::UnrecognizedEnumValue { value, .. } => assert_eq!(value, "FETCH"),
                _ => panic!("the failure must name the bad method"),
            }
        }
        _ => panic!("the bad document must fail"),
    }
    assert_eq!(project.files.len(), 1);
    assert_eq!(project.files[0].0, "store_pets_json");
    assert_eq!(
        assemble_manifest(&written_modules(&project)),
        "pub mod store_pets_json;\n"
    );
}

#[test]
fn manifest_lines_are_sorted_by_file_name() {
    let generator = RustGenerator::default();
    let project = generator.generate(vec![
        SpecificationFile {
            file_name: "zoo.json".to_string(),
            domain_name: "d".to_string(),
            document: pet_document(),
        },
        SpecificationFile {
            file_name: "aviary.json".to_string(),
            domain_name: "d".to_string(),
            document: pet_document(),
        },
    ]);
    assert_eq!(project.files.len(), 2);
    assert_eq!(project.files[0].0, "d_zoo_json");
    assert_eq!(project.files[1].0, "d_aviary_json");
    assert_eq!(
        assemble_manifest(&written_modules(&project)),
        "pub mod d_aviary_json;\npub mod d_zoo_json;\n"
    );
}

#[test]
fn manifest_order_follows_the_raw_input_file_name() {
    let generator = RustGenerator::default();
    let project = generator.generate(vec![
        SpecificationFile {
            file_name: "a.json".to_string(),
            domain_name: "d".to_string(),
            document: pet_document(),
        },
        SpecificationFile {
            file_name: "B.json".to_string(),
            domain_name: "d".to_string(),
            document: pet_document(),
        },
    ]);
    assert_eq!(
        assemble_manifest(&written_modules(&project)),
        "pub mod d_b_json;\npub mod d_a_json;\n"
    );
}

#[test]
fn manifest_leaves_off_a_module_that_was_not_written() {
    let generator = RustGenerator::default();
    let project = generator.generate(vec![
        SpecificationFile {
            file_name: "zoo.json".to_string(),
            domain_name: "d".to_string(),
            document: pet_document(),
        },
        SpecificationFile {
            file_name: "aviary.json".to_string(),
            domain_name: "d".to_string(),
            document: pet_document(),
        },
    ]);
    let mut written = written_modules(&project);
    written.remove(0);
    assert_eq!(assemble_manifest(&written), "pub mod d_aviary_json;\n");
}

#[test]
fn struct_fields_are_sorted_by_sanitized_name() {
    let generator = RustGenerator::default();
    let doc = obj(vec![
        ("swagger", s("2.0")),
        (
            "definitions",
            obj(vec![(
                "Item",
                obj(vec![
                    ("type", s("object")),
                    (
                        "properties",
                        obj(vec![
                            ("Zip", obj(vec![("type", s("string"))])),
                            ("apple", obj(vec![("type", s("integer"))])),
                        ]),
                    ),
                ]),
            )]),
        ),
    ]);
    let project = generator.generate(vec![SpecificationFile {
        file_name: "items.json".to_string(),
        domain_name: "d".to_string(),
        document: doc,
    }]);
    let expected = "pub struct Item {\n    pub apple: i32,\n    pub Zip: String,\n}\n";
    assert_eq!(project.files[0].1, expected);
}

#[test]
fn colliding_sanitized_field_names_keep_both_fields() {
    let generator = RustGenerator::default();
    let doc = obj(vec![
        ("swagger", s("2.0")),
        (
            "definitions",
            obj(vec![(
                "Item",
                obj(vec![
                    ("type", s("object")),
                    (
                        "properties",
                        obj(vec![
                            ("a", obj(vec![("type", s("integer"))])),
                            ("A", obj(vec![("type", s("string"))])),
                        ]),
                    ),
                ]),
            )]),
        ),
    ]);
    let project = generator.generate(vec![SpecificationFile {
        file_name: "items.json".to_string(),
        domain_name: "d".to_string(),
        document: doc,
    }]);
    let expected = "pub struct Item {\n    pub A: String,\n    pub a: i32,\n}\n";
    assert_eq!(project.files[0].1, expected);
}

#[test]
fn two_runs_on_identical_input_are_byte_identical() {
    let generator = RustGenerator::default();
    let run = |(): ()| {
        generator.generate(vec![
            SpecificationFile {
                file_name: "pets.json".to_string(),
                domain_name: "store".to_string(),
                document: pet_document(),
            },
            SpecificationFile {
                file_name: "empty.json".to_string(),
                domain_name: "store".to_string(),
                document: empty_document(),
            },
        ])
    };
    let first = run(());
    let second = run(());
    assert_eq!(first.files, second.files);
    assert_eq!(
        assemble_manifest(&written_modules(&first)),
        assemble_manifest(&written_modules(&second))
    );
}
