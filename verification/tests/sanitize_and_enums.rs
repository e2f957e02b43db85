use swagger_codegen::{
    format_as_file_name, format_name_as_valid_struct_identifier, HttpStatus, Method, ParseError,
    SchemaFormat, SchemaType,
};

#[test]
fn sanitizer_camel_cases_separated_words() {
    let r = format_name_as_valid_struct_identifier("user-id");
    assert_eq!(r, "UserId");
}

#[test]
fn sanitizer_guards_leading_digit() {
    let r = format_name_as_valid_struct_identifier("2fa_code");
    assert_eq!(r, "X2faCode");
}

#[test]
fn sanitizer_is_idempotent() {
    let once = format_name_as_valid_struct_identifier("user-id");
    let twice = format_name_as_valid_struct_identifier(&once);
    assert_eq!(once, twice);

    let once = format_name_as_valid_struct_identifier("2fa_code");
    let twice = format_name_as_valid_struct_identifier(&once);
    assert_eq!(once, twice);

    let once = format_name_as_valid_struct_identifier("weird!!name##here");
    let twice = format_name_as_valid_struct_identifier(&once);
    assert_eq!(once, twice);
}

#[test]
fn sanitizer_is_total_on_strange_input() {
    assert_eq!(format_name_as_valid_struct_identifier(""), "X");
    assert_eq!(format_name_as_valid_struct_identifier("---"), "X");
    assert_eq!(format_name_as_valid_struct_identifier("42"), "X42");
    assert_eq!(format_name_as_valid_struct_identifier("petStore"), "PetStore");
}

#[test]
fn file_name_sanitizer_lowers_and_joins() {
    assert_eq!(format_as_file_name("petstore.json"), "petstore_json");
    assert_eq!(format_as_file_name("My-Domain"), "my_domain");
    assert_eq!(format_as_file_name(""), "f");
    assert_eq!(format_as_file_name("7zip"), "f7zip");
}

#[test]
fn method_parse_is_case_insensitive() {
    assert!(matches!(Method::parse("GET"), Ok(Method::Get)));
    assert!(matches!(Method::parse("post"), Ok(Method::Post)));
    assert!(matches!(Method::parse("DeLeTe"), Ok(Method::Delete)));
    assert!(matches!(Method::parse("head"), Ok(Method::Head)));
}

#[test]
fn method_parse_rejects_unknown_with_value_and_set() {
    match Method::parse("FETCH") {
        Err(ParseError::UnrecognizedEnumValue { value, expected }) => {
            assert_eq!(value, "FETCH");
            assert_eq!(expected, "post, get, put, delete, patch, head");
        }
        _ => panic!("FETCH must be rejected"),
    }
}

#[test]
fn schema_type_parse_accepts_the_closed_set() {
    assert!(matches!(SchemaType::parse("string"), Ok(SchemaType::String)));
    assert!(matches!(SchemaType::parse("NUMBER"), Ok(SchemaType::Number)));
    assert!(matches!(SchemaType::parse("Integer"), Ok(SchemaType::Integer)));
    assert!(matches!(SchemaType::parse("boolean"), Ok(SchemaType::Boolean)));
    assert!(matches!(SchemaType::parse("array"), Ok(SchemaType::Array)));
    assert!(matches!(SchemaType::parse("object"), Ok(SchemaType::Object)));
}

#[test]
fn schema_type_parse_rejects_tuple() {
    match SchemaType::parse("tuple") {
        Err(ParseError::UnrecognizedEnumValue { value, expected }) => {
            assert_eq!(value, "tuple");
            assert_eq!(expected, "object, string, number, integer, boolean, array");
        }
        _ => panic!("tuple must be rejected"),
    }
}

#[test]
fn http_status_parse_covers_the_closed_set() {
    assert!(matches!(HttpStatus::parse("200"), Ok(HttpStatus::Success)));
    assert!(matches!(HttpStatus::parse("201"), Ok(HttpStatus::Created)));
    assert!(matches!(HttpStatus::parse("202"), Ok(HttpStatus::Accepted)));
    assert!(matches!(HttpStatus::parse("204"), Ok(HttpStatus::NoContent)));
    assert!(matches!(HttpStatus::parse("DEFAULT"), Ok(HttpStatus::Default)));
    assert!(matches!(
        HttpStatus::parse("418"),
        Err(ParseError::UnrecognizedEnumValue { .. })
    ));
}

#[test]
fn schema_format_parse_accepts_date_time_only() {
    assert!(matches!(SchemaFormat::parse("date-time"), Ok(SchemaFormat::DateTime)));
    assert!(matches!(SchemaFormat::parse("DATE-TIME"), Ok(SchemaFormat::DateTime)));
    match SchemaFormat::parse("date") {
        Err(ParseError::UnrecognizedEnumValue { value, expected }) => {
            assert_eq!(value, "date");
            assert_eq!(expected, "date-time");
        }
        _ => panic!("date must be rejected"),
    }
}

#[test]
fn method_text_is_upper_case() {
    assert_eq!(Method::Get.as_str(), "GET");
    assert_eq!(Method::Post.as_str(), "POST");
    assert_eq!(Method::Patch.as_str(), "PATCH");
}

#[test]
fn primitive_mapping_table_is_explicit() {
    assert_eq!(SchemaType::String.get_type_as_string(), Some("String"));
    assert_eq!(SchemaType::Number.get_type_as_string(), Some("f32"));
    assert_eq!(SchemaType::Integer.get_type_as_string(), Some("i32"));
    assert_eq!(SchemaType::Boolean.get_type_as_string(), Some("bool"));
    assert_eq!(SchemaType::Object.get_type_as_string(), None);
    assert_eq!(SchemaType::Array.get_type_as_string(), None);
}
