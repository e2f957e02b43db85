mod chars;
mod determinism;
mod document;
mod emit;
mod generator;
mod laws;
mod models;
mod parser;
mod raw;
mod sanitize;
mod schema;
mod strutil;
mod walk;

pub use determinism::{lemma_doc_decls_deterministic, lemma_run_deterministic};
pub use document::parse_swagger;
pub use generator::{assemble_manifest, GeneratedProject, ModuleOutcome, RustGenerator, SpecificationFile};
pub use laws::{
    lemma_distinct_parameter_declarations, lemma_distinct_parameter_wrappers,
    lemma_empty_document_no_declarations, lemma_field_key_injective, lemma_manifest_sorted,
    lemma_non_generated_adds_nothing, lemma_object_fields_exact, lemma_parameter_wrappers_exact,
};
pub use emit::{create_struct, create_struct_simple_type};
pub use models::{
    HttpStatus, Info, Method, Operation, Parameter, ParameterType, ParseError, PathItem,
    Reference, Response, SchemaFormat, SchemaType, Swagger,
};
pub use parser::{parse_definition, parse_parameter, parse_properties, parse_property, parse_schema};
pub use raw::RawValue;
pub use sanitize::{format_as_file_name, format_name_as_valid_struct_identifier};
pub use schema::{Definition, DefinitionProperty, DefinitionPropertyType, DefinitionType};
