use vstd::prelude::*;
use vstd::string::*;

use crate::schema::Definition;
use crate::strutil::{eq_ignore_ascii_case, spec_lower};

verus! {

/// Why a document was rejected. Every condition is scoped to one document:
/// the caller reports it and goes on with the next document.
#[derive(Debug)]
pub enum ParseError {
    /// An enumerated value (an HTTP method, a schema type, a status code)
    /// matched none of the accepted spellings; `expected` names the closed set.
    UnrecognizedEnumValue { value: String, expected: String },
    /// A field the document format requires is absent.
    MissingField { field: String },
    /// A node has the wrong kind of value (an object where a string is owed,
    /// and the like); `context` names the surrounding field.
    WrongKind { context: String },
}

#[derive(Debug, PartialEq, Eq, Structural, Clone, Copy, Hash)]
pub enum Method {
    Post,
    Get,
    Put,
    Delete,
    Patch,
    Head,
}

#[derive(Debug, PartialEq, Eq, Structural, Clone, Copy)]
pub enum HttpStatus {
    Success,
    Created,
    Accepted,
    NoContent,
    Default,
}

#[derive(Debug, PartialEq, Eq, Structural, Clone, Copy)]
pub enum SchemaType {
    Object,
    String,
    Number,
    Integer,
    Boolean,
    Array,
}

#[derive(Debug, PartialEq, Eq, Structural, Clone, Copy)]
pub enum SchemaFormat {
    DateTime,
    String,
}

/// The method a spelling names, compared without regard to ASCII case.
pub open spec fn spec_parse_method(s: Seq<char>) -> Option<Method> {
    if spec_lower(s) == "post"@ {
        Some(Method::Post)
    } else if spec_lower(s) == "get"@ {
        Some(Method::Get)
    } else if spec_lower(s) == "put"@ {
        Some(Method::Put)
    } else if spec_lower(s) == "delete"@ {
        Some(Method::Delete)
    } else if spec_lower(s) == "patch"@ {
        Some(Method::Patch)
    } else if spec_lower(s) == "head"@ {
        Some(Method::Head)
    } else {
        None
    }
}

/// The schema type a spelling names, compared without regard to ASCII case.
pub open spec fn spec_parse_schema_type(s: Seq<char>) -> Option<SchemaType> {
    if spec_lower(s) == "string"@ {
        Some(SchemaType::String)
    } else if spec_lower(s) == "number"@ {
        Some(SchemaType::Number)
    } else if spec_lower(s) == "integer"@ {
        Some(SchemaType::Integer)
    } else if spec_lower(s) == "boolean"@ {
        Some(SchemaType::Boolean)
    } else if spec_lower(s) == "array"@ {
        Some(SchemaType::Array)
    } else if spec_lower(s) == "object"@ {
        Some(SchemaType::Object)
    } else {
        None
    }
}

/// The schema format a spelling names, compared without regard to ASCII case.
pub open spec fn spec_parse_schema_format(s: Seq<char>) -> Option<SchemaFormat> {
    if spec_lower(s) == "date-time"@ {
        Some(SchemaFormat::DateTime)
    } else {
        None
    }
}

/// The response status a spelling names, compared without regard to ASCII case.
pub open spec fn spec_parse_http_status(s: Seq<char>) -> Option<HttpStatus> {
    if spec_lower(s) == "200"@ {
        Some(HttpStatus::Success)
    } else if spec_lower(s) == "201"@ {
        Some(HttpStatus::Created)
    } else if spec_lower(s) == "202"@ {
        Some(HttpStatus::Accepted)
    } else if spec_lower(s) == "204"@ {
        Some(HttpStatus::NoContent)
    } else if spec_lower(s) == "default"@ {
        Some(HttpStatus::Default)
    } else {
        None
    }
}

impl Method {
    /// Decodes an HTTP method name; unrecognized spellings are rejected with
    /// the offending value and the closed set of accepted ones.
    pub fn parse(s: &str) -> (r: Result<Method, ParseError>)
        ensures
            r is Ok <==> spec_parse_method(s@) is Some,
            r matches Ok(m) ==> spec_parse_method(s@) == Some(m),
            r matches Err(e) ==> e matches ParseError::UnrecognizedEnumValue { value, expected }
                && value@ == s@ && expected@ == "post, get, put, delete, patch, head"@,
    {
        if eq_ignore_ascii_case(s, "post") {
            Ok(Method::Post)
        } else if eq_ignore_ascii_case(s, "get") {
            Ok(Method::Get)
        } else if eq_ignore_ascii_case(s, "put") {
            Ok(Method::Put)
        } else if eq_ignore_ascii_case(s, "delete") {
            Ok(Method::Delete)
        } else if eq_ignore_ascii_case(s, "patch") {
            Ok(Method::Patch)
        } else if eq_ignore_ascii_case(s, "head") {
            Ok(Method::Head)
        } else {
            Err(ParseError::UnrecognizedEnumValue {
                value: String::from_str(s),
                expected: String::from_str("post, get, put, delete, patch, head"),
            })
        }
    }

    /// The canonical upper-case spelling of the method.
    pub fn as_str(&self) -> (r: &'static str)
        ensures
            r@ == spec_method_text(*self),
    {
        match self {
            Method::Post => "POST",
            Method::Get => "GET",
            Method::Put => "PUT",
            Method::Delete => "DELETE",
            Method::Patch => "PATCH",
            Method::Head => "HEAD",
        }
    }
}

/// The canonical upper-case spelling of an HTTP method.
pub open spec fn spec_method_text(m: Method) -> Seq<char> {
    match m {
        Method::Post => "POST"@,
        Method::Get => "GET"@,
        Method::Put => "PUT"@,
        Method::Delete => "DELETE"@,
        Method::Patch => "PATCH"@,
        Method::Head => "HEAD"@,
    }
}

impl SchemaType {
    /// Decodes a schema type name; unrecognized spellings are rejected with
    /// the offending value and the closed set of accepted ones.
    pub fn parse(s: &str) -> (r: Result<SchemaType, ParseError>)
        ensures
            r is Ok <==> spec_parse_schema_type(s@) is Some,
            r matches Ok(t) ==> spec_parse_schema_type(s@) == Some(t),
            r matches Err(e) ==> e matches ParseError::UnrecognizedEnumValue { value, expected }
                && value@ == s@ && expected@ == "object, string, number, integer, boolean, array"@,
    {
        if eq_ignore_ascii_case(s, "string") {
            Ok(SchemaType::String)
        } else if eq_ignore_ascii_case(s, "number") {
            Ok(SchemaType::Number)
        } else if eq_ignore_ascii_case(s, "integer") {
            Ok(SchemaType::Integer)
        } else if eq_ignore_ascii_case(s, "boolean") {
            Ok(SchemaType::Boolean)
        } else if eq_ignore_ascii_case(s, "array") {
            Ok(SchemaType::Array)
        } else if eq_ignore_ascii_case(s, "object") {
            Ok(SchemaType::Object)
        } else {
            Err(ParseError::UnrecognizedEnumValue {
                value: String::from_str(s),
                expected: String::from_str("object, string, number, integer, boolean, array"),
            })
        }
    }
}

impl SchemaFormat {
    /// Decodes a schema format name; unrecognized spellings are rejected with
    /// the offending value and the closed set of accepted ones.
    pub fn parse(s: &str) -> (r: Result<SchemaFormat, ParseError>)
        ensures
            r is Ok <==> spec_parse_schema_format(s@) is Some,
            r matches Ok(f) ==> spec_parse_schema_format(s@) == Some(f),
            r matches Err(e) ==> e matches ParseError::UnrecognizedEnumValue { value, expected }
                && value@ == s@ && expected@ == "date-time"@,
    {
        if eq_ignore_ascii_case(s, "date-time") {
            Ok(SchemaFormat::DateTime)
        } else {
            Err(ParseError::UnrecognizedEnumValue {
                value: String::from_str(s),
                expected: String::from_str("date-time"),
            })
        }
    }
}

impl HttpStatus {
    /// Decodes a response status key; unrecognized spellings are rejected with
    /// the offending value and the closed set of accepted ones.
    pub fn parse(s: &str) -> (r: Result<HttpStatus, ParseError>)
        ensures
            r is Ok <==> spec_parse_http_status(s@) is Some,
            r matches Ok(h) ==> spec_parse_http_status(s@) == Some(h),
            r matches Err(e) ==> e matches ParseError::UnrecognizedEnumValue { value, expected }
                && value@ == s@ && expected@ == "200, 201, 202, 204, default"@,
    {
        if eq_ignore_ascii_case(s, "200") {
            Ok(HttpStatus::Success)
        } else if eq_ignore_ascii_case(s, "201") {
            Ok(HttpStatus::Created)
        } else if eq_ignore_ascii_case(s, "202") {
            Ok(HttpStatus::Accepted)
        } else if eq_ignore_ascii_case(s, "204") {
            Ok(HttpStatus::NoContent)
        } else if eq_ignore_ascii_case(s, "default") {
            Ok(HttpStatus::Default)
        } else {
            Err(ParseError::UnrecognizedEnumValue {
                value: String::from_str(s),
                expected: String::from_str("200, 201, 202, 204, default"),
            })
        }
    }
}

/// A pointer by string path to another entity; never dereferenced, only kept.
pub struct Reference {
    pub path: String,
}

/// The informational header of a description document.
pub struct Info {
    pub title: String,
    pub version: String,
    pub description: Option<String>,
    pub summary: Option<String>,
    pub terms_of_service: Option<String>,
}

/// A parameter of an operation: either inline or a reference to a shared one.
pub enum ParameterType {
    Parameter(Parameter),
    Reference(Reference),
}

/// A named request parameter. Only primitive-typed parameters (string,
/// integer, number) are eligible for code generation.
pub struct Parameter {
    pub name: Option<String>,
    pub location: Option<String>,
    pub required: Option<bool>,
    pub schema: Option<Reference>,
    pub type_id: Option<SchemaType>,
}

/// One declared response of an operation.
pub struct Response {
    pub description: Option<String>,
    pub schema: Option<ParameterType>,
}

/// One operation of a path.
pub struct Operation {
    pub id: String,
    pub examples: Option<Vec<(String, Reference)>>,
    pub description: Option<String>,
    pub parameters: Vec<ParameterType>,
    pub responses: Vec<(HttpStatus, Response)>,
}

/// The operations declared under one path, keyed by method.
pub struct PathItem {
    pub operations: Vec<(Method, Option<Operation>)>,
}

/// A parsed description document.
pub struct Swagger {
    pub swagger: String,
    pub info: Option<Info>,
    pub schemes: Option<Vec<String>>,
    pub host: Option<String>,
    pub consumes: Option<Vec<String>>,
    pub produces: Option<Vec<String>>,
    pub paths: Option<Vec<(String, PathItem)>>,
    pub definitions: Option<Vec<(String, Definition)>>,
    pub parameters: Option<Vec<(String, Parameter)>>,
}

} // verus!
