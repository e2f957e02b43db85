use vstd::prelude::*;
use vstd::string::*;

use crate::models::{
    HttpStatus, Info, Method, Operation, Parameter, ParameterType, ParseError, PathItem, Reference,
    Response, Swagger, spec_parse_http_status, spec_parse_method,
};
use crate::parser::{
    definitions_rep, definitions_valid, opt_str_of, opt_str_ok, parameter_rep, parameter_valid,
    parameters_rep, parameters_valid, parse_definitions, parse_parameter, parse_parameters,
    parse_reference, reference_of,
};
use crate::raw::{RawValue, get_field, spec_get, take_field};
use crate::schema::Definition;

verus! {

/// Whether the value under key `k`, if there is one, is an array of strings.
pub open spec fn str_array_ok(fields: Seq<(String, RawValue)>, k: Seq<char>) -> bool {
    match spec_get(fields, k) {
        Some(RawValue::Array(items)) => forall|i: int|
            0 <= i < items@.len() ==> (#[trigger] items@[i]) is Str,
        Some(_) => false,
        None => true,
    }
}

/// How an optional string list corresponds to the array under key `k`.
pub open spec fn str_array_rep(
    fields: Seq<(String, RawValue)>,
    k: Seq<char>,
    o: Option<Vec<String>>,
) -> bool {
    match spec_get(fields, k) {
        Some(RawValue::Array(items)) => o matches Some(v) && v@.len() == items@.len() && forall|
            i: int,
        |
            0 <= i < items@.len() ==> ((#[trigger] items@[i]) matches RawValue::Str(s) && v@[i]
                == s),
        _ => o is None,
    }
}

/// Whether a raw node is an acceptable info block.
pub open spec fn info_valid(v: RawValue) -> bool {
    match v {
        RawValue::Object(fs) => {
            &&& spec_get(fs@, "title"@) matches Some(RawValue::Str(_))
            &&& spec_get(fs@, "version"@) matches Some(RawValue::Str(_))
            &&& opt_str_ok(fs@, "description"@)
            &&& opt_str_ok(fs@, "summary"@)
            &&& opt_str_ok(fs@, "termsOfService"@)
        },
        _ => false,
    }
}

/// How a parsed info block corresponds to the raw node.
pub open spec fn info_rep(v: RawValue, info: Info) -> bool {
    match v {
        RawValue::Object(fs) => {
            &&& Some(info.title) == opt_str_of(fs@, "title"@)
            &&& Some(info.version) == opt_str_of(fs@, "version"@)
            &&& info.description == opt_str_of(fs@, "description"@)
            &&& info.summary == opt_str_of(fs@, "summary"@)
            &&& info.terms_of_service == opt_str_of(fs@, "termsOfService"@)
        },
        _ => false,
    }
}

/// Whether a raw node is an acceptable operation parameter entry: a reference
/// where a `$ref` field is present, an inline parameter otherwise.
pub open spec fn ptype_valid(v: RawValue) -> bool {
    match v {
        RawValue::Object(fs) => {
            if spec_get(fs@, "$ref"@) is Some {
                reference_of(v) is Some
            } else {
                parameter_valid(v)
            }
        },
        _ => false,
    }
}

/// How a parsed parameter entry corresponds to the raw node.
pub open spec fn ptype_rep(v: RawValue, pt: ParameterType) -> bool {
    match v {
        RawValue::Object(fs) => {
            if spec_get(fs@, "$ref"@) is Some {
                pt matches ParameterType::Reference(r) && Some(r.path) == reference_of(v)
            } else {
                pt matches ParameterType::Parameter(p) && parameter_rep(v, p)
            }
        },
        _ => false,
    }
}

/// Whether a raw node is an acceptable response.
pub open spec fn response_valid(v: RawValue) -> bool {
    match v {
        RawValue::Object(fs) => {
            &&& opt_str_ok(fs@, "description"@)
            &&& match spec_get(fs@, "schema"@) {
                Some(sv) => ptype_valid(sv),
                None => true,
            }
        },
        _ => false,
    }
}

/// How a parsed response corresponds to the raw node.
pub open spec fn response_rep(v: RawValue, resp: Response) -> bool {
    match v {
        RawValue::Object(fs) => {
            &&& resp.description == opt_str_of(fs@, "description"@)
            &&& match spec_get(fs@, "schema"@) {
                Some(sv) => resp.schema matches Some(pt) && ptype_rep(sv, pt),
                None => resp.schema is None,
            }
        },
        _ => false,
    }
}

/// Whether a raw node is an acceptable operation: an id, a parameter list and
/// a response mapping are owed; descriptions and examples are optional.
pub open spec fn operation_valid(v: RawValue) -> bool {
    match v {
        RawValue::Object(fs) => {
            &&& spec_get(fs@, "operationId"@) matches Some(RawValue::Str(_))
            &&& opt_str_ok(fs@, "description"@)
            &&& match spec_get(fs@, "parameters"@) {
                Some(RawValue::Array(items)) => forall|i: int|
                    0 <= i < items@.len() ==> ptype_valid(#[trigger] items@[i]),
                _ => false,
            }
            &&& match spec_get(fs@, "responses"@) {
                Some(RawValue::Object(rs)) => forall|i: int|
                    0 <= i < rs@.len() ==> spec_parse_http_status((#[trigger] rs@[i]).0@) is Some
                        && response_valid(rs@[i].1),
                _ => false,
            }
            &&& match spec_get(fs@, "x-ms-examples"@) {
                Some(RawValue::Object(ex)) => forall|i: int|
                    0 <= i < ex@.len() ==> reference_of((#[trigger] ex@[i]).1) is Some,
                Some(_) => false,
                None => true,
            }
        },
        _ => false,
    }
}

/// How a parsed operation corresponds to the raw node.
pub open spec fn operation_rep(v: RawValue, op: Operation) -> bool {
    match v {
        RawValue::Object(fs) => {
            &&& Some(op.id) == opt_str_of(fs@, "operationId"@)
            &&& op.description == opt_str_of(fs@, "description"@)
            &&& match spec_get(fs@, "parameters"@) {
                Some(RawValue::Array(items)) => op.parameters@.len() == items@.len() && forall|
                    i: int,
                |
                    0 <= i < items@.len() ==> ptype_rep(items@[i], #[trigger] op.parameters@[i]),
                _ => false,
            }
            &&& match spec_get(fs@, "responses"@) {
                Some(RawValue::Object(rs)) => op.responses@.len() == rs@.len() && forall|i: int|
                    0 <= i < rs@.len() ==> Some((#[trigger] op.responses@[i]).0)
                        == spec_parse_http_status(rs@[i].0@) && response_rep(
                        rs@[i].1,
                        op.responses@[i].1,
                    ),
                _ => false,
            }
            &&& match spec_get(fs@, "x-ms-examples"@) {
                Some(RawValue::Object(ex)) => op.examples matches Some(e) && e@.len() == ex@.len()
                    && forall|i: int|
                    0 <= i < ex@.len() ==> (#[trigger] e@[i]).0 == ex@[i].0 && Some(e@[i].1.path)
                        == reference_of(ex@[i].1),
                _ => op.examples is None,
            }
        },
        _ => false,
    }
}

/// Whether a raw node is an acceptable path item: a mapping from recognized
/// method names to operations or nulls.
pub open spec fn path_item_valid(v: RawValue) -> bool {
    match v {
        RawValue::Object(ops) => forall|i: int|
            0 <= i < ops@.len() ==> spec_parse_method((#[trigger] ops@[i]).0@) is Some && (ops@[i].1
                is Null || operation_valid(ops@[i].1)),
        _ => false,
    }
}

/// How a parsed path item corresponds to the raw node.
pub open spec fn path_item_rep(v: RawValue, pi: PathItem) -> bool {
    match v {
        RawValue::Object(ops) => {
            &&& pi.operations@.len() == ops@.len()
            &&& forall|i: int|
                0 <= i < ops@.len() ==> Some((#[trigger] pi.operations@[i]).0) == spec_parse_method(
                    ops@[i].0@,
                ) && (match ops@[i].1 {
                    RawValue::Null => pi.operations@[i].1 is None,
                    _ => pi.operations@[i].1 matches Some(op) && operation_rep(ops@[i].1, op),
                })
        },
        _ => false,
    }
}

/// Whether a raw node is an acceptable `paths` section.
pub open spec fn paths_valid(v: RawValue) -> bool {
    match v {
        RawValue::Object(ps) => forall|i: int|
            0 <= i < ps@.len() ==> path_item_valid((#[trigger] ps@[i]).1),
        _ => false,
    }
}

/// How a parsed path list corresponds to the raw `paths` section.
pub open spec fn paths_rep(v: RawValue, pp: Seq<(String, PathItem)>) -> bool {
    match v {
        RawValue::Object(ps) => {
            &&& pp.len() == ps@.len()
            &&& forall|i: int|
                0 <= i < ps@.len() ==> (#[trigger] pp[i]).0 == ps@[i].0 && path_item_rep(
                    ps@[i].1,
                    pp[i].1,
                )
        },
        _ => false,
    }
}

/// Whether a raw tree is an acceptable description document: a mapping that
/// carries its format marker, and whose recognized sections, where present,
/// are themselves acceptable.
pub open spec fn swagger_valid(raw: RawValue) -> bool {
    match raw {
        RawValue::Object(fs) => {
            &&& spec_get(fs@, "swagger"@) matches Some(RawValue::Str(_))
            &&& match spec_get(fs@, "info"@) {
                Some(v) => info_valid(v),
                None => true,
            }
            &&& opt_str_ok(fs@, "host"@)
            &&& str_array_ok(fs@, "schemes"@)
            &&& str_array_ok(fs@, "consumes"@)
            &&& str_array_ok(fs@, "produces"@)
            &&& match spec_get(fs@, "paths"@) {
                Some(v) => paths_valid(v),
                None => true,
            }
            &&& match spec_get(fs@, "definitions"@) {
                Some(v) => definitions_valid(v),
                None => true,
            }
            &&& match spec_get(fs@, "parameters"@) {
                Some(v) => parameters_valid(v),
                None => true,
            }
        },
        _ => false,
    }
}

/// How a parsed document corresponds to the raw tree it came from: each
/// recognized section is taken from its first occurrence, where present.
pub open spec fn swagger_rep(raw: RawValue, sw: Swagger) -> bool {
    match raw {
        RawValue::Object(fs) => {
            &&& Some(sw.swagger) == opt_str_of(fs@, "swagger"@)
            &&& match spec_get(fs@, "info"@) {
                Some(v) => sw.info matches Some(inf) && info_rep(v, inf),
                None => sw.info is None,
            }
            &&& sw.host == opt_str_of(fs@, "host"@)
            &&& str_array_rep(fs@, "schemes"@, sw.schemes)
            &&& str_array_rep(fs@, "consumes"@, sw.consumes)
            &&& str_array_rep(fs@, "produces"@, sw.produces)
            &&& match spec_get(fs@, "paths"@) {
                Some(v) => sw.paths matches Some(pp) && paths_rep(v, pp@),
                None => sw.paths is None,
            }
            &&& match spec_get(fs@, "definitions"@) {
                Some(v) => sw.definitions matches Some(ds) && definitions_rep(v, ds@),
                None => sw.definitions is None,
            }
            &&& match spec_get(fs@, "parameters"@) {
                Some(v) => sw.parameters matches Some(ps) && parameters_rep(v, ps@),
                None => sw.parameters is None,
            }
        },
        _ => false,
    }
}

/// Reads an optional array-of-strings section.
#[verifier::loop_isolation(false)]
fn parse_str_array(fields: &Vec<(String, RawValue)>, k: &str) -> (res: Result<
    Option<Vec<String>>,
    ParseError,
>)
    ensures
        res is Ok <==> str_array_ok(fields@, k@),
        res matches Ok(o) ==> str_array_rep(fields@, k@, o),
{
    match get_field(fields, k) {
        Some(RawValue::Array(items)) => {
            let mut names: Vec<String> = Vec::new();
            let mut i: usize = 0;
            while i < items.len()
                invariant
                    i <= items@.len(),
                    names@.len() == i,
                    forall|l: int|
                        0 <= l < i ==> ((#[trigger] items@[l]) matches RawValue::Str(s) && names@[l]
                            == s),
                    forall|l: int| 0 <= l < i ==> (#[trigger] items@[l]) is Str,
                decreases items@.len() - i,
            {
                match &items[i] {
                    RawValue::Str(s) => {
                        names.push(s.clone());
                    },
                    _ => {
                        return Err(ParseError::WrongKind { context: String::from_str(k) });
                    },
                }
                i += 1;
            }
            Ok(Some(names))
        },
        Some(_) => Err(ParseError::WrongKind { context: String::from_str(k) }),
        None => Ok(None),
    }
}

/// Parses an info block.
fn parse_info(v: &RawValue) -> (res: Result<Info, ParseError>)
    ensures
        res is Ok <==> info_valid(*v),
        res matches Ok(info) ==> info_rep(*v, info),
{
    match v {
        RawValue::Object(fs) => {
            let title: String = match get_field(fs, "title") {
                Some(RawValue::Str(s)) => s.clone(),
                _ => {
                    return Err(ParseError::MissingField { field: String::from_str("title") });
                },
            };
            let version: String = match get_field(fs, "version") {
                Some(RawValue::Str(s)) => s.clone(),
                _ => {
                    return Err(ParseError::MissingField { field: String::from_str("version") });
                },
            };
            let mut description: Option<String> = None;
            let mut summary: Option<String> = None;
            let mut terms_of_service: Option<String> = None;
            match get_field(fs, "description") {
                Some(RawValue::Str(s)) => {
                    description = Some(s.clone());
                },
                Some(_) => {
                    return Err(ParseError::WrongKind { context: String::from_str("description") });
                },
                None => {},
            }
            match get_field(fs, "summary") {
                Some(RawValue::Str(s)) => {
                    summary = Some(s.clone());
                },
                Some(_) => {
                    return Err(ParseError::WrongKind { context: String::from_str("summary") });
                },
                None => {},
            }
            match get_field(fs, "termsOfService") {
                Some(RawValue::Str(s)) => {
                    terms_of_service = Some(s.clone());
                },
                Some(_) => {
                    return Err(ParseError::WrongKind {
                        context: String::from_str("termsOfService"),
                    });
                },
                None => {},
            }
            Ok(Info { title, version, description, summary, terms_of_service })
        },
        _ => Err(ParseError::WrongKind { context: String::from_str("info") }),
    }
}

/// Parses one operation parameter entry: a reference when a `$ref` field is
/// present, an inline parameter otherwise.
fn parse_ptype(v: &RawValue) -> (res: Result<ParameterType, ParseError>)
    ensures
        res is Ok <==> ptype_valid(*v),
        res matches Ok(pt) ==> ptype_rep(*v, pt),
{
    match v {
        RawValue::Object(fs) => {
            let has_ref = match get_field(fs, "$ref") {
                Some(_) => true,
                None => false,
            };
            if has_ref {
                match parse_reference(v) {
                    Ok(r) => Ok(ParameterType::Reference(r)),
                    Err(e) => Err(e),
                }
            } else {
                match parse_parameter(v) {
                    Ok(p) => Ok(ParameterType::Parameter(p)),
                    Err(e) => Err(e),
                }
            }
        },
        _ => Err(ParseError::WrongKind { context: String::from_str("parameter") }),
    }
}

/// Parses one response.
fn parse_response(v: &RawValue) -> (res: Result<Response, ParseError>)
    ensures
        res is Ok <==> response_valid(*v),
        res matches Ok(resp) ==> response_rep(*v, resp),
{
    match v {
        RawValue::Object(fs) => {
            let mut description: Option<String> = None;
            match get_field(fs, "description") {
                Some(RawValue::Str(s)) => {
                    description = Some(s.clone());
                },
                Some(_) => {
                    return Err(ParseError::WrongKind { context: String::from_str("description") });
                },
                None => {},
            }
            let schema: Option<ParameterType> = match get_field(fs, "schema") {
                Some(sv) => {
                    match parse_ptype(sv) {
                        Ok(pt) => Some(pt),
                        Err(e) => {
                            return Err(e);
                        },
                    }
                },
                None => None,
            };
            Ok(Response { description, schema })
        },
        _ => Err(ParseError::WrongKind { context: String::from_str("response") }),
    }
}

/// Parses one operation.
#[verifier::loop_isolation(false)]
fn parse_operation(v: &RawValue) -> (res: Result<Operation, ParseError>)
    ensures
        res is Ok <==> operation_valid(*v),
        res matches Ok(op) ==> operation_rep(*v, op),
{
    match v {
        RawValue::Object(fs) => {
            let id: String = match get_field(fs, "operationId") {
                Some(RawValue::Str(s)) => s.clone(),
                _ => {
                    return Err(ParseError::MissingField { field: String::from_str("operationId") });
                },
            };
            let mut description: Option<String> = None;
            match get_field(fs, "description") {
                Some(RawValue::Str(s)) => {
                    description = Some(s.clone());
                },
                Some(_) => {
                    return Err(ParseError::WrongKind { context: String::from_str("description") });
                },
                None => {},
            }
            let parameters: Vec<ParameterType> = match get_field(fs, "parameters") {
                Some(RawValue::Array(items)) => {
                    let mut out: Vec<ParameterType> = Vec::new();
                    let mut i: usize = 0;
                    while i < items.len()
                        invariant
                            i <= items@.len(),
                            out@.len() == i,
                            forall|l: int|
                                0 <= l < i ==> ptype_rep(items@[l], #[trigger] out@[l]),
                            forall|l: int| 0 <= l < i ==> ptype_valid(#[trigger] items@[l]),
                        decreases items@.len() - i,
                    {
                        match parse_ptype(&items[i]) {
                            Ok(pt) => {
                                out.push(pt);
                            },
                            Err(e) => {
                                return Err(e);
                            },
                        }
                        i += 1;
                    }
                    out
                },
                _ => {
                    return Err(ParseError::MissingField { field: String::from_str("parameters") });
                },
            };
            let responses: Vec<(HttpStatus, Response)> = match get_field(fs, "responses") {
                Some(RawValue::Object(rs)) => {
                    let mut out: Vec<(HttpStatus, Response)> = Vec::new();
                    let mut i: usize = 0;
                    while i < rs.len()
                        invariant
                            i <= rs@.len(),
                            out@.len() == i,
                            forall|l: int|
                                0 <= l < i ==> Some((#[trigger] out@[l]).0)
                                    == spec_parse_http_status(rs@[l].0@) && response_rep(
                                    rs@[l].1,
                                    out@[l].1,
                                ),
                            forall|l: int|
                                0 <= l < i ==> spec_parse_http_status((#[trigger] rs@[l]).0@)
                                    is Some && response_valid(rs@[l].1),
                        decreases rs@.len() - i,
                    {
                        let status = match HttpStatus::parse(rs[i].0.as_str()) {
                            Ok(h) => h,
                            Err(e) => {
                                return Err(e);
                            },
                        };
                        match parse_response(&rs[i].1) {
                            Ok(resp) => {
                                out.push((status, resp));
                            },
                            Err(e) => {
                                return Err(e);
                            },
                        }
                        i += 1;
                    }
                    out
                },
                _ => {
                    return Err(ParseError::MissingField { field: String::from_str("responses") });
                },
            };
            let examples: Option<Vec<(String, Reference)>> = match get_field(fs, "x-ms-examples") {
                Some(RawValue::Object(ex)) => {
                    let mut out: Vec<(String, Reference)> = Vec::new();
                    let mut i: usize = 0;
                    while i < ex.len()
                        invariant
                            i <= ex@.len(),
                            out@.len() == i,
                            forall|l: int|
                                0 <= l < i ==> (#[trigger] out@[l]).0 == ex@[l].0 && Some(
                                    out@[l].1.path,
                                ) == reference_of(ex@[l].1),
                            forall|l: int|
                                0 <= l < i ==> reference_of((#[trigger] ex@[l]).1) is Some,
                        decreases ex@.len() - i,
                    {
                        match parse_reference(&ex[i].1) {
                            Ok(r) => {
                                out.push((ex[i].0.clone(), r));
                            },
                            Err(e) => {
                                return Err(e);
                            },
                        }
                        i += 1;
                    }
                    Some(out)
                },
                Some(_) => {
                    return Err(ParseError::WrongKind {
                        context: String::from_str("x-ms-examples"),
                    });
                },
                None => None,
            };
            Ok(Operation { id, examples, description, parameters, responses })
        },
        _ => Err(ParseError::WrongKind { context: String::from_str("operation") }),
    }
}

/// Parses the operations of one path, keyed by method.
#[verifier::loop_isolation(false)]
fn parse_path_item(v: &RawValue) -> (res: Result<PathItem, ParseError>)
    ensures
        res is Ok <==> path_item_valid(*v),
        res matches Ok(pi) ==> path_item_rep(*v, pi),
{
    match v {
        RawValue::Object(ops) => {
            let mut out: Vec<(Method, Option<Operation>)> = Vec::new();
            let mut i: usize = 0;
            while i < ops.len()
                invariant
                    i <= ops@.len(),
                    out@.len() == i,
                    forall|l: int|
                        0 <= l < i ==> Some((#[trigger] out@[l]).0) == spec_parse_method(ops@[l].0@)
                            && (match ops@[l].1 {
                            RawValue::Null => out@[l].1 is None,
                            _ => out@[l].1 matches Some(op) && operation_rep(ops@[l].1, op),
                        }),
                    forall|l: int|
                        0 <= l < i ==> spec_parse_method((#[trigger] ops@[l]).0@) is Some && (
                        ops@[l].1 is Null || operation_valid(ops@[l].1)),
                decreases ops@.len() - i,
            {
                let method = match Method::parse(ops[i].0.as_str()) {
                    Ok(m) => m,
                    Err(e) => {
                        return Err(e);
                    },
                };
                let is_null = match &ops[i].1 {
                    RawValue::Null => true,
                    _ => false,
                };
                if is_null {
                    out.push((method, None));
                } else {
                    match parse_operation(&ops[i].1) {
                        Ok(op) => {
                            out.push((method, Some(op)));
                        },
                        Err(e) => {
                            return Err(e);
                        },
                    }
                }
                i += 1;
            }
            Ok(PathItem { operations: out })
        },
        _ => Err(ParseError::WrongKind { context: String::from_str("path") }),
    }
}

/// Parses the `paths` section.
#[verifier::loop_isolation(false)]
fn parse_paths(v: &RawValue) -> (res: Result<Vec<(String, PathItem)>, ParseError>)
    ensures
        res is Ok <==> paths_valid(*v),
        res matches Ok(pp) ==> paths_rep(*v, pp@),
{
    match v {
        RawValue::Object(ps) => {
            let mut out: Vec<(String, PathItem)> = Vec::new();
            let mut i: usize = 0;
            while i < ps.len()
                invariant
                    i <= ps@.len(),
                    out@.len() == i,
                    forall|l: int|
                        0 <= l < i ==> (#[trigger] out@[l]).0 == ps@[l].0 && path_item_rep(
                            ps@[l].1,
                            out@[l].1,
                        ),
                    forall|l: int| 0 <= l < i ==> path_item_valid((#[trigger] ps@[l]).1),
                decreases ps@.len() - i,
            {
                match parse_path_item(&ps[i].1) {
                    Ok(pi) => {
                        out.push((ps[i].0.clone(), pi));
                    },
                    Err(e) => {
                        return Err(e);
                    },
                }
                i += 1;
            }
            Ok(out)
        },
        _ => Err(ParseError::WrongKind { context: String::from_str("paths") }),
    }
}

/// Parses a raw tree into a description document, or says why it is no such
/// document. Parsing one document never touches another: a failure is scoped
/// to the tree it was handed.
pub fn parse_swagger(raw: RawValue) -> (res: Result<Swagger, ParseError>)
    ensures
        res is Ok <==> swagger_valid(raw),
        res matches Ok(sw) ==> swagger_rep(raw, sw),
{
    match raw {
        RawValue::Object(fields) => {
            let ghost f0 = fields@;
            let swagger: String = match get_field(&fields, "swagger") {
                Some(RawValue::Str(s)) => s.clone(),
                _ => {
                    return Err(ParseError::MissingField { field: String::from_str("swagger") });
                },
            };
            let info: Option<Info> = match get_field(&fields, "info") {
                Some(v) => {
                    match parse_info(v) {
                        Ok(inf) => Some(inf),
                        Err(e) => {
                            return Err(e);
                        },
                    }
                },
                None => None,
            };
            let host: Option<String> = match get_field(&fields, "host") {
                Some(RawValue::Str(s)) => Some(s.clone()),
                Some(_) => {
                    return Err(ParseError::WrongKind { context: String::from_str("host") });
                },
                None => None,
            };
            let schemes: Option<Vec<String>> = match parse_str_array(&fields, "schemes") {
                Ok(o) => o,
                Err(e) => {
                    return Err(e);
                },
            };
            let consumes: Option<Vec<String>> = match parse_str_array(&fields, "consumes") {
                Ok(o) => o,
                Err(e) => {
                    return Err(e);
                },
            };
            let produces: Option<Vec<String>> = match parse_str_array(&fields, "produces") {
                Ok(o) => o,
                Err(e) => {
                    return Err(e);
                },
            };
            let paths: Option<Vec<(String, PathItem)>> = match get_field(&fields, "paths") {
                Some(v) => {
                    match parse_paths(v) {
                        Ok(pp) => Some(pp),
                        Err(e) => {
                            return Err(e);
                        },
                    }
                },
                None => None,
            };
            let (defs_opt, rest) = take_field(fields, "definitions");
            let definitions: Option<Vec<(String, Definition)>> = match defs_opt {
                Some(dv) => {
                    match parse_definitions(dv) {
                        Ok(ds) => Some(ds),
                        Err(e) => {
                            proof {
                                crate::raw::lemma_spec_get_first_key(f0, "definitions"@);
                                let j = choose|j: int|
                                    crate::raw::is_first_key(f0, "definitions"@, j);
                                assert(crate::raw::is_first_key(f0, "definitions"@, j));
                                assert(spec_get(f0, "definitions"@) == Some(f0[j].1));
                                assert(f0[j].1 == dv);
                            }
                            return Err(e);
                        },
                    }
                },
                None => None,
            };
            let ghost restv = rest@;
            let (params_opt, _rest2) = take_field(rest, "parameters");
            proof {
                reveal_strlit("definitions");
                reveal_strlit("parameters");
                assert("definitions"@ != "parameters"@) by {
                    assert("definitions"@.len() == 11);
                    assert("parameters"@.len() == 10);
                }
                crate::raw::lemma_spec_get_first_key(f0, "definitions"@);
                lemma_take_preserves_get(f0, "definitions"@, "parameters"@);
                if defs_opt is Some {
                    let j = choose|j: int| crate::raw::is_first_key(f0, "definitions"@, j);
                    assert(crate::raw::is_first_key(f0, "definitions"@, j));
                    assert(restv == f0.remove(j));
                    assert(spec_get(f0, "definitions"@) == Some(f0[j].1));
                    assert(f0[j].1 == defs_opt->Some_0);
                }
                assert(spec_get(restv, "parameters"@) == spec_get(f0, "parameters"@));
                crate::raw::lemma_spec_get_first_key(restv, "parameters"@);
                if params_opt is Some {
                    let jp = choose|jp: int| crate::raw::is_first_key(restv, "parameters"@, jp);
                    assert(crate::raw::is_first_key(restv, "parameters"@, jp));
                    assert(spec_get(restv, "parameters"@) == Some(restv[jp].1));
                    assert(restv[jp].1 == params_opt->Some_0);
                }
            }
            let parameters: Option<Vec<(String, Parameter)>> = match params_opt {
                Some(pv) => {
                    match parse_parameters(pv) {
                        Ok(ps) => Some(ps),
                        Err(e) => {
                            return Err(e);
                        },
                    }
                },
                None => None,
            };
            Ok(
                Swagger {
                    swagger,
                    info,
                    schemes,
                    host,
                    consumes,
                    produces,
                    paths,
                    definitions,
                    parameters,
                },
            )
        },
        _ => Err(ParseError::WrongKind { context: String::from_str("document") }),
    }
}

/// Removing the first occurrence of one key leaves lookups of another key
/// unchanged.
pub proof fn lemma_take_preserves_get(fields: Seq<(String, RawValue)>, k1: Seq<char>, k2: Seq<char>)
    requires
        k1 != k2,
    ensures
        forall|j: int|
            crate::raw::is_first_key(fields, k1, j) ==> spec_get(#[trigger] fields.remove(j), k2)
                == spec_get(fields, k2),
    decreases fields.len(),
{
    assert forall|j: int| crate::raw::is_first_key(fields, k1, j) implies spec_get(
        #[trigger] fields.remove(j),
        k2,
    ) == spec_get(fields, k2) by {
        lemma_remove_other_get(fields, j, k2);
    }
}

/// Removing an element whose key is not `k` leaves the lookup of `k` at the
/// first occurrence it had.
pub proof fn lemma_remove_other_get(fields: Seq<(String, RawValue)>, j: int, k: Seq<char>)
    requires
        0 <= j < fields.len(),
        fields[j].0@ != k,
    ensures
        spec_get(fields.remove(j), k) == spec_get(fields, k),
    decreases fields.len(),
{
    if fields.len() == 0 {
    } else if j == 0 {
        assert(fields.remove(0) =~= fields.drop_first());
    } else {
        if fields[0].0@ == k {
            assert(fields.remove(j)[0] == fields[0]);
        } else {
            lemma_remove_other_get(fields.drop_first(), j - 1, k);
            assert(fields.remove(j).drop_first() =~= fields.drop_first().remove(j - 1));
            assert(fields.remove(j)[0] == fields[0]);
        }
    }
}

} // verus!
