use vstd::prelude::*;
use vstd::string::*;

use crate::models::{Parameter, ParseError, Reference, SchemaType, spec_parse_schema_type};
use crate::raw::{RawValue, get_field, is_first_key, lemma_spec_get_first_key, spec_get, take_field};
use crate::schema::{Definition, DefinitionProperty, DefinitionPropertyType, DefinitionType};

verus! {

/// A first occurrence of a key sits at one position only.
pub proof fn lemma_first_key_unique(fields: Seq<(String, RawValue)>, k: Seq<char>)
    ensures
        forall|j1: int, j2: int|
            is_first_key(fields, k, j1) && is_first_key(fields, k, j2) ==> j1 == j2,
{
    assert forall|j1: int, j2: int|
        is_first_key(fields, k, j1) && is_first_key(fields, k, j2) implies j1 == j2 by {
        if j1 < j2 {
            assert(fields[j1].0@ != k);
        }
        if j2 < j1 {
            assert(fields[j2].0@ != k);
        }
    }
}

/// Whether the value under key `k`, if there is one, is a string node.
pub open spec fn opt_str_ok(fields: Seq<(String, RawValue)>, k: Seq<char>) -> bool {
    match spec_get(fields, k) {
        Some(v) => v is Str,
        None => true,
    }
}

/// The string under key `k`, where there is one.
pub open spec fn opt_str_of(fields: Seq<(String, RawValue)>, k: Seq<char>) -> Option<String> {
    match spec_get(fields, k) {
        Some(RawValue::Str(s)) => Some(s),
        _ => None,
    }
}

/// Whether the value under key `k`, if there is one, is a boolean node.
pub open spec fn opt_bool_ok(fields: Seq<(String, RawValue)>, k: Seq<char>) -> bool {
    match spec_get(fields, k) {
        Some(v) => v is Bool,
        None => true,
    }
}

/// The boolean under key `k`, where there is one.
pub open spec fn opt_bool_of(fields: Seq<(String, RawValue)>, k: Seq<char>) -> Option<bool> {
    match spec_get(fields, k) {
        Some(RawValue::Bool(b)) => Some(b),
        _ => None,
    }
}

/// The advisory property type tag a schema type name stands for.
pub open spec fn spec_prop_type(t: SchemaType) -> DefinitionPropertyType {
    match t {
        SchemaType::Object => DefinitionPropertyType::Object,
        SchemaType::String => DefinitionPropertyType::String,
        SchemaType::Number => DefinitionPropertyType::Number,
        SchemaType::Integer => DefinitionPropertyType::Integer,
        SchemaType::Boolean => DefinitionPropertyType::Boolean,
        SchemaType::Array => DefinitionPropertyType::Array,
    }
}

/// Whether a raw node is an acceptable schema, under the shape-resolution
/// precedence: an `items` field makes an array, else a `properties` field
/// makes an object, else a recognized primitive `type` string picks that
/// primitive, else the node falls back to a permissive object. The node is
/// rejected only when it is no mapping at all, when a consumed nested node is
/// malformed, or when a `type` string names no recognized schema type.
pub open spec fn schema_valid(raw: RawValue) -> bool
    decreases raw, 0int,
{
    match raw {
        RawValue::Object(fields) => {
            if spec_get(fields@, "items"@) is Some {
                exists|j: int|
                    #[trigger] is_first_key(fields@, "items"@, j) && schema_valid(fields@[j].1)
            } else if spec_get(fields@, "properties"@) is Some {
                exists|j: int|
                    #[trigger] is_first_key(fields@, "properties"@, j) && properties_valid(
                        fields@[j].1,
                    )
            } else {
                match spec_get(fields@, "type"@) {
                    Some(RawValue::Str(t)) => spec_parse_schema_type(t@) is Some,
                    _ => true,
                }
            }
        },
        _ => false,
    }
}

/// Whether a raw node is an acceptable `properties` mapping: a mapping whose
/// every value is an acceptable property.
pub open spec fn properties_valid(pv: RawValue) -> bool
    decreases pv, 2int,
{
    match pv {
        RawValue::Object(pf) => forall|i: int|
            0 <= i < pf@.len() ==> property_valid(#[trigger] pf@[i].1),
        _ => false,
    }
}

/// Whether a raw node is an acceptable property: a mapping that resolves as a
/// schema, whose metadata fields, where present, have the right kind, and
/// whose `type` tag, where present, is a recognized schema type name.
pub open spec fn property_valid(node: RawValue) -> bool
    decreases node, 1int,
{
    match node {
        RawValue::Object(fs) => {
            &&& schema_valid(node)
            &&& opt_str_ok(fs@, "description"@)
            &&& opt_str_ok(fs@, "pattern"@)
            &&& opt_bool_ok(fs@, "readOnly"@)
            &&& opt_str_ok(fs@, "$ref"@)
            &&& match spec_get(fs@, "type"@) {
                Some(RawValue::Str(t)) => spec_parse_schema_type(t@) is Some,
                Some(_) => false,
                None => true,
            }
        },
        _ => false,
    }
}

/// How a parsed schema corresponds to the raw node it came from. The chosen
/// variant consumes the first occurrence of the field that decided it; every
/// other field of the node lands in the variant's open bag, in order.
pub open spec fn schema_rep(raw: RawValue, s: DefinitionType) -> bool
    decreases raw, 0int,
{
    match raw {
        RawValue::Object(fields) => {
            if spec_get(fields@, "items"@) is Some {
                exists|j: int|
                    #[trigger] is_first_key(fields@, "items"@, j) && (s matches DefinitionType::Array {
                        items,
                        additional,
                    } && schema_rep(fields@[j].1, *items) && additional@ == fields@.remove(j))
            } else if spec_get(fields@, "properties"@) is Some {
                exists|j: int|
                    #[trigger] is_first_key(fields@, "properties"@, j) && (s matches DefinitionType::Object {
                        properties,
                        additional,
                    } && properties_rep(fields@[j].1, properties@) && additional@ == fields@.remove(
                        j,
                    ))
            } else {
                match spec_get(fields@, "type"@) {
                    Some(RawValue::Str(t)) => {
                        match spec_parse_schema_type(t@) {
                            Some(SchemaType::String) => exists|j: int|
                                #[trigger] is_first_key(fields@, "type"@, j) && (
                                s matches DefinitionType::String { additional } && additional@
                                    == fields@.remove(j)),
                            Some(SchemaType::Number) => exists|j: int|
                                #[trigger] is_first_key(fields@, "type"@, j) && (
                                s matches DefinitionType::Number { additional } && additional@
                                    == fields@.remove(j)),
                            Some(SchemaType::Integer) => exists|j: int|
                                #[trigger] is_first_key(fields@, "type"@, j) && (
                                s matches DefinitionType::Integer { additional } && additional@
                                    == fields@.remove(j)),
                            Some(SchemaType::Boolean) => exists|j: int|
                                #[trigger] is_first_key(fields@, "type"@, j) && (
                                s matches DefinitionType::Boolean { additional } && additional@
                                    == fields@.remove(j)),
                            Some(_) => exists|j: int|
                                #[trigger] is_first_key(fields@, "type"@, j) && (
                                s matches DefinitionType::Object { properties, additional }
                                    && properties@.len() == 0 && additional@ == fields@.remove(j)),
                            None => false,
                        }
                    },
                    _ => s matches DefinitionType::Object { properties, additional }
                        && properties@.len() == 0 && additional@ == fields@,
                }
            }
        },
        _ => false,
    }
}

/// How a parsed property list corresponds to a raw `properties` mapping:
/// same names, in order, each value parsed as a property.
pub open spec fn properties_rep(pv: RawValue, props: Seq<(String, DefinitionProperty)>) -> bool
    decreases pv, 2int,
{
    match pv {
        RawValue::Object(pf) => {
            &&& props.len() == pf@.len()
            &&& forall|i: int|
                0 <= i < pf@.len() ==> (#[trigger] props[i]).0 == pf@[i].0 && property_rep(
                    pf@[i].1,
                    props[i].1,
                )
        },
        _ => false,
    }
}

/// How a parsed property corresponds to the raw node it came from: the node
/// itself resolves as the nested schema, and each metadata field is taken
/// from the node where present.
pub open spec fn property_rep(node: RawValue, p: DefinitionProperty) -> bool
    decreases node, 1int,
{
    match node {
        RawValue::Object(fs) => {
            &&& schema_rep(node, p.schema)
            &&& p.description == opt_str_of(fs@, "description"@)
            &&& p.pattern == opt_str_of(fs@, "pattern"@)
            &&& p.read_only == opt_bool_of(fs@, "readOnly"@)
            &&& p.reference == opt_str_of(fs@, "$ref"@)
            &&& p.definition_property_type == (match spec_get(fs@, "type"@) {
                Some(RawValue::Str(t)) => {
                    match spec_parse_schema_type(t@) {
                        Some(st) => Some(spec_prop_type(st)),
                        None => None,
                    }
                },
                _ => None,
            })
        },
        _ => false,
    }
}

/// Resolves a raw node into a schema shape by the stated precedence.
pub fn parse_schema(raw: RawValue) -> (res: Result<DefinitionType, ParseError>)
    ensures
        res is Ok <==> schema_valid(raw),
        res matches Ok(s) ==> schema_rep(raw, s),
    decreases raw, 0int,
{
    let ghost rawg = raw;
    match raw {
        RawValue::Object(fields) => {
            let ghost f0 = fields@;
            let (items_opt, rest) = take_field(fields, "items");
            match items_opt {
                Some(iv) => {
                    proof {
                        lemma_spec_get_first_key(f0, "items"@);
                        lemma_first_key_unique(f0, "items"@);
                        assert(spec_get(f0, "items"@) is Some);
                        assert(exists|j: int| is_first_key(f0, "items"@, j));
                        let j = choose|j: int| is_first_key(f0, "items"@, j);
                        assert(is_first_key(f0, "items"@, j));
                        assert(iv == f0[j].1);
                        assert(decreases_to!(rawg => rawg->Object_0));
                        assert(decreases_to!(rawg->Object_0 => rawg->Object_0@));
                        assert(decreases_to!(rawg->Object_0@ => rawg->Object_0@[j]));
                        assert(decreases_to!(rawg->Object_0@[j] => rawg->Object_0@[j].1));
                        assert(rawg->Object_0@[j].1 == iv);
                        assert(decreases_to!(rawg => iv));
                    }
                    match parse_schema(iv) {
                        Ok(s) => {
                            let r = DefinitionType::Array { items: Box::new(s), additional: rest };
                            proof {
                                let j = choose|j: int| is_first_key(f0, "items"@, j);
                                assert(is_first_key(f0, "items"@, j) && schema_valid(f0[j].1));
                            }
                            Ok(r)
                        },
                        Err(e) => {
                            proof {
                                assert forall|j: int|
                                    is_first_key(f0, "items"@, j) implies !schema_valid(
                                    f0[j].1,
                                ) by {
                                    assert(f0[j].1 == iv);
                                }
                            }
                            Err(e)
                        },
                    }
                },
                None => {
                    let (props_opt, rest2) = take_field(rest, "properties");
                    match props_opt {
                        Some(pv) => {
                            proof {
                                lemma_spec_get_first_key(f0, "properties"@);
                                lemma_first_key_unique(f0, "properties"@);
                                assert(spec_get(f0, "properties"@) is Some);
                                assert(exists|j: int| is_first_key(f0, "properties"@, j));
                                let j = choose|j: int| is_first_key(f0, "properties"@, j);
                                assert(is_first_key(f0, "properties"@, j));
                                assert(pv == f0[j].1);
                                assert(decreases_to!(rawg => rawg->Object_0));
                                assert(decreases_to!(rawg->Object_0 => rawg->Object_0@));
                                assert(decreases_to!(rawg->Object_0@ => rawg->Object_0@[j]));
                                assert(decreases_to!(rawg->Object_0@[j] => rawg->Object_0@[j].1));
                                assert(rawg->Object_0@[j].1 == pv);
                                assert(decreases_to!(rawg => pv));
                            }
                            match parse_properties(pv) {
                                Ok(props) => {
                                    let r = DefinitionType::Object {
                                        properties: props,
                                        additional: rest2,
                                    };
                                    proof {
                                        let j = choose|j: int|
                                            is_first_key(f0, "properties"@, j);
                                        assert(is_first_key(f0, "properties"@, j)
                                            && properties_valid(f0[j].1));
                                    }
                                    Ok(r)
                                },
                                Err(e) => {
                                    proof {
                                        assert forall|j: int|
                                            is_first_key(f0, "properties"@, j) implies !properties_valid(
                                            f0[j].1,
                                        ) by {
                                            assert(f0[j].1 == pv);
                                        }
                                    }
                                    Err(e)
                                },
                            }
                        },
                        None => {
                            let mut prim: Option<SchemaType> = None;
                            let mut type_err: Option<ParseError> = None;
                            let mut has_str_type: bool = false;
                            match get_field(&rest2, "type") {
                                Some(RawValue::Str(t)) => {
                                    has_str_type = true;
                                    match SchemaType::parse(t.as_str()) {
                                        Ok(st) => prim = Some(st),
                                        Err(e) => type_err = Some(e),
                                    }
                                },
                                _ => {},
                            }
                            if has_str_type {
                                match type_err {
                                    Some(e) => Err(e),
                                    None => {
                                        let (_t, rest3) = take_field(rest2, "type");
                                        proof {
                                            lemma_spec_get_first_key(f0, "type"@);
                                            lemma_first_key_unique(f0, "type"@);
                                        }
                                        match prim {
                                            Some(SchemaType::String) => Ok(
                                                DefinitionType::String { additional: rest3 },
                                            ),
                                            Some(SchemaType::Number) => Ok(
                                                DefinitionType::Number { additional: rest3 },
                                            ),
                                            Some(SchemaType::Integer) => Ok(
                                                DefinitionType::Integer { additional: rest3 },
                                            ),
                                            Some(SchemaType::Boolean) => Ok(
                                                DefinitionType::Boolean { additional: rest3 },
                                            ),
                                            Some(SchemaType::Object) | Some(SchemaType::Array) => Ok(
                                                DefinitionType::Object {
                                                    properties: Vec::new(),
                                                    additional: rest3,
                                                },
                                            ),
                                            None => {
                                                proof {
                                                    assert(false);
                                                }
                                                Err(ParseError::WrongKind {
                                                    context: String::from_str("type"),
                                                })
                                            },
                                        }
                                    },
                                }
                            } else {
                                Ok(
                                    DefinitionType::Object {
                                        properties: Vec::new(),
                                        additional: rest2,
                                    },
                                )
                            }
                        },
                    }
                },
            }
        },
        _ => {
            Err(ParseError::WrongKind { context: String::from_str("schema") })
        },
    }
}

/// Parses the value of a `properties` field into the named property list.
pub fn parse_properties(pv: RawValue) -> (res: Result<
    Vec<(String, DefinitionProperty)>,
    ParseError,
>)
    ensures
        res is Ok <==> properties_valid(pv),
        res matches Ok(ps) ==> properties_rep(pv, ps@),
    decreases pv, 2int,
{
    let ghost pvg = pv;
    match pv {
        RawValue::Object(pf) => {
            let ghost pf0 = pf@;
            let mut rem = pf;
            let mut out: Vec<(String, DefinitionProperty)> = Vec::new();
            proof {
                assert(pf0.skip(0) =~= pf0);
            }
            while rem.len() > 0
                invariant
                    out@.len() + rem@.len() == pf0.len(),
                    rem@ =~= pf0.skip(out@.len() as int),
                    forall|i: int|
                        0 <= i < out@.len() ==> (#[trigger] out@[i]).0 == pf0[i].0 && property_rep(
                            pf0[i].1,
                            out@[i].1,
                        ) && property_valid(pf0[i].1),
                    pvg == pv,
                    pvg is Object,
                    pvg->Object_0@ == pf0,
                decreases rem@.len(),
            {
                let ghost k = out@.len() as int;
                let ghost rem0 = rem@;
                let pair = rem.remove(0);
                proof {
                    assert(rem0[0] == pf0.skip(k)[0]);
                    assert(pf0.skip(k)[0] == pf0[k]);
                    assert(pair == pf0[k]);
                    assert(rem@ =~= rem0.remove(0));
                    assert(rem@ =~= pf0.skip(k + 1));
                    assert(decreases_to!(pvg => pvg->Object_0));
                    assert(decreases_to!(pvg->Object_0 => pvg->Object_0@));
                    assert(decreases_to!(pvg->Object_0@ => pvg->Object_0@[k]));
                    assert(decreases_to!(pvg->Object_0@[k] => pvg->Object_0@[k].1));
                    assert(pvg->Object_0@[k].1 == pair.1);
                    assert(decreases_to!(pvg => pair.1));
                }
                match parse_property(pair.1) {
                    Ok(p) => {
                        out.push((pair.0, p));
                    },
                    Err(e) => {
                        proof {
                            assert(!property_valid(pf0[k].1));
                            assert(pvg->Object_0@ == pf0);
                            assert(!properties_valid(pvg));
                        }
                        return Err(e);
                    },
                }
            }
            proof {
                assert(out@.len() == pf0.len());
                assert forall|i: int| 0 <= i < pf0.len() implies property_valid(
                    #[trigger] pf0[i].1,
                ) by {
                    assert((#[trigger] out@[i]).0 == pf0[i].0);
                }
                assert(properties_valid(pvg));
                assert(properties_rep(pvg, out@));
            }
            Ok(out)
        },
        _ => {
            Err(ParseError::WrongKind { context: String::from_str("properties") })
        },
    }
}

/// Parses one raw property node: its metadata fields and its nested schema,
/// which the same node resolves to.
pub fn parse_property(node: RawValue) -> (res: Result<DefinitionProperty, ParseError>)
    ensures
        res is Ok <==> property_valid(node),
        res matches Ok(p) ==> property_rep(node, p),
    decreases node, 1int,
{
    let is_obj = match &node {
        RawValue::Object(_) => true,
        _ => false,
    };
    if !is_obj {
        return Err(ParseError::WrongKind { context: String::from_str("property") });
    }
    let mut description: Option<String> = None;
    let mut pattern: Option<String> = None;
    let mut read_only: Option<bool> = None;
    let mut reference: Option<String> = None;
    let mut prop_type: Option<DefinitionPropertyType> = None;
    match &node {
        RawValue::Object(fs) => {
            match get_field(fs, "description") {
                Some(RawValue::Str(s)) => {
                    description = Some(s.clone());
                },
                Some(_) => {
                    return Err(ParseError::WrongKind { context: String::from_str("description") });
                },
                None => {},
            }
            match get_field(fs, "pattern") {
                Some(RawValue::Str(s)) => {
                    pattern = Some(s.clone());
                },
                Some(_) => {
                    return Err(ParseError::WrongKind { context: String::from_str("pattern") });
                },
                None => {},
            }
            match get_field(fs, "readOnly") {
                Some(RawValue::Bool(b)) => {
                    read_only = Some(*b);
                },
                Some(_) => {
                    return Err(ParseError::WrongKind { context: String::from_str("readOnly") });
                },
                None => {},
            }
            match get_field(fs, "$ref") {
                Some(RawValue::Str(s)) => {
                    reference = Some(s.clone());
                },
                Some(_) => {
                    return Err(ParseError::WrongKind { context: String::from_str("$ref") });
                },
                None => {},
            }
            match get_field(fs, "type") {
                Some(RawValue::Str(t)) => {
                    match SchemaType::parse(t.as_str()) {
                        Ok(st) => {
                            prop_type = Some(prop_type_of(st));
                        },
                        Err(e) => {
                            return Err(e);
                        },
                    }
                },
                Some(_) => {
                    return Err(ParseError::WrongKind { context: String::from_str("type") });
                },
                None => {},
            }
        },
        _ => {
            proof {
                assert(false);
            }
        },
    }
    match parse_schema(node) {
        Ok(schema) => Ok(
            DefinitionProperty {
                schema,
                description,
                pattern,
                definition_property_type: prop_type,
                reference,
                read_only,
            },
        ),
        Err(e) => Err(e),
    }
}

/// The `$ref` string of a raw reference node, where the node is a mapping
/// that carries one.
pub open spec fn reference_of(v: RawValue) -> Option<String> {
    match v {
        RawValue::Object(fs) => match spec_get(fs@, "$ref"@) {
            Some(RawValue::Str(s)) => Some(s),
            _ => None,
        },
        _ => None,
    }
}

/// Whether a raw node is an acceptable request parameter: a mapping whose
/// recognized fields, where present, have the right kind, and whose `type`,
/// where present, names a recognized schema type.
pub open spec fn parameter_valid(node: RawValue) -> bool {
    match node {
        RawValue::Object(fs) => {
            &&& opt_str_ok(fs@, "name"@)
            &&& opt_str_ok(fs@, "in"@)
            &&& opt_bool_ok(fs@, "required"@)
            &&& match spec_get(fs@, "schema"@) {
                Some(v) => reference_of(v) is Some,
                None => true,
            }
            &&& match spec_get(fs@, "type"@) {
                Some(RawValue::Str(t)) => spec_parse_schema_type(t@) is Some,
                Some(_) => false,
                None => true,
            }
        },
        _ => false,
    }
}

/// How a parsed parameter corresponds to the raw node it came from.
pub open spec fn parameter_rep(node: RawValue, p: Parameter) -> bool {
    match node {
        RawValue::Object(fs) => {
            &&& p.name == opt_str_of(fs@, "name"@)
            &&& p.location == opt_str_of(fs@, "in"@)
            &&& p.required == opt_bool_of(fs@, "required"@)
            &&& match spec_get(fs@, "schema"@) {
                Some(v) => p.schema matches Some(r) && Some(r.path) == reference_of(v),
                None => p.schema is None,
            }
            &&& p.type_id == (match spec_get(fs@, "type"@) {
                Some(RawValue::Str(t)) => spec_parse_schema_type(t@),
                _ => None,
            })
        },
        _ => false,
    }
}

/// Parses one raw inline-parameter node.
pub fn parse_parameter(node: &RawValue) -> (res: Result<Parameter, ParseError>)
    ensures
        res is Ok <==> parameter_valid(*node),
        res matches Ok(p) ==> parameter_rep(*node, p),
{
    match node {
        RawValue::Object(fs) => {
            let mut name: Option<String> = None;
            let mut location: Option<String> = None;
            let mut required: Option<bool> = None;
            let mut schema: Option<Reference> = None;
            let mut type_id: Option<SchemaType> = None;
            match get_field(fs, "name") {
                Some(RawValue::Str(s)) => {
                    name = Some(s.clone());
                },
                Some(_) => {
                    return Err(ParseError::WrongKind { context: String::from_str("name") });
                },
                None => {},
            }
            match get_field(fs, "in") {
                Some(RawValue::Str(s)) => {
                    location = Some(s.clone());
                },
                Some(_) => {
                    return Err(ParseError::WrongKind { context: String::from_str("in") });
                },
                None => {},
            }
            match get_field(fs, "required") {
                Some(RawValue::Bool(b)) => {
                    required = Some(*b);
                },
                Some(_) => {
                    return Err(ParseError::WrongKind { context: String::from_str("required") });
                },
                None => {},
            }
            match get_field(fs, "schema") {
                Some(v) => {
                    match parse_reference(v) {
                        Ok(r) => {
                            schema = Some(r);
                        },
                        Err(e) => {
                            return Err(e);
                        },
                    }
                },
                None => {},
            }
            match get_field(fs, "type") {
                Some(RawValue::Str(t)) => {
                    match SchemaType::parse(t.as_str()) {
                        Ok(st) => {
                            type_id = Some(st);
                        },
                        Err(e) => {
                            return Err(e);
                        },
                    }
                },
                Some(_) => {
                    return Err(ParseError::WrongKind { context: String::from_str("type") });
                },
                None => {},
            }
            Ok(Parameter { name, location, required, schema, type_id })
        },
        _ => Err(ParseError::WrongKind { context: String::from_str("parameter") }),
    }
}

/// Parses a raw reference node: a mapping with a `$ref` string.
pub fn parse_reference(v: &RawValue) -> (res: Result<Reference, ParseError>)
    ensures
        res is Ok <==> reference_of(*v) is Some,
        res matches Ok(r) ==> Some(r.path) == reference_of(*v),
{
    match v {
        RawValue::Object(fs) => {
            match get_field(fs, "$ref") {
                Some(RawValue::Str(s)) => Ok(Reference { path: s.clone() }),
                _ => Err(ParseError::MissingField { field: String::from_str("$ref") }),
            }
        },
        _ => Err(ParseError::WrongKind { context: String::from_str("$ref") }),
    }
}

/// Whether a raw node is an acceptable definition: a mapping that resolves as
/// a schema, whose `required` list, where present, is an array of strings,
/// whose `allOf`, where present, is an array of reference nodes, and whose
/// description, where present, is a string.
pub open spec fn definition_valid(node: RawValue) -> bool
    decreases node, 1int,
{
    match node {
        RawValue::Object(fs) => schema_valid(node) && definition_meta_valid(fs@),
        _ => false,
    }
}

/// Whether a definition node's metadata fields, where present, have the
/// right shape.
pub open spec fn definition_meta_valid(fields: Seq<(String, RawValue)>) -> bool {
    &&& match spec_get(fields, "required"@) {
        Some(RawValue::Array(items)) => forall|i: int|
            0 <= i < items@.len() ==> (#[trigger] items@[i]) is Str,
        Some(_) => false,
        None => true,
    }
    &&& match spec_get(fields, "allOf"@) {
        Some(RawValue::Array(items)) => forall|i: int|
            0 <= i < items@.len() ==> reference_of(#[trigger] items@[i]) is Some,
        Some(_) => false,
        None => true,
    }
    &&& opt_str_ok(fields, "description"@)
}

/// How a parsed definition corresponds to the raw node it came from: the node
/// itself resolves as the schema, and each metadata field is taken from the
/// node where present.
pub open spec fn definition_rep(node: RawValue, d: Definition) -> bool
    decreases node, 1int,
{
    match node {
        RawValue::Object(fs) => schema_rep(node, d.schema) && definition_meta_rep(
            fs@,
            d.required,
            d.all_of,
            d.description,
        ),
        _ => false,
    }
}

/// How a definition's parsed metadata corresponds to the raw fields.
pub open spec fn definition_meta_rep(
    fields: Seq<(String, RawValue)>,
    required: Option<Vec<String>>,
    all_of: Option<Vec<Reference>>,
    description: Option<String>,
) -> bool {
    &&& match spec_get(fields, "required"@) {
        Some(RawValue::Array(items)) => required matches Some(v) && v@.len() == items@.len()
            && forall|i: int|
            0 <= i < items@.len() ==> ((#[trigger] items@[i]) matches RawValue::Str(s) && v@[i]
                == s),
        _ => required is None,
    }
    &&& match spec_get(fields, "allOf"@) {
        Some(RawValue::Array(items)) => all_of matches Some(v) && v@.len() == items@.len()
            && forall|i: int|
            0 <= i < items@.len() ==> Some((#[trigger] v@[i]).path) == reference_of(items@[i]),
        _ => all_of is None,
    }
    &&& description == opt_str_of(fields, "description"@)
}

/// Parses one raw definition node: its metadata and its schema, which the
/// same node resolves to.
#[verifier::loop_isolation(false)]
pub fn parse_definition(node: RawValue) -> (res: Result<Definition, ParseError>)
    ensures
        res is Ok <==> definition_valid(node),
        res matches Ok(d) ==> definition_rep(node, d),
    decreases node, 1int,
{
    let is_obj = match &node {
        RawValue::Object(_) => true,
        _ => false,
    };
    if !is_obj {
        return Err(ParseError::WrongKind { context: String::from_str("definition") });
    }
    let mut required: Option<Vec<String>> = None;
    let mut all_of: Option<Vec<Reference>> = None;
    let mut description: Option<String> = None;
    match &node {
        RawValue::Object(fs) => {
            match get_field(fs, "required") {
                Some(RawValue::Array(items)) => {
                    let mut names: Vec<String> = Vec::new();
                    let mut i: usize = 0;
                    while i < items.len()
                        invariant
                            i <= items@.len(),
                            names@.len() == i,
                            forall|l: int|
                                0 <= l < i ==> ((#[trigger] items@[l]) matches RawValue::Str(s)
                                    && names@[l] == s),
                        decreases items@.len() - i,
                    {
                        match &items[i] {
                            RawValue::Str(s) => {
                                names.push(s.clone());
                            },
                            _ => {
                                return Err(ParseError::WrongKind {
                                    context: String::from_str("required"),
                                });
                            },
                        }
                        i += 1;
                    }
                    required = Some(names);
                },
                Some(_) => {
                    return Err(ParseError::WrongKind { context: String::from_str("required") });
                },
                None => {},
            }
            match get_field(fs, "allOf") {
                Some(RawValue::Array(items)) => {
                    let mut refs: Vec<Reference> = Vec::new();
                    let mut i: usize = 0;
                    while i < items.len()
                        invariant
                            i <= items@.len(),
                            refs@.len() == i,
                            forall|l: int|
                                0 <= l < i ==> Some((#[trigger] refs@[l]).path) == reference_of(
                                    items@[l],
                                ),
                            forall|l: int|
                                0 <= l < i ==> reference_of(#[trigger] items@[l]) is Some,
                        decreases items@.len() - i,
                    {
                        match parse_reference(&items[i]) {
                            Ok(r) => {
                                refs.push(r);
                            },
                            Err(e) => {
                                return Err(e);
                            },
                        }
                        i += 1;
                    }
                    all_of = Some(refs);
                },
                Some(_) => {
                    return Err(ParseError::WrongKind { context: String::from_str("allOf") });
                },
                None => {},
            }
            match get_field(fs, "description") {
                Some(RawValue::Str(s)) => {
                    description = Some(s.clone());
                },
                Some(_) => {
                    return Err(ParseError::WrongKind { context: String::from_str("description") });
                },
                None => {},
            }
            proof {
                assert(definition_meta_valid(fs@));
                assert(definition_meta_rep(fs@, required, all_of, description));
                assert(node->Object_0@ == fs@);
            }
        },
        _ => {
            proof {
                assert(false);
            }
        },
    }
    match parse_schema(node) {
        Ok(schema) => Ok(Definition { schema, required, all_of, description }),
        Err(e) => Err(e),
    }
}

/// Whether every value of a raw name-to-definition mapping is acceptable.
pub open spec fn definitions_valid(dv: RawValue) -> bool
    decreases dv, 2int,
{
    match dv {
        RawValue::Object(df) => forall|i: int|
            0 <= i < df@.len() ==> definition_valid(#[trigger] df@[i].1),
        _ => false,
    }
}

/// How a parsed definition list corresponds to a raw mapping: same names, in
/// order, each value parsed as a definition.
pub open spec fn definitions_rep(dv: RawValue, ds: Seq<(String, Definition)>) -> bool
    decreases dv, 2int,
{
    match dv {
        RawValue::Object(df) => {
            &&& ds.len() == df@.len()
            &&& forall|i: int|
                0 <= i < df@.len() ==> (#[trigger] ds[i]).0 == df@[i].0 && definition_rep(
                    df@[i].1,
                    ds[i].1,
                )
        },
        _ => false,
    }
}

/// Parses the value of a `definitions` section into the named definitions.
pub fn parse_definitions(dv: RawValue) -> (res: Result<Vec<(String, Definition)>, ParseError>)
    ensures
        res is Ok <==> definitions_valid(dv),
        res matches Ok(ds) ==> definitions_rep(dv, ds@),
    decreases dv, 2int,
{
    let ghost dvg = dv;
    match dv {
        RawValue::Object(df) => {
            let ghost df0 = df@;
            let mut rem = df;
            let mut out: Vec<(String, Definition)> = Vec::new();
            proof {
                assert(df0.skip(0) =~= df0);
            }
            while rem.len() > 0
                invariant
                    out@.len() + rem@.len() == df0.len(),
                    rem@ =~= df0.skip(out@.len() as int),
                    forall|i: int|
                        0 <= i < out@.len() ==> (#[trigger] out@[i]).0 == df0[i].0
                            && definition_rep(df0[i].1, out@[i].1) && definition_valid(df0[i].1),
                    dvg == dv,
                    dvg is Object,
                    dvg->Object_0@ == df0,
                decreases rem@.len(),
            {
                let ghost k = out@.len() as int;
                let ghost rem0 = rem@;
                let pair = rem.remove(0);
                proof {
                    assert(rem0[0] == df0.skip(k)[0]);
                    assert(df0.skip(k)[0] == df0[k]);
                    assert(pair == df0[k]);
                    assert(rem@ =~= rem0.remove(0));
                    assert(rem@ =~= df0.skip(k + 1));
                    assert(decreases_to!(dvg => dvg->Object_0));
                    assert(decreases_to!(dvg->Object_0 => dvg->Object_0@));
                    assert(decreases_to!(dvg->Object_0@ => dvg->Object_0@[k]));
                    assert(decreases_to!(dvg->Object_0@[k] => dvg->Object_0@[k].1));
                    assert(dvg->Object_0@[k].1 == pair.1);
                    assert(decreases_to!(dvg => pair.1));
                }
                match parse_definition(pair.1) {
                    Ok(d) => {
                        out.push((pair.0, d));
                    },
                    Err(e) => {
                        proof {
                            assert(!definition_valid(df0[k].1));
                            assert(dvg->Object_0@ == df0);
                            assert(!definitions_valid(dvg));
                        }
                        return Err(e);
                    },
                }
            }
            proof {
                assert(out@.len() == df0.len());
                assert forall|i: int| 0 <= i < df0.len() implies definition_valid(
                    #[trigger] df0[i].1,
                ) by {
                    assert((#[trigger] out@[i]).0 == df0[i].0);
                }
                assert(definitions_valid(dvg));
                assert(definitions_rep(dvg, out@));
            }
            Ok(out)
        },
        _ => Err(ParseError::WrongKind { context: String::from_str("definitions") }),
    }
}

/// Whether every value of a raw name-to-parameter mapping is acceptable.
pub open spec fn parameters_valid(pv: RawValue) -> bool {
    match pv {
        RawValue::Object(pf) => forall|i: int|
            0 <= i < pf@.len() ==> parameter_valid(#[trigger] pf@[i].1),
        _ => false,
    }
}

/// How a parsed parameter list corresponds to a raw mapping: same names, in
/// order, each value parsed as a parameter.
pub open spec fn parameters_rep(pv: RawValue, ps: Seq<(String, Parameter)>) -> bool {
    match pv {
        RawValue::Object(pf) => {
            &&& ps.len() == pf@.len()
            &&& forall|i: int|
                0 <= i < pf@.len() ==> (#[trigger] ps[i]).0 == pf@[i].0 && parameter_rep(
                    pf@[i].1,
                    ps[i].1,
                )
        },
        _ => false,
    }
}

/// Parses the value of a `parameters` section into the named parameters.
pub fn parse_parameters(pv: RawValue) -> (res: Result<Vec<(String, Parameter)>, ParseError>)
    ensures
        res is Ok <==> parameters_valid(pv),
        res matches Ok(ps) ==> parameters_rep(pv, ps@),
{
    let ghost pvg = pv;
    match pv {
        RawValue::Object(pf) => {
            let ghost pf0 = pf@;
            let mut rem = pf;
            let mut out: Vec<(String, Parameter)> = Vec::new();
            proof {
                assert(pf0.skip(0) =~= pf0);
            }
            while rem.len() > 0
                invariant
                    out@.len() + rem@.len() == pf0.len(),
                    rem@ =~= pf0.skip(out@.len() as int),
                    forall|i: int|
                        0 <= i < out@.len() ==> (#[trigger] out@[i]).0 == pf0[i].0 && parameter_rep(
                            pf0[i].1,
                            out@[i].1,
                        ) && parameter_valid(pf0[i].1),
                    pvg == pv,
                    pvg is Object,
                    pvg->Object_0@ == pf0,
                decreases rem@.len(),
            {
                let ghost k = out@.len() as int;
                let ghost rem0 = rem@;
                let pair = rem.remove(0);
                proof {
                    assert(rem0[0] == pf0.skip(k)[0]);
                    assert(pf0.skip(k)[0] == pf0[k]);
                    assert(pair == pf0[k]);
                    assert(rem@ =~= rem0.remove(0));
                    assert(rem@ =~= pf0.skip(k + 1));
                }
                match parse_parameter(&pair.1) {
                    Ok(p) => {
                        out.push((pair.0, p));
                    },
                    Err(e) => {
                        proof {
                            assert(!parameter_valid(pf0[k].1));
                            assert(!parameters_valid(pvg));
                        }
                        return Err(e);
                    },
                }
            }
            proof {
                assert(out@.len() == pf0.len());
                assert forall|i: int| 0 <= i < pf0.len() implies parameter_valid(
                    #[trigger] pf0[i].1,
                ) by {
                    assert((#[trigger] out@[i]).0 == pf0[i].0);
                }
                assert(parameters_valid(pvg));
                assert(parameters_rep(pvg, out@));
            }
            Ok(out)
        },
        _ => Err(ParseError::WrongKind { context: String::from_str("parameters") }),
    }
}

/// The advisory property type tag for a recognized schema type.
pub fn prop_type_of(t: SchemaType) -> (r: DefinitionPropertyType)
    ensures
        r == spec_prop_type(t),
{
    match t {
        SchemaType::Object => DefinitionPropertyType::Object,
        SchemaType::String => DefinitionPropertyType::String,
        SchemaType::Number => DefinitionPropertyType::Number,
        SchemaType::Integer => DefinitionPropertyType::Integer,
        SchemaType::Boolean => DefinitionPropertyType::Boolean,
        SchemaType::Array => DefinitionPropertyType::Array,
    }
}

} // verus!
