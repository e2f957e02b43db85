use vstd::prelude::*;
use vstd::string::*;

use crate::document::{swagger_rep, swagger_valid};
use crate::emit::{prim_of_schema, spec_collect_fields, spec_insert};
use crate::generator::{
    ModuleOutcome, outcome_matches, spec_collect_defs, spec_collect_params, spec_doc_decls,
    spec_files_of, spec_written_of, SpecificationFile,
};
use crate::models::{Parameter, Swagger};
use crate::parser::{
    definition_rep, definitions_rep, lemma_first_key_unique, parameter_rep, parameters_rep,
    properties_rep, schema_rep,
};
use crate::raw::{is_first_key, lemma_spec_get_first_key, RawValue, spec_get};
use crate::schema::{Definition, DefinitionProperty, DefinitionType};

verus! {

/// Two field lists that agree in names and primitive shapes, position by
/// position.
pub open spec fn fields_congruent(
    q1: Seq<(String, DefinitionProperty)>,
    q2: Seq<(String, DefinitionProperty)>,
) -> bool {
    &&& q1.len() == q2.len()
    &&& forall|i: int|
        0 <= i < q1.len() ==> (#[trigger] q1[i]).0@ == (#[trigger] q2[i]).0@ && prim_of_schema(
            q1[i].1.schema,
        ) == prim_of_schema(q2[i].1.schema)
}

/// Congruent field lists fold to the same emitted fields.
pub proof fn lemma_collect_fields_congruent(
    q1: Seq<(String, DefinitionProperty)>,
    q2: Seq<(String, DefinitionProperty)>,
    acc: Seq<(Seq<char>, Seq<char>)>,
)
    requires
        fields_congruent(q1, q2),
    ensures
        spec_collect_fields(q1, acc) == spec_collect_fields(q2, acc),
    decreases q1.len(),
{
    if q1.len() > 0 {
        assert(q1[0].0@ == q2[0].0@ && prim_of_schema(q1[0].1.schema) == prim_of_schema(
            q2[0].1.schema,
        ));
        assert forall|i: int|
            0 <= i < q1.drop_first().len() implies (#[trigger] q1.drop_first()[i]).0@ == (
        #[trigger] q2.drop_first()[i]).0@ && prim_of_schema(q1.drop_first()[i].1.schema)
            == prim_of_schema(q2.drop_first()[i].1.schema) by {
            assert(q1.drop_first()[i] == q1[i + 1]);
            assert(q2.drop_first()[i] == q2[i + 1]);
        }
        let step1 = match prim_of_schema(q1[0].1.schema) {
            Some(ty) => spec_insert(
                acc,
                crate::emit::spec_field_key(q1[0].0@),
                crate::emit::spec_field_line(q1[0].0@, ty),
            ),
            None => acc,
        };
        let step2 = match prim_of_schema(q2[0].1.schema) {
            Some(ty) => spec_insert(
                acc,
                crate::emit::spec_field_key(q2[0].0@),
                crate::emit::spec_field_line(q2[0].0@, ty),
            ),
            None => acc,
        };
        assert(step1 == step2);
        lemma_collect_fields_congruent(q1.drop_first(), q2.drop_first(), step1);
    }
}

/// Any two schemas a raw node resolves to share their variant class: the same
/// primitive spelling, or object-hood with congruent field lists.
pub proof fn lemma_schema_rep_shape(n: RawValue, t1: DefinitionType, t2: DefinitionType)
    requires
        schema_rep(n, t1),
        schema_rep(n, t2),
    ensures
        prim_of_schema(t1) == prim_of_schema(t2),
        t1 is Object <==> t2 is Object,
        t1 matches DefinitionType::Object { properties: p1, .. } ==> (
        t2 matches DefinitionType::Object { properties: p2, .. } && fields_congruent(p1@, p2@)),
    decreases n, 1int,
{
    match n {
        RawValue::Object(fields) => {
            if spec_get(fields@, "items"@) is Some {
            } else if spec_get(fields@, "properties"@) is Some {
                lemma_spec_get_first_key(fields@, "properties"@);
                lemma_first_key_unique(fields@, "properties"@);
                let j1 = choose|j: int|
                    #[trigger] is_first_key(fields@, "properties"@, j) && (
                    t1 matches DefinitionType::Object { properties, additional }
                        && properties_rep(fields@[j].1, properties@) && additional@
                        == fields@.remove(j));
                let j2 = choose|j: int|
                    #[trigger] is_first_key(fields@, "properties"@, j) && (
                    t2 matches DefinitionType::Object { properties, additional }
                        && properties_rep(fields@[j].1, properties@) && additional@
                        == fields@.remove(j));
                assert(j1 == j2);
                let pv = fields@[j1].1;
                assert(decreases_to!(n => n->Object_0));
                assert(decreases_to!(n->Object_0 => n->Object_0@));
                assert(decreases_to!(n->Object_0@ => n->Object_0@[j1]));
                assert(decreases_to!(n->Object_0@[j1] => n->Object_0@[j1].1));
                assert(n->Object_0@[j1].1 == pv);
                lemma_properties_rep_congruent(pv, t1->Object_properties@, t2->Object_properties@);
            } else {
            }
        },
        _ => {},
    }
}

/// Any two property lists parsed from one raw `properties` mapping are
/// congruent in names and primitive shapes.
pub proof fn lemma_properties_rep_congruent(
    pv: RawValue,
    q1: Seq<(String, DefinitionProperty)>,
    q2: Seq<(String, DefinitionProperty)>,
)
    requires
        properties_rep(pv, q1),
        properties_rep(pv, q2),
    ensures
        fields_congruent(q1, q2),
    decreases pv, 2int,
{
    match pv {
        RawValue::Object(pf) => {
            assert forall|i: int|
                0 <= i < q1.len() implies (#[trigger] q1[i]).0@ == (#[trigger] q2[i]).0@
                && prim_of_schema(q1[i].1.schema) == prim_of_schema(q2[i].1.schema) by {
                assert(q1[i].0 == pf@[i].0 && q2[i].0 == pf@[i].0);
                let node = pf@[i].1;
                assert(decreases_to!(pv => pv->Object_0));
                assert(decreases_to!(pv->Object_0 => pv->Object_0@));
                assert(decreases_to!(pv->Object_0@ => pv->Object_0@[i]));
                assert(decreases_to!(pv->Object_0@[i] => pv->Object_0@[i].1));
                assert(pv->Object_0@[i].1 == node);
                lemma_schema_rep_shape(node, q1[i].1.schema, q2[i].1.schema);
            }
        },
        _ => {},
    }
}

/// Congruent parameter lists fold to the same declarations.
pub proof fn lemma_collect_params_congruent(
    ps1: Seq<(String, Parameter)>,
    ps2: Seq<(String, Parameter)>,
    acc: Seq<(Seq<char>, Seq<char>)>,
)
    requires
        ps1.len() == ps2.len(),
        forall|i: int|
            0 <= i < ps1.len() ==> (#[trigger] ps1[i]).0@ == (#[trigger] ps2[i]).0@ && ps1[i].1.type_id
                == ps2[i].1.type_id,
    ensures
        spec_collect_params(ps1, acc) == spec_collect_params(ps2, acc),
    decreases ps1.len(),
{
    if ps1.len() > 0 {
        assert(ps1[0].0@ == ps2[0].0@ && ps1[0].1.type_id == ps2[0].1.type_id);
        assert forall|i: int|
            0 <= i < ps1.drop_first().len() implies (#[trigger] ps1.drop_first()[i]).0@ == (
        #[trigger] ps2.drop_first()[i]).0@ && ps1.drop_first()[i].1.type_id
            == ps2.drop_first()[i].1.type_id by {
            assert(ps1.drop_first()[i] == ps1[i + 1]);
            assert(ps2.drop_first()[i] == ps2[i + 1]);
        }
        let step1 = spec_collect_params(ps1, acc);
        lemma_collect_params_congruent(
            ps1.drop_first(),
            ps2.drop_first(),
            match ps1[0].1.type_id {
                Some(crate::models::SchemaType::String) => spec_insert(
                    acc,
                    crate::sanitize::spec_type_ident(ps1[0].0@),
                    crate::emit::spec_simple_decl(ps1[0].0@, "String"@),
                ),
                Some(crate::models::SchemaType::Integer) => spec_insert(
                    acc,
                    crate::sanitize::spec_type_ident(ps1[0].0@),
                    crate::emit::spec_simple_decl(ps1[0].0@, "i32"@),
                ),
                Some(crate::models::SchemaType::Number) => spec_insert(
                    acc,
                    crate::sanitize::spec_type_ident(ps1[0].0@),
                    crate::emit::spec_simple_decl(ps1[0].0@, "f32"@),
                ),
                _ => acc,
            },
        );
    }
}

/// Congruent definition lists fold to the same declarations.
pub proof fn lemma_collect_defs_congruent(
    ds1: Seq<(String, Definition)>,
    ds2: Seq<(String, Definition)>,
    acc: Seq<(Seq<char>, Seq<char>)>,
)
    requires
        ds1.len() == ds2.len(),
        forall|i: int|
            0 <= i < ds1.len() ==> (#[trigger] ds1[i]).0@ == (#[trigger] ds2[i]).0@ && ((
            ds1[i].1.schema is Object) <==> (ds2[i].1.schema is Object)),
        forall|i: int|
            0 <= i < ds1.len() ==> ((#[trigger] ds1[i]).1.schema matches DefinitionType::Object {
                properties: p1,
                ..
            } ==> ((#[trigger] ds2[i]).1.schema matches DefinitionType::Object { properties: p2, .. }
                && spec_collect_fields(p1@, Seq::empty()) == spec_collect_fields(
                p2@,
                Seq::empty(),
            ))),
    ensures
        spec_collect_defs(ds1, acc) == spec_collect_defs(ds2, acc),
    decreases ds1.len(),
{
    if ds1.len() > 0 {
        assert(ds1[0].0@ == ds2[0].0@ && ((ds1[0].1.schema is Object) <==> (ds2[0].1.schema
            is Object)));
        assert(ds1[0].1.schema matches DefinitionType::Object { properties: p1, .. } ==> (
        ds2[0].1.schema matches DefinitionType::Object { properties: p2, .. }
            && spec_collect_fields(p1@, Seq::empty()) == spec_collect_fields(p2@, Seq::empty())));
        let step1 = match ds1[0].1.schema {
            DefinitionType::Object { properties, .. } => spec_insert(
                acc,
                crate::sanitize::spec_type_ident(ds1[0].0@),
                crate::emit::spec_struct_decl(
                    ds1[0].0@,
                    spec_collect_fields(properties@, Seq::empty()),
                ),
            ),
            _ => acc,
        };
        let step2 = match ds2[0].1.schema {
            DefinitionType::Object { properties, .. } => spec_insert(
                acc,
                crate::sanitize::spec_type_ident(ds2[0].0@),
                crate::emit::spec_struct_decl(
                    ds2[0].0@,
                    spec_collect_fields(properties@, Seq::empty()),
                ),
            ),
            _ => acc,
        };
        assert(step1 == step2);
        assert forall|i: int|
            0 <= i < ds1.drop_first().len() implies (#[trigger] ds1.drop_first()[i]).0@ == (
        #[trigger] ds2.drop_first()[i]).0@ && ((ds1.drop_first()[i].1.schema is Object) <==> (
        ds2.drop_first()[i].1.schema is Object)) by {
            assert(ds1.drop_first()[i] == ds1[i + 1]);
            assert(ds2.drop_first()[i] == ds2[i + 1]);
        }
        assert forall|i: int|
            0 <= i < ds1.drop_first().len() implies ((#[trigger] ds1.drop_first()[i]).1.schema
            matches DefinitionType::Object { properties: p1, .. } ==> ((
        #[trigger] ds2.drop_first()[i]).1.schema matches DefinitionType::Object {
            properties: p2,
            ..
        } && spec_collect_fields(p1@, Seq::empty()) == spec_collect_fields(
            p2@,
            Seq::empty(),
        ))) by {
            assert(ds1.drop_first()[i] == ds1[i + 1]);
            assert(ds2.drop_first()[i] == ds2[i + 1]);
        }
        lemma_collect_defs_congruent(ds1.drop_first(), ds2.drop_first(), step1);
    }
}

/// Any two parses of one raw document yield the same declarations, byte for
/// byte: the pipeline's output is a function of the input tree.
pub proof fn lemma_doc_decls_deterministic(d: RawValue, s1: Swagger, s2: Swagger)
    requires
        swagger_rep(d, s1),
        swagger_rep(d, s2),
    ensures
        spec_doc_decls(s1) == spec_doc_decls(s2),
{
    match d {
        RawValue::Object(fs) => {
            let pacc1 = match s1.parameters {
                Some(ps) => spec_collect_params(ps@, Seq::empty()),
                None => Seq::<(Seq<char>, Seq<char>)>::empty(),
            };
            let pacc2 = match s2.parameters {
                Some(ps) => spec_collect_params(ps@, Seq::empty()),
                None => Seq::<(Seq<char>, Seq<char>)>::empty(),
            };
            match spec_get(fs@, "parameters"@) {
                Some(pv) => {
                    let ps1 = s1.parameters->Some_0;
                    let ps2 = s2.parameters->Some_0;
                    assert(parameters_rep(pv, ps1@) && parameters_rep(pv, ps2@));
                    match pv {
                        RawValue::Object(pf) => {
                            assert forall|i: int|
                                0 <= i < ps1@.len() implies (#[trigger] ps1@[i]).0@ == (
                            #[trigger] ps2@[i]).0@ && ps1@[i].1.type_id == ps2@[i].1.type_id by {
                                assert(parameter_rep(pf@[i].1, ps1@[i].1));
                                assert(parameter_rep(pf@[i].1, ps2@[i].1));
                                assert(ps1@[i].0 == pf@[i].0 && ps2@[i].0 == pf@[i].0);
                            }
                            lemma_collect_params_congruent(
                                ps1@,
                                ps2@,
                                Seq::<(Seq<char>, Seq<char>)>::empty(),
                            );
                        },
                        _ => {},
                    }
                },
                None => {},
            }
            assert(pacc1 == pacc2);
            match spec_get(fs@, "definitions"@) {
                Some(dv) => {
                    let ds1 = s1.definitions->Some_0;
                    let ds2 = s2.definitions->Some_0;
                    assert(definitions_rep(dv, ds1@) && definitions_rep(dv, ds2@));
                    match dv {
                        RawValue::Object(df) => {
                            assert forall|i: int|
                                0 <= i < ds1@.len() implies (#[trigger] ds1@[i]).0@ == (
                            #[trigger] ds2@[i]).0@ && ((ds1@[i].1.schema is Object) <==> (
                            ds2@[i].1.schema is Object)) by {
                                assert(definition_rep(df@[i].1, ds1@[i].1));
                                assert(definition_rep(df@[i].1, ds2@[i].1));
                                assert(ds1@[i].0 == df@[i].0 && ds2@[i].0 == df@[i].0);
                                lemma_schema_rep_shape(
                                    df@[i].1,
                                    ds1@[i].1.schema,
                                    ds2@[i].1.schema,
                                );
                            }
                            assert forall|i: int|
                                0 <= i < ds1@.len() implies ((
                            #[trigger] ds1@[i]).1.schema matches DefinitionType::Object {
                                properties: p1,
                                ..
                            } ==> ((#[trigger] ds2@[i]).1.schema matches DefinitionType::Object {
                                properties: p2,
                                ..
                            } && spec_collect_fields(p1@, Seq::empty()) == spec_collect_fields(
                                p2@,
                                Seq::empty(),
                            ))) by {
                                assert(definition_rep(df@[i].1, ds1@[i].1));
                                assert(definition_rep(df@[i].1, ds2@[i].1));
                                lemma_schema_rep_shape(
                                    df@[i].1,
                                    ds1@[i].1.schema,
                                    ds2@[i].1.schema,
                                );
                                match ds1@[i].1.schema {
                                    DefinitionType::Object { properties: p1, .. } => {
                                        match ds2@[i].1.schema {
                                            DefinitionType::Object { properties: p2, .. } => {
                                                lemma_collect_fields_congruent(
                                                    p1@,
                                                    p2@,
                                                    Seq::<(Seq<char>, Seq<char>)>::empty(),
                                                );
                                            },
                                            _ => {},
                                        }
                                    },
                                    _ => {},
                                }
                            }
                            lemma_collect_defs_congruent(ds1@, ds2@, pacc1);
                        },
                        _ => {},
                    }
                },
                None => {},
            }
        },
        _ => {},
    }
}

/// Running the pipeline twice on identical input produces byte-identical
/// output files and an identical manifest: any two outcome lists that answer
/// for the same documents carry the same file bytes and the same written
/// registrations, from which the manifest is assembled by a pure function.
pub proof fn lemma_run_deterministic(
    specs: Seq<SpecificationFile>,
    os1: Seq<ModuleOutcome>,
    os2: Seq<ModuleOutcome>,
)
    requires
        os1.len() == specs.len(),
        os2.len() == specs.len(),
        forall|i: int| 0 <= i < specs.len() ==> outcome_matches(specs[i], #[trigger] os1[i]),
        forall|i: int| 0 <= i < specs.len() ==> outcome_matches(specs[i], #[trigger] os2[i]),
    ensures
        spec_files_of(os1) == spec_files_of(os2),
        spec_written_of(os1) == spec_written_of(os2),
    decreases specs.len(),
{
    if specs.len() > 0 {
        let n = specs.len() - 1;
        assert forall|i: int|
            0 <= i < specs.drop_last().len() implies outcome_matches(
            specs.drop_last()[i],
            #[trigger] os1.drop_last()[i],
        ) by {
            assert(specs.drop_last()[i] == specs[i] && os1.drop_last()[i] == os1[i]);
        }
        assert forall|i: int|
            0 <= i < specs.drop_last().len() implies outcome_matches(
            specs.drop_last()[i],
            #[trigger] os2.drop_last()[i],
        ) by {
            assert(specs.drop_last()[i] == specs[i] && os2.drop_last()[i] == os2[i]);
        }
        lemma_run_deterministic(specs.drop_last(), os1.drop_last(), os2.drop_last());
        let f = specs[n];
        let a = os1[n];
        let b = os2[n];
        assert(outcome_matches(f, a) && outcome_matches(f, b));
        match a {
            ModuleOutcome::Failed { .. } => {
                assert(!swagger_valid(f.document));
                assert(b is Failed);
                assert(spec_files_of(os1) =~= spec_files_of(os1.drop_last()));
                assert(spec_files_of(os2) =~= spec_files_of(os2.drop_last()));
                assert(spec_written_of(os1) =~= spec_written_of(os1.drop_last()));
                assert(spec_written_of(os2) =~= spec_written_of(os2.drop_last()));
            },
            ModuleOutcome::Empty { .. } => {
                assert(swagger_valid(f.document));
                assert(!(b is Failed));
                let sa = choose|sw: Swagger|
                    #[trigger] swagger_rep(f.document, sw) && spec_doc_decls(sw).len() == 0;
                if b matches ModuleOutcome::Generated { .. } {
                    let sb = choose|sw: Swagger|
                        #[trigger] swagger_rep(f.document, sw) && spec_doc_decls(sw).len() > 0;
                    lemma_doc_decls_deterministic(f.document, sa, sb);
                }
                assert(b is Empty);
                assert(spec_files_of(os1) =~= spec_files_of(os1.drop_last()));
                assert(spec_files_of(os2) =~= spec_files_of(os2.drop_last()));
                assert(spec_written_of(os1) =~= spec_written_of(os1.drop_last()));
                assert(spec_written_of(os2) =~= spec_written_of(os2.drop_last()));
            },
            ModuleOutcome::Generated { key: k1, module_name: m1, content: c1, .. } => {
                assert(swagger_valid(f.document));
                assert(!(b is Failed));
                let sa = choose|sw: Swagger|
                    #[trigger] swagger_rep(f.document, sw) && spec_doc_decls(sw).len() > 0
                        && c1@ == crate::generator::spec_decls_text(spec_doc_decls(sw));
                if b matches ModuleOutcome::Empty { .. } {
                    let sb = choose|sw: Swagger|
                        #[trigger] swagger_rep(f.document, sw) && spec_doc_decls(sw).len() == 0;
                    lemma_doc_decls_deterministic(f.document, sa, sb);
                }
                assert(b is Generated);
                match b {
                    ModuleOutcome::Generated { key: k2, module_name: m2, content: c2, .. } => {
                        let sb = choose|sw: Swagger|
                            #[trigger] swagger_rep(f.document, sw) && spec_doc_decls(sw).len() > 0
                                && c2@ == crate::generator::spec_decls_text(spec_doc_decls(sw));
                        lemma_doc_decls_deterministic(f.document, sa, sb);
                        assert(k1 == f.file_name && k2 == f.file_name);
                        assert(k1@ == k2@ && m1@ == m2@ && c1@ == c2@);
                        assert(spec_files_of(os1) =~= spec_files_of(os1.drop_last()) + seq![
                            (m1@, c1@),
                        ]);
                        assert(spec_files_of(os2) =~= spec_files_of(os2.drop_last()) + seq![
                            (m2@, c2@),
                        ]);
                        assert(spec_written_of(os1) =~= spec_written_of(os1.drop_last()) + seq![
                            (k1@, m1@),
                        ]);
                        assert(spec_written_of(os2) =~= spec_written_of(os2.drop_last()) + seq![
                            (k2@, m2@),
                        ]);
                    },
                    _ => {},
                }
            },
        }
    } else {
        assert(os1.len() == 0 && os2.len() == 0);
    }
}

} // verus!
