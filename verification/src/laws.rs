use vstd::prelude::*;
use vstd::string::*;

use crate::chars::is_ident_char;
use crate::emit::{
    lemma_insert_sorted, prim_of_schema, sorted_keys, spec_field_key, spec_field_line,
    spec_insert, spec_simple_decl,
};
use crate::generator::{ModuleOutcome, spec_collect_defs, spec_collect_params, spec_doc_decls,
    spec_files_of, spec_manifest_entries, spec_written_of};
use crate::models::{Parameter, SchemaType, Swagger};
use crate::sanitize::{lemma_type_ident_legal, spec_type_ident};
use crate::schema::{Definition, DefinitionProperty, DefinitionType};
use crate::strutil::lex_lt;

verus! {

/// Whether a parameter is eligible for code generation: its primitive
/// property type is string, integer or number.
pub open spec fn parameter_eligible(p: Parameter) -> bool {
    p.type_id == Some(SchemaType::String) || p.type_id == Some(SchemaType::Integer) || p.type_id
        == Some(SchemaType::Number)
}

/// Parameters with no eligible entry contribute nothing.
pub proof fn lemma_params_no_eligible(params: Seq<(String, Parameter)>, acc: Seq<(Seq<char>, Seq<char>)>)
    requires
        forall|i: int| 0 <= i < params.len() ==> !parameter_eligible((#[trigger] params[i]).1),
    ensures
        spec_collect_params(params, acc) == acc,
    decreases params.len(),
{
    if params.len() > 0 {
        assert(!parameter_eligible(params[0].1));
        assert forall|i: int|
            0 <= i < params.drop_first().len() implies !parameter_eligible(
            (#[trigger] params.drop_first()[i]).1,
        ) by {
            assert(params.drop_first()[i] == params[i + 1]);
        }
        lemma_params_no_eligible(params.drop_first(), acc);
    }
}

/// Definitions with no object-shaped entry contribute nothing.
pub proof fn lemma_defs_no_object(defs: Seq<(String, Definition)>, acc: Seq<(Seq<char>, Seq<char>)>)
    requires
        forall|i: int| 0 <= i < defs.len() ==> !((#[trigger] defs[i]).1.schema is Object),
    ensures
        spec_collect_defs(defs, acc) == acc,
    decreases defs.len(),
{
    if defs.len() > 0 {
        assert(!(defs[0].1.schema is Object));
        assert forall|i: int|
            0 <= i < defs.drop_first().len() implies !((#[trigger] defs.drop_first()[i]).1.schema
            is Object) by {
            assert(defs.drop_first()[i] == defs[i + 1]);
        }
        lemma_defs_no_object(defs.drop_first(), acc);
    }
}

/// A document with no object-shaped definitions and no eligible parameters
/// yields no declarations, so its run produces no output file and registers
/// no manifest entry: its outcome is no generated module, and only generated
/// modules reach the file list and the manifest.
pub proof fn lemma_empty_document_no_declarations(sw: Swagger)
    requires
        match sw.definitions {
            Some(ds) => forall|i: int|
                0 <= i < ds@.len() ==> !((#[trigger] ds@[i]).1.schema is Object),
            None => true,
        },
        match sw.parameters {
            Some(ps) => forall|i: int|
                0 <= i < ps@.len() ==> !parameter_eligible((#[trigger] ps@[i]).1),
            None => true,
        },
    ensures
        spec_doc_decls(sw).len() == 0,
{
    let empty = Seq::<(Seq<char>, Seq<char>)>::empty();
    match sw.parameters {
        Some(ps) => {
            lemma_params_no_eligible(ps@, empty);
        },
        None => {},
    }
    match sw.definitions {
        Some(ds) => {
            lemma_defs_no_object(ds@, empty);
        },
        None => {},
    }
}

/// An outcome that generated nothing adds nothing: neither a file nor an
/// entry among the written modules the manifest is assembled from.
pub proof fn lemma_non_generated_adds_nothing(os: Seq<ModuleOutcome>)
    requires
        os.len() > 0,
        !(os.last() is Generated),
    ensures
        spec_files_of(os) == spec_files_of(os.drop_last()),
        spec_written_of(os) == spec_written_of(os.drop_last()),
{
    assert(spec_files_of(os) =~= spec_files_of(os.drop_last()));
    assert(spec_written_of(os) =~= spec_written_of(os.drop_last()));
}

/// Insertion under a fresh key grows the map by exactly that entry and keeps
/// every other entry.
pub proof fn lemma_insert_new_key(s: Seq<(Seq<char>, Seq<char>)>, k: Seq<char>, v: Seq<char>)
    requires
        forall|i: int| 0 <= i < s.len() ==> (#[trigger] s[i]).0 != k,
    ensures
        spec_insert(s, k, v).len() == s.len() + 1,
        exists|j: int|
            0 <= j < spec_insert(s, k, v).len() && #[trigger] spec_insert(s, k, v)[j] == (k, v),
        forall|i: int|
            0 <= i < s.len() ==> exists|j: int|
                0 <= j < spec_insert(s, k, v).len() && #[trigger] spec_insert(s, k, v)[j] == (
                #[trigger] s[i]),
    decreases s.len(),
{
    let r = spec_insert(s, k, v);
    if s.len() == 0 {
        assert(r[0] == (k, v));
    } else if lex_lt(k, s[0].0) {
        assert(r[0] == (k, v));
        assert forall|i: int| 0 <= i < s.len() implies exists|j: int|
            0 <= j < r.len() && #[trigger] r[j] == (#[trigger] s[i]) by {
            assert(r[i + 1] == s[i]);
        }
    } else if k == s[0].0 {
        assert(s[0].0 != k);
    } else {
        assert forall|i: int|
            0 <= i < s.drop_first().len() implies (#[trigger] s.drop_first()[i]).0 != k by {
            assert(s.drop_first()[i] == s[i + 1]);
        }
        lemma_insert_new_key(s.drop_first(), k, v);
        let rr = spec_insert(s.drop_first(), k, v);
        let j0 = choose|j: int| 0 <= j < rr.len() && #[trigger] rr[j] == (k, v);
        assert(r[j0 + 1] == (k, v));
        assert forall|i: int| 0 <= i < s.len() implies exists|j: int|
            0 <= j < r.len() && #[trigger] r[j] == (#[trigger] s[i]) by {
            if i == 0 {
                assert(r[0] == s[0]);
            } else {
                assert(s.drop_first()[i - 1] == s[i]);
                let j1 = choose|j: int| 0 <= j < rr.len() && #[trigger] rr[j] == s.drop_first()[i - 1];
                assert(r[j1 + 1] == s[i]);
            }
        }
    }
}

/// Two distinct property names get two distinct field sort keys: the key
/// holds the sanitized name, a space, then the raw name, and the space is no
/// identifier character, so the raw name can always be read back off.
pub proof fn lemma_field_key_injective(n1: Seq<char>, n2: Seq<char>)
    requires
        n1 != n2,
    ensures
        spec_field_key(n1) != spec_field_key(n2),
{
    reveal_strlit(" ");
    let i1 = spec_type_ident(n1);
    let i2 = spec_type_ident(n2);
    let k1 = spec_field_key(n1);
    let k2 = spec_field_key(n2);
    lemma_type_ident_legal(n1);
    lemma_type_ident_legal(n2);
    assert(!is_ident_char(' '));
    if k1 == k2 {
        assert(forall|l: int| 0 <= l < i1.len() ==> k1[l] == i1[l]);
        assert(forall|l: int| 0 <= l < i2.len() ==> k2[l] == i2[l]);
        assert(k1[i1.len() as int] == ' ');
        assert(k2[i2.len() as int] == ' ');
        if i1.len() < i2.len() {
            assert(i2[i1.len() as int] == k1[i1.len() as int]);
            assert(is_ident_char(i2[i1.len() as int]));
        } else if i2.len() < i1.len() {
            assert(i1[i2.len() as int] == k2[i2.len() as int]);
            assert(is_ident_char(i1[i2.len() as int]));
        } else {
            assert(k1.len() == i1.len() + 1 + n1.len());
            assert(k2.len() == i2.len() + 1 + n2.len());
            assert(n1.len() == n2.len());
            assert forall|l: int| 0 <= l < n1.len() implies n1[l] == n2[l] by {
                assert(k1[i1.len() + 1 + l] == n1[l]);
                assert(k2[i2.len() + 1 + l] == n2[l]);
            }
            assert(n1 =~= n2);
        }
    }
}

/// For an object definition whose declared properties all carry a primitive
/// schema shape and pairwise distinct names, the emitted field list holds
/// exactly one field per property, and that field's line carries the
/// property's name and the primitive mapping table's entry for its shape.
pub proof fn lemma_object_fields_exact(
    props: Seq<(String, DefinitionProperty)>,
    acc: Seq<(Seq<char>, Seq<char>)>,
)
    requires
        forall|i: int| 0 <= i < props.len() ==> prim_of_schema((#[trigger] props[i]).1.schema) is Some,
        forall|i: int, j: int|
            0 <= i < j < props.len() ==> (#[trigger] props[i]).0@ != (#[trigger] props[j]).0@,
        forall|i: int, j: int|
            0 <= i < props.len() && 0 <= j < acc.len() ==> spec_field_key(
                (#[trigger] props[i]).0@,
            ) != (#[trigger] acc[j]).0,
    ensures
        crate::emit::spec_collect_fields(props, acc).len() == acc.len() + props.len(),
        forall|i: int|
            0 <= i < props.len() ==> exists|j: int|
                0 <= j < crate::emit::spec_collect_fields(props, acc).len()
                    && #[trigger] crate::emit::spec_collect_fields(props, acc)[j] == (
                spec_field_key((#[trigger] props[i]).0@),
                spec_field_line(props[i].0@, prim_of_schema(props[i].1.schema)->Some_0),
                ),
    decreases props.len(),
{
    let r = crate::emit::spec_collect_fields(props, acc);
    if props.len() == 0 {
    } else {
        let ty = prim_of_schema(props[0].1.schema)->Some_0;
        let k0 = spec_field_key(props[0].0@);
        let v0 = spec_field_line(props[0].0@, ty);
        let step = spec_insert(acc, k0, v0);
        assert forall|j: int| 0 <= j < acc.len() implies (#[trigger] acc[j]).0 != k0 by {
            assert(spec_field_key(props[0].0@) != acc[j].0);
        }
        lemma_insert_new_key(acc, k0, v0);
        lemma_insert_step_entries(acc, k0, v0, step);
        let rest = props.drop_first();
        assert forall|i: int|
            0 <= i < rest.len() implies prim_of_schema((#[trigger] rest[i]).1.schema) is Some by {
            assert(rest[i] == props[i + 1]);
        }
        assert forall|i: int, j: int|
            0 <= i < j < rest.len() implies (#[trigger] rest[i]).0@ != (#[trigger] rest[j]).0@ by {
            assert(rest[i] == props[i + 1] && rest[j] == props[j + 1]);
        }
        assert forall|i: int, j: int|
            0 <= i < rest.len() && 0 <= j < step.len() implies spec_field_key(
            (#[trigger] rest[i]).0@,
        ) != (#[trigger] step[j]).0 by {
            assert(rest[i] == props[i + 1]);
            if step[j].0 == k0 {
                assert(props[0].0@ != props[i + 1].0@);
                lemma_field_key_injective(props[0].0@, props[i + 1].0@);
            } else {
                let l = choose|l: int| 0 <= l < acc.len() && #[trigger] acc[l] == step[j];
                assert(spec_field_key(props[i + 1].0@) != acc[l].0);
            }
        }
        lemma_object_fields_exact(rest, step);
        assert forall|i: int| 0 <= i < props.len() implies exists|j: int|
            0 <= j < r.len() && #[trigger] r[j] == (spec_field_key((#[trigger] props[i]).0@),
        spec_field_line(props[i].0@, prim_of_schema(props[i].1.schema)->Some_0)) by {
            if i == 0 {
                let j0 = choose|j: int| 0 <= j < step.len() && #[trigger] step[j] == (k0, v0);
                lemma_collect_preserves_entries(rest, step, j0);
            } else {
                assert(rest[i - 1] == props[i]);
            }
        }
    }
}

/// Every entry of `spec_insert`'s result whose key is not the inserted one
/// came from the base map; the inserted pair is present.
pub proof fn lemma_insert_step_entries(
    s: Seq<(Seq<char>, Seq<char>)>,
    k: Seq<char>,
    v: Seq<char>,
    r: Seq<(Seq<char>, Seq<char>)>,
)
    requires
        r == spec_insert(s, k, v),
        forall|i: int| 0 <= i < s.len() ==> (#[trigger] s[i]).0 != k,
    ensures
        forall|j: int|
            0 <= j < r.len() ==> (#[trigger] r[j]) == (k, v) || exists|l: int|
                0 <= l < s.len() && #[trigger] s[l] == r[j],
    decreases s.len(),
{
    if s.len() == 0 {
    } else if lex_lt(k, s[0].0) {
        assert forall|j: int| 0 <= j < r.len() implies (#[trigger] r[j]) == (k, v) || exists|l: int|
            0 <= l < s.len() && #[trigger] s[l] == r[j] by {
            if j > 0 {
                assert(s[j - 1] == r[j]);
            }
        }
    } else if k == s[0].0 {
        assert(s[0].0 != k);
    } else {
        assert forall|i: int|
            0 <= i < s.drop_first().len() implies (#[trigger] s.drop_first()[i]).0 != k by {
            assert(s.drop_first()[i] == s[i + 1]);
        }
        lemma_insert_step_entries(s.drop_first(), k, v, spec_insert(s.drop_first(), k, v));
        let rr = spec_insert(s.drop_first(), k, v);
        assert forall|j: int| 0 <= j < r.len() implies (#[trigger] r[j]) == (k, v) || exists|l: int|
            0 <= l < s.len() && #[trigger] s[l] == r[j] by {
            if j == 0 {
                assert(s[0] == r[0]);
            } else {
                assert(r[j] == rr[j - 1]);
                if rr[j - 1] == (k, v) {
                } else {
                    let l = choose|l: int|
                        0 <= l < s.drop_first().len() && #[trigger] s.drop_first()[l] == rr[j - 1];
                    assert(s[l + 1] == rr[j - 1]);
                }
            }
        }
    }
}

/// Folding further properties into a field map never drops an entry whose key
/// is none of their field keys.
pub proof fn lemma_collect_preserves_entries(
    props: Seq<(String, DefinitionProperty)>,
    acc: Seq<(Seq<char>, Seq<char>)>,
    j: int,
)
    requires
        0 <= j < acc.len(),
        forall|i: int| 0 <= i < props.len() ==> prim_of_schema((#[trigger] props[i]).1.schema) is Some,
        forall|i: int|
            0 <= i < props.len() ==> spec_field_key((#[trigger] props[i]).0@) != acc[j].0,
        forall|i: int, l: int|
            0 <= i < props.len() && 0 <= l < acc.len() ==> spec_field_key(
                (#[trigger] props[i]).0@,
            ) != (#[trigger] acc[l]).0,
        forall|i: int, l: int|
            0 <= i < l < props.len() ==> (#[trigger] props[i]).0@ != (#[trigger] props[l]).0@,
    ensures
        exists|m: int|
            0 <= m < crate::emit::spec_collect_fields(props, acc).len()
                && #[trigger] crate::emit::spec_collect_fields(props, acc)[m] == acc[j],
    decreases props.len(),
{
    if props.len() == 0 {
        assert(crate::emit::spec_collect_fields(props, acc)[j] == acc[j]);
    } else {
        let ty = prim_of_schema(props[0].1.schema)->Some_0;
        let k0 = spec_field_key(props[0].0@);
        let v0 = spec_field_line(props[0].0@, ty);
        let step = spec_insert(acc, k0, v0);
        lemma_insert_new_key(acc, k0, v0);
        let m0 = choose|m: int| 0 <= m < step.len() && #[trigger] step[m] == acc[j];
        lemma_insert_step_entries(acc, k0, v0, step);
        let rest = props.drop_first();
        assert forall|i: int|
            0 <= i < rest.len() implies prim_of_schema((#[trigger] rest[i]).1.schema) is Some by {
            assert(rest[i] == props[i + 1]);
        }
        assert forall|i: int|
            0 <= i < rest.len() implies spec_field_key((#[trigger] rest[i]).0@) != step[m0].0 by {
            assert(rest[i] == props[i + 1]);
            assert(spec_field_key(props[i + 1].0@) != acc[j].0);
        }
        assert forall|i: int, l: int|
            0 <= i < rest.len() && 0 <= l < step.len() implies spec_field_key(
            (#[trigger] rest[i]).0@,
        ) != (#[trigger] step[l]).0 by {
            assert(rest[i] == props[i + 1]);
            if step[l] == (k0, v0) {
                assert(props[0].0@ != props[i + 1].0@);
                lemma_field_key_injective(props[0].0@, props[i + 1].0@);
            } else {
                let l2 = choose|l2: int| 0 <= l2 < acc.len() && #[trigger] acc[l2] == step[l];
                assert(spec_field_key(props[i + 1].0@) != acc[l2].0);
            }
        }
        assert forall|i: int, l: int|
            0 <= i < l < rest.len() implies (#[trigger] rest[i]).0@ != (#[trigger] rest[l]).0@ by {
            assert(rest[i] == props[i + 1] && rest[l] == props[l + 1]);
        }
        lemma_collect_preserves_entries(rest, step, m0);
        assert(crate::emit::spec_collect_fields(props, acc) == crate::emit::spec_collect_fields(
            rest,
            step,
        ));
    }
}

/// Two parameters whose sanitized names differ get two distinct declarations,
/// whatever their underlying primitive types: the declared type names differ,
/// so values of the two cannot be mixed up.
pub proof fn lemma_distinct_parameter_declarations(
    n1: Seq<char>,
    n2: Seq<char>,
    t1: Seq<char>,
    t2: Seq<char>,
)
    requires
        spec_type_ident(n1) != spec_type_ident(n2),
    ensures
        spec_simple_decl(n1, t1) != spec_simple_decl(n2, t2),
{
    let p = "pub struct "@;
    let open = "("@;
    let ia = spec_type_ident(n1);
    let ib = spec_type_ident(n2);
    let da = spec_simple_decl(n1, t1);
    let db = spec_simple_decl(n2, t2);
    lemma_type_ident_legal(n1);
    lemma_type_ident_legal(n2);
    reveal_strlit("pub struct ");
    reveal_strlit("(");
    if da == db {
        assert(forall|i: int| 0 <= i < ia.len() ==> da[p.len() + i] == ia[i]);
        assert(forall|i: int| 0 <= i < ib.len() ==> db[p.len() + i] == ib[i]);
        assert(da[p.len() + ia.len() as int] == '(');
        assert(db[p.len() + ib.len() as int] == '(');
        if ia.len() < ib.len() {
            assert(ib[ia.len() as int] == da[p.len() + ia.len() as int]);
            assert(is_ident_char(ib[ia.len() as int]));
            assert(!is_ident_char('('));
        } else if ib.len() < ia.len() {
            assert(ia[ib.len() as int] == db[p.len() + ib.len() as int]);
            assert(is_ident_char(ia[ib.len() as int]));
            assert(!is_ident_char('('));
        } else {
            assert forall|i: int| 0 <= i < ia.len() implies ia[i] == ib[i] by {
                assert(da[p.len() + i] == ia[i]);
                assert(db[p.len() + i] == ib[i]);
            }
            assert(ia =~= ib);
        }
    }
}

/// The manifest's entries stand in strictly ascending key order, whatever
/// modules were written: a sorted insertion is used for every registration.
pub proof fn lemma_manifest_sorted(ws: Seq<(Seq<char>, Seq<char>)>)
    ensures
        sorted_keys(spec_manifest_entries(ws)),
    decreases ws.len(),
{
    if ws.len() > 0 {
        lemma_manifest_sorted(ws.drop_last());
        lemma_insert_sorted(
            spec_manifest_entries(ws.drop_last()),
            ws.last().0,
            crate::generator::spec_mod_line(ws.last().1),
        );
    }
}


/// The primitive spelling an eligible parameter's property type maps to.
pub open spec fn spec_param_prim(t: SchemaType) -> Seq<char> {
    match t {
        SchemaType::String => "String"@,
        SchemaType::Integer => "i32"@,
        SchemaType::Number => "f32"@,
        _ => Seq::empty(),
    }
}

/// The declaration-map entry an eligible parameter contributes: the sanitized
/// type name, and the single-field wrapper over the mapped primitive.
pub open spec fn spec_param_entry(name: Seq<char>, t: SchemaType) -> (Seq<char>, Seq<char>) {
    (spec_type_ident(name), spec_simple_decl(name, spec_param_prim(t)))
}

/// Folding further parameters into a declaration map never drops an entry
/// whose key is none of their sanitized names.
pub proof fn lemma_params_preserves_entries(
    params: Seq<(String, Parameter)>,
    acc: Seq<(Seq<char>, Seq<char>)>,
    j: int,
)
    requires
        0 <= j < acc.len(),
        forall|i: int|
            0 <= i < params.len() && parameter_eligible((#[trigger] params[i]).1)
                ==> spec_type_ident(params[i].0@) != acc[j].0,
        forall|i: int, l: int|
            0 <= i < params.len() && parameter_eligible((#[trigger] params[i]).1) && 0 <= l
                < acc.len() ==> spec_type_ident(params[i].0@) != (#[trigger] acc[l]).0,
        forall|i: int, l: int|
            0 <= i < l < params.len() && parameter_eligible((#[trigger] params[i]).1)
                && parameter_eligible((#[trigger] params[l]).1) ==> spec_type_ident(params[i].0@)
                != spec_type_ident(params[l].0@),
    ensures
        exists|m: int|
            0 <= m < spec_collect_params(params, acc).len() && #[trigger] spec_collect_params(
                params,
                acc,
            )[m] == acc[j],
    decreases params.len(),
{
    if params.len() == 0 {
        assert(spec_collect_params(params, acc)[j] == acc[j]);
    } else {
        let rest = params.drop_first();
        assert(forall|i: int| 0 <= i < rest.len() ==> (#[trigger] rest[i]) == params[i + 1]);
        if parameter_eligible(params[0].1) {
            let k0 = spec_type_ident(params[0].0@);
            let v0 = spec_simple_decl(params[0].0@, spec_param_prim(params[0].1.type_id->Some_0));
            let step = spec_insert(acc, k0, v0);
            assert(spec_collect_params(params, acc) == spec_collect_params(rest, step));
            assert forall|l: int| 0 <= l < acc.len() implies (#[trigger] acc[l]).0 != k0 by {
                assert(spec_type_ident(params[0].0@) != acc[l].0);
            }
            lemma_insert_new_key(acc, k0, v0);
            let m0 = choose|m: int| 0 <= m < step.len() && #[trigger] step[m] == acc[j];
            lemma_insert_step_entries(acc, k0, v0, step);
            assert forall|i: int|
                0 <= i < rest.len() && parameter_eligible((#[trigger] rest[i]).1) implies
                spec_type_ident(rest[i].0@) != step[m0].0 by {
                assert(rest[i] == params[i + 1]);
                assert(spec_type_ident(params[i + 1].0@) != acc[j].0);
            }
            assert forall|i: int, l: int|
                0 <= i < rest.len() && parameter_eligible((#[trigger] rest[i]).1) && 0 <= l
                < step.len() implies spec_type_ident(rest[i].0@) != (#[trigger] step[l]).0 by {
                assert(rest[i] == params[i + 1]);
                if step[l] == (k0, v0) {
                    assert(spec_type_ident(params[0].0@) != spec_type_ident(params[i + 1].0@));
                } else {
                    let l2 = choose|l2: int| 0 <= l2 < acc.len() && #[trigger] acc[l2] == step[l];
                    assert(spec_type_ident(params[i + 1].0@) != acc[l2].0);
                }
            }
            lemma_params_preserves_entries(rest, step, m0);
        } else {
            assert(spec_collect_params(params, acc) == spec_collect_params(rest, acc));
            lemma_params_preserves_entries(rest, acc, j);
        }
    }
}

/// For a parameter map whose eligible entries carry pairwise distinct
/// sanitized names, the declaration map holds one single-field wrapper per
/// eligible parameter: the sanitized type name over the mapped primitive.
pub proof fn lemma_parameter_wrappers_exact(
    params: Seq<(String, Parameter)>,
    acc: Seq<(Seq<char>, Seq<char>)>,
)
    requires
        forall|i: int, l: int|
            0 <= i < l < params.len() && parameter_eligible((#[trigger] params[i]).1)
                && parameter_eligible((#[trigger] params[l]).1) ==> spec_type_ident(params[i].0@)
                != spec_type_ident(params[l].0@),
        forall|i: int, l: int|
            0 <= i < params.len() && parameter_eligible((#[trigger] params[i]).1) && 0 <= l
                < acc.len() ==> spec_type_ident(params[i].0@) != (#[trigger] acc[l]).0,
    ensures
        forall|i: int|
            0 <= i < params.len() && parameter_eligible((#[trigger] params[i]).1) ==> exists|m: int|
                0 <= m < spec_collect_params(params, acc).len() && #[trigger] spec_collect_params(
                    params,
                    acc,
                )[m] == spec_param_entry(params[i].0@, params[i].1.type_id->Some_0),
    decreases params.len(),
{
    let r = spec_collect_params(params, acc);
    if params.len() == 0 {
    } else {
        let rest = params.drop_first();
        assert(forall|i: int| 0 <= i < rest.len() ==> (#[trigger] rest[i]) == params[i + 1]);
        if parameter_eligible(params[0].1) {
            let k0 = spec_type_ident(params[0].0@);
            let v0 = spec_simple_decl(params[0].0@, spec_param_prim(params[0].1.type_id->Some_0));
            let step = spec_insert(acc, k0, v0);
            assert(r == spec_collect_params(rest, step));
            assert forall|l: int| 0 <= l < acc.len() implies (#[trigger] acc[l]).0 != k0 by {
                assert(spec_type_ident(params[0].0@) != acc[l].0);
            }
            lemma_insert_new_key(acc, k0, v0);
            lemma_insert_step_entries(acc, k0, v0, step);
            assert forall|i: int, l: int|
                0 <= i < rest.len() && parameter_eligible((#[trigger] rest[i]).1) && 0 <= l
                < step.len() implies spec_type_ident(rest[i].0@) != (#[trigger] step[l]).0 by {
                assert(rest[i] == params[i + 1]);
                if step[l] == (k0, v0) {
                    assert(spec_type_ident(params[0].0@) != spec_type_ident(params[i + 1].0@));
                } else {
                    let l2 = choose|l2: int| 0 <= l2 < acc.len() && #[trigger] acc[l2] == step[l];
                    assert(spec_type_ident(params[i + 1].0@) != acc[l2].0);
                }
            }
            lemma_parameter_wrappers_exact(rest, step);
            assert forall|i: int|
                0 <= i < params.len() && parameter_eligible((#[trigger] params[i]).1) implies exists|
                m: int,
            |
                0 <= m < r.len() && #[trigger] r[m] == spec_param_entry(
                    params[i].0@,
                    params[i].1.type_id->Some_0,
                ) by {
                if i == 0 {
                    let j0 = choose|m: int| 0 <= m < step.len() && #[trigger] step[m] == (k0, v0);
                    assert forall|ii: int|
                        0 <= ii < rest.len() && parameter_eligible((#[trigger] rest[ii]).1) implies
                        spec_type_ident(rest[ii].0@) != step[j0].0 by {
                        assert(rest[ii] == params[ii + 1]);
                    }
                    lemma_params_preserves_entries(rest, step, j0);
                } else {
                    assert(rest[i - 1] == params[i]);
                }
            }
        } else {
            assert(r == spec_collect_params(rest, acc));
            lemma_parameter_wrappers_exact(rest, acc);
            assert forall|i: int|
                0 <= i < params.len() && parameter_eligible((#[trigger] params[i]).1) implies exists|
                m: int,
            |
                0 <= m < r.len() && #[trigger] r[m] == spec_param_entry(
                    params[i].0@,
                    params[i].1.type_id->Some_0,
                ) by {
                assert(i > 0);
                assert(rest[i - 1] == params[i]);
            }
        }
    }
}

/// Two eligible parameters whose sanitized names differ stand in the
/// declaration map as two separate entries whose wrapper declarations differ:
/// distinct, non-interchangeable type names over the shared primitive.
pub proof fn lemma_distinct_parameter_wrappers(
    params: Seq<(String, Parameter)>,
    acc: Seq<(Seq<char>, Seq<char>)>,
    i: int,
    j: int,
)
    requires
        forall|a: int, b: int|
            0 <= a < b < params.len() && parameter_eligible((#[trigger] params[a]).1)
                && parameter_eligible((#[trigger] params[b]).1) ==> spec_type_ident(params[a].0@)
                != spec_type_ident(params[b].0@),
        forall|a: int, l: int|
            0 <= a < params.len() && parameter_eligible((#[trigger] params[a]).1) && 0 <= l
                < acc.len() ==> spec_type_ident(params[a].0@) != (#[trigger] acc[l]).0,
        0 <= i < params.len(),
        0 <= j < params.len(),
        i != j,
        parameter_eligible(params[i].1),
        parameter_eligible(params[j].1),
    ensures
        exists|m1: int, m2: int|
            {
                &&& 0 <= m1 < spec_collect_params(params, acc).len()
                &&& 0 <= m2 < spec_collect_params(params, acc).len()
                &&& m1 != m2
                &&& #[trigger] spec_collect_params(params, acc)[m1] == spec_param_entry(
                    params[i].0@,
                    params[i].1.type_id->Some_0,
                )
                &&& #[trigger] spec_collect_params(params, acc)[m2] == spec_param_entry(
                    params[j].0@,
                    params[j].1.type_id->Some_0,
                )
                &&& spec_collect_params(params, acc)[m1].1 != spec_collect_params(params, acc)[m2].1
            },
{
    let r = spec_collect_params(params, acc);
    lemma_parameter_wrappers_exact(params, acc);
    let m1 = choose|m: int|
        0 <= m < r.len() && #[trigger] r[m] == spec_param_entry(
            params[i].0@,
            params[i].1.type_id->Some_0,
        );
    let m2 = choose|m: int|
        0 <= m < r.len() && #[trigger] r[m] == spec_param_entry(
            params[j].0@,
            params[j].1.type_id->Some_0,
        );
    if i < j {
        assert(spec_type_ident(params[i].0@) != spec_type_ident(params[j].0@));
    } else {
        assert(spec_type_ident(params[j].0@) != spec_type_ident(params[i].0@));
    }
    lemma_distinct_parameter_declarations(
        params[i].0@,
        params[j].0@,
        spec_param_prim(params[i].1.type_id->Some_0),
        spec_param_prim(params[j].1.type_id->Some_0),
    );
    assert(r[m1].0 != r[m2].0);
    assert(m1 != m2);
    assert(r[m1].1 != r[m2].1);
}

} // verus!
