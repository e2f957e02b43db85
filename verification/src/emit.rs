use vstd::prelude::*;
use vstd::string::*;

use crate::models::SchemaType;
use crate::sanitize::{format_name_as_valid_struct_identifier, spec_type_ident};
use crate::schema::{DefinitionProperty, DefinitionType};
use crate::strutil::{lemma_lex_trichotomy, lex_lt, str_eq, str_lt};

verus! {

/// The target-language spelling of a primitive schema type; `None` for the
/// structural shapes, which have no primitive spelling.
pub open spec fn spec_type_string(t: SchemaType) -> Option<Seq<char>> {
    match t {
        SchemaType::String => Some("String"@),
        SchemaType::Number => Some("f32"@),
        SchemaType::Integer => Some("i32"@),
        SchemaType::Boolean => Some("bool"@),
        _ => None,
    }
}

impl SchemaType {
    /// The explicit, total primitive mapping table over string, number,
    /// integer and boolean; the structural shapes map to nothing.
    pub fn get_type_as_string(&self) -> (r: Option<&'static str>)
        ensures
            match r {
                Some(s) => spec_type_string(*self) == Some(s@),
                None => spec_type_string(*self) is None,
            },
    {
        match self {
            SchemaType::String => Some("String"),
            SchemaType::Number => Some("f32"),
            SchemaType::Integer => Some("i32"),
            SchemaType::Boolean => Some("bool"),
            _ => None,
        }
    }
}

/// The primitive spelling of a schema shape, where the shape is primitive.
pub open spec fn prim_of_schema(s: DefinitionType) -> Option<Seq<char>> {
    match s {
        DefinitionType::String { .. } => Some("String"@),
        DefinitionType::Number { .. } => Some("f32"@),
        DefinitionType::Integer { .. } => Some("i32"@),
        DefinitionType::Boolean { .. } => Some("bool"@),
        _ => None,
    }
}

/// The single-field wrapper declaration for a primitive-typed parameter:
/// a distinct named type around the mapped primitive, so that two parameters
/// sharing a primitive cannot be mixed up at call sites.
pub open spec fn spec_simple_decl(name: Seq<char>, ty: Seq<char>) -> Seq<char> {
    "pub struct "@ + spec_type_ident(name) + "("@ + ty + ");"@
}

/// Emits the single-field wrapper declaration for a parameter.
pub fn create_struct_simple_type(name: &String, struct_type: String) -> (r: String)
    ensures
        r@ == spec_simple_decl(name@, struct_type@),
{
    let formatted_name = format_name_as_valid_struct_identifier(name.as_str());
    let mut out = String::from_str("pub struct ");
    out.append(formatted_name.as_str());
    out.append("(");
    out.append(struct_type.as_str());
    out.append(");");
    out
}

/// The sort key of an emitted field: the sanitized property name, a space,
/// then the raw property name. The space stands below every identifier
/// character, so fields order primarily by sanitized name, ties break by the
/// raw name, and two properties with distinct raw names never share a key:
/// no declared field is ever dropped.
pub open spec fn spec_field_key(name: Seq<char>) -> Seq<char> {
    spec_type_ident(name) + " "@ + name
}

/// Builds the sort key of an emitted field.
pub fn field_key(name: &str) -> (r: String)
    ensures
        r@ == spec_field_key(name@),
{
    let mut k = format_name_as_valid_struct_identifier(name);
    k.append(" ");
    k.append(name);
    k
}

/// One emitted struct field line.
pub open spec fn spec_field_line(name: Seq<char>, ty: Seq<char>) -> Seq<char> {
    "    pub "@ + name + ": "@ + ty + ",\n"@
}

/// The emitted field lines of a key-sorted field list, in order: the second
/// component of each entry is the rendered line.
pub open spec fn spec_fields_text(entries: Seq<(Seq<char>, Seq<char>)>) -> Seq<char>
    decreases entries.len(),
{
    if entries.len() == 0 {
        Seq::empty()
    } else {
        entries[0].1 + spec_fields_text(entries.drop_first())
    }
}

/// The struct declaration for an object definition over the given fields.
pub open spec fn spec_struct_decl(name: Seq<char>, entries: Seq<(Seq<char>, Seq<char>)>) -> Seq<
    char,
> {
    "pub struct "@ + spec_type_ident(name) + " {\n"@ + spec_fields_text(entries) + "}"@
}

/// The view of a name-to-text association list.
pub open spec fn map_view(m: Seq<(String, String)>) -> Seq<(Seq<char>, Seq<char>)> {
    m.map_values(|p: (String, String)| (p.0@, p.1@))
}

/// Keys strictly ascend: the list is sorted and holds each key once.
pub open spec fn sorted_keys(s: Seq<(Seq<char>, Seq<char>)>) -> bool {
    forall|i: int, j: int| 0 <= i < j < s.len() ==> lex_lt(s[i].0, s[j].0)
}

/// Insertion into a key-sorted association list: a new key finds its place,
/// an existing key has its text replaced.
pub open spec fn spec_insert(
    s: Seq<(Seq<char>, Seq<char>)>,
    k: Seq<char>,
    v: Seq<char>,
) -> Seq<(Seq<char>, Seq<char>)>
    decreases s.len(),
{
    if s.len() == 0 {
        seq![(k, v)]
    } else if lex_lt(k, s[0].0) {
        seq![(k, v)] + s
    } else if k == s[0].0 {
        seq![(k, v)] + s.drop_first()
    } else {
        seq![s[0]] + spec_insert(s.drop_first(), k, v)
    }
}

/// Insertion keeps the keys sorted.
pub proof fn lemma_insert_sorted(s: Seq<(Seq<char>, Seq<char>)>, k: Seq<char>, v: Seq<char>)
    requires
        sorted_keys(s),
    ensures
        sorted_keys(spec_insert(s, k, v)),
        spec_insert(s, k, v).len() <= s.len() + 1,
        forall|i: int|
            0 <= i < spec_insert(s, k, v).len() ==> (#[trigger] spec_insert(s, k, v)[i]).0 == k
                || exists|l: int| 0 <= l < s.len() && s[l] == spec_insert(s, k, v)[i],
    decreases s.len(),
{
    let r = spec_insert(s, k, v);
    if s.len() == 0 {
    } else if lex_lt(k, s[0].0) {
        assert forall|i: int, j: int| 0 <= i < j < r.len() implies lex_lt(r[i].0, r[j].0) by {
            if i == 0 {
                if j == 1 {
                } else {
                    lemma_lex_trichotomy(k, s[0].0);
                    lemma_lex_lt_trans(k, s[0].0, s[j - 1].0);
                }
            } else {
                assert(r[i] == s[i - 1] && r[j] == s[j - 1]);
            }
        }
        assert forall|i: int| 0 <= i < r.len() implies (#[trigger] r[i]).0 == k || exists|l: int|
            0 <= l < s.len() && s[l] == r[i] by {
            if i > 0 {
                assert(s[i - 1] == r[i]);
            }
        }
    } else if k == s[0].0 {
        assert forall|i: int, j: int| 0 <= i < j < r.len() implies lex_lt(r[i].0, r[j].0) by {
            if i == 0 {
                assert(r[j] == s.drop_first()[j - 1]);
                assert(s.drop_first()[j - 1] == s[j]);
                assert(lex_lt(s[0].0, s[j].0));
            } else {
                assert(r[i] == s[i] && r[j] == s[j]);
            }
        }
        assert forall|i: int| 0 <= i < r.len() implies (#[trigger] r[i]).0 == k || exists|l: int|
            0 <= l < s.len() && s[l] == r[i] by {
            if i > 0 {
                assert(s[i] == r[i]);
            }
        }
    } else {
        lemma_lex_trichotomy(k, s[0].0);
        assert(lex_lt(s[0].0, k));
        assert(sorted_keys(s.drop_first())) by {
            assert forall|i: int, j: int|
                0 <= i < j < s.drop_first().len() implies lex_lt(
                s.drop_first()[i].0,
                s.drop_first()[j].0,
            ) by {
                assert(s.drop_first()[i] == s[i + 1] && s.drop_first()[j] == s[j + 1]);
            }
        }
        lemma_insert_sorted(s.drop_first(), k, v);
        let rr = spec_insert(s.drop_first(), k, v);
        assert forall|i: int, j: int| 0 <= i < j < r.len() implies lex_lt(r[i].0, r[j].0) by {
            if i == 0 {
                assert(r[j] == rr[j - 1]);
                if rr[j - 1].0 == k {
                } else {
                    let l = choose|l: int|
                        0 <= l < s.drop_first().len() && s.drop_first()[l] == rr[j - 1];
                    assert(s.drop_first()[l] == s[l + 1]);
                    assert(lex_lt(s[0].0, s[l + 1].0));
                }
            } else {
                assert(r[i] == rr[i - 1] && r[j] == rr[j - 1]);
            }
        }
        assert forall|i: int| 0 <= i < r.len() implies (#[trigger] r[i]).0 == k || exists|l: int|
            0 <= l < s.len() && s[l] == r[i] by {
            if i == 0 {
                assert(s[0] == r[0]);
            } else {
                assert(r[i] == rr[i - 1]);
                if rr[i - 1].0 != k {
                    let l = choose|l: int|
                        0 <= l < s.drop_first().len() && s.drop_first()[l] == rr[i - 1];
                    assert(s[l + 1] == rr[i - 1]);
                }
            }
        }
    }
}

/// Strict lexicographic order carries over.
pub proof fn lemma_lex_lt_trans(a: Seq<char>, b: Seq<char>, c: Seq<char>)
    requires
        lex_lt(a, b),
        lex_lt(b, c),
    ensures
        lex_lt(a, c),
    decreases a.len() + b.len() + c.len(),
{
    if c.len() == 0 {
    } else if b.len() == 0 {
    } else if a.len() == 0 {
    } else {
        if (a[0] as u32) < (b[0] as u32) {
            if (b[0] as u32) <= (c[0] as u32) {
            } else {
                assert(!lex_lt(b, c));
            }
        } else if (a[0] as u32) > (b[0] as u32) {
            assert(!lex_lt(a, b));
        } else {
            if (b[0] as u32) < (c[0] as u32) {
            } else if (b[0] as u32) > (c[0] as u32) {
                assert(!lex_lt(b, c));
            } else {
                lemma_lex_lt_trans(a.drop_first(), b.drop_first(), c.drop_first());
            }
        }
    }
}

/// When the first elements of a key-sorted list all sit strictly before `k`,
/// insertion keeps that prefix in place.
pub proof fn lemma_insert_skip(s: Seq<(Seq<char>, Seq<char>)>, k: Seq<char>, v: Seq<char>, i: int)
    requires
        0 <= i <= s.len(),
        forall|l: int| 0 <= l < i ==> lex_lt((#[trigger] s[l]).0, k),
    ensures
        spec_insert(s, k, v) == s.take(i) + spec_insert(s.skip(i), k, v),
    decreases i,
{
    if i == 0 {
        assert(s.take(0) =~= Seq::empty());
        assert(s.skip(0) =~= s);
        assert(spec_insert(s, k, v) =~= s.take(0) + spec_insert(s.skip(0), k, v));
    } else {
        assert(lex_lt(s[0].0, k));
        lemma_lex_trichotomy(k, s[0].0);
        assert(spec_insert(s, k, v) == seq![s[0]] + spec_insert(s.drop_first(), k, v));
        assert forall|l: int| 0 <= l < i - 1 implies lex_lt((#[trigger] s.drop_first()[l]).0, k) by {
            assert(s.drop_first()[l] == s[l + 1]);
        }
        lemma_insert_skip(s.drop_first(), k, v, i - 1);
        assert(s.drop_first().take(i - 1) =~= s.take(i).drop_first());
        assert(s.drop_first().skip(i - 1) =~= s.skip(i));
        assert(seq![s[0]] + (s.drop_first().take(i - 1) + spec_insert(s.drop_first().skip(i - 1), k, v))
            =~= s.take(i) + spec_insert(s.skip(i), k, v));
    }
}

/// Inserts a declaration into a key-sorted association list: a new key finds
/// its place, an existing key has its text replaced.
pub fn insert_sorted(m: Vec<(String, String)>, k: String, v: String) -> (r: Vec<(String, String)>)
    ensures
        map_view(r@) == spec_insert(map_view(m@), k@, v@),
{
    let ghost mv = map_view(m@);
    let mut i: usize = 0;
    while i < m.len()
        invariant
            i <= m@.len(),
            mv == map_view(m@),
            mv.len() == m@.len(),
            forall|l: int| 0 <= l < m@.len() ==> (#[trigger] mv[l]) == (m@[l].0@, m@[l].1@),
            forall|l: int| 0 <= l < i ==> lex_lt((#[trigger] mv[l]).0, k@),
        decreases m@.len() - i,
    {
        if !str_lt(m[i].0.as_str(), k.as_str()) {
            proof {
                lemma_insert_skip(mv, k@, v@, i as int);
            }
            if str_eq(m[i].0.as_str(), k.as_str()) {
                let mut r = m;
                let _old = r.remove(i);
                r.insert(i, (k, v));
                proof {
                    assert(mv.skip(i as int)[0] == mv[i as int]);
                    assert(spec_insert(mv.skip(i as int), k@, v@) =~= seq![(k@, v@)] + mv.skip(
                        i as int,
                    ).drop_first());
                    assert(mv.skip(i as int).drop_first() =~= mv.skip(i + 1));
                    assert(map_view(r@) =~= mv.take(i as int) + (seq![(k@, v@)] + mv.skip(i + 1)));
                    assert(map_view(r@) =~= spec_insert(mv, k@, v@));
                }
                return r;
            } else {
                let mut r = m;
                r.insert(i, (k, v));
                proof {
                    assert(mv.skip(i as int)[0] == mv[i as int]);
                    lemma_lex_trichotomy(k@, mv[i as int].0);
                    assert(lex_lt(k@, mv.skip(i as int)[0].0));
                    assert(spec_insert(mv.skip(i as int), k@, v@) =~= seq![(k@, v@)] + mv.skip(
                        i as int,
                    ));
                    assert(map_view(r@) =~= mv.take(i as int) + (seq![(k@, v@)] + mv.skip(
                        i as int,
                    )));
                    assert(map_view(r@) =~= spec_insert(mv, k@, v@));
                }
                return r;
            }
        }
        i += 1;
    }
    proof {
        lemma_insert_skip(mv, k@, v@, mv.len() as int);
        assert(mv.skip(mv.len() as int).len() == 0);
        assert(spec_insert(mv.skip(mv.len() as int), k@, v@) =~= seq![(k@, v@)]);
        assert(mv.take(mv.len() as int) =~= mv);
    }
    let mut r = m;
    r.push((k, v));
    proof {
        assert(map_view(r@) =~= mv + seq![(k@, v@)]);
        assert(map_view(r@) =~= spec_insert(mv, k@, v@));
    }
    r
}

/// The eligible fields of an object definition's properties, folded into a
/// field list sorted by sanitized property name, with the raw name breaking
/// ties: a property whose nested schema is primitive contributes its
/// rendered field line; structural properties are out of the current
/// emission scope and contribute nothing.
pub open spec fn spec_collect_fields(
    props: Seq<(String, DefinitionProperty)>,
    acc: Seq<(Seq<char>, Seq<char>)>,
) -> Seq<(Seq<char>, Seq<char>)>
    decreases props.len(),
{
    if props.len() == 0 {
        acc
    } else {
        let step = match prim_of_schema(props[0].1.schema) {
            Some(ty) => spec_insert(
                acc,
                spec_field_key(props[0].0@),
                spec_field_line(props[0].0@, ty),
            ),
            None => acc,
        };
        spec_collect_fields(props.drop_first(), step)
    }
}

/// Emits the struct declaration for an object definition: one field per
/// primitive-typed property, sorted by the sanitized property name.
pub fn create_struct(name: &String, properties: &Vec<(String, DefinitionProperty)>) -> (r: String)
    ensures
        r@ == spec_struct_decl(name@, spec_collect_fields(properties@, Seq::empty())),
{
    let mut entries: Vec<(String, String)> = Vec::new();
    let mut i: usize = 0;
    proof {
        assert(properties@.skip(0) =~= properties@);
        assert(map_view(entries@) =~= Seq::<(Seq<char>, Seq<char>)>::empty());
    }
    while i < properties.len()
        invariant
            i <= properties@.len(),
            spec_collect_fields(properties@, Seq::empty()) == spec_collect_fields(
                properties@.skip(i as int),
                map_view(entries@),
            ),
        decreases properties@.len() - i,
    {
        proof {
            assert(properties@.skip(i as int)[0] == properties@[i as int]);
            assert(properties@.skip(i as int).drop_first() =~= properties@.skip(i + 1));
        }
        let prim: Option<&'static str> = match &properties[i].1.schema {
            DefinitionType::String { .. } => Some("String"),
            DefinitionType::Number { .. } => Some("f32"),
            DefinitionType::Integer { .. } => Some("i32"),
            DefinitionType::Boolean { .. } => Some("bool"),
            _ => None,
        };
        match prim {
            Some(ty) => {
                let key = field_key(properties[i].0.as_str());
                let mut line = String::from_str("    pub ");
                line.append(properties[i].0.as_str());
                line.append(": ");
                line.append(ty);
                line.append(",\n");
                entries = insert_sorted(entries, key, line);
            },
            None => {},
        }
        i += 1;
    }
    proof {
        assert(properties@.skip(properties@.len() as int).len() == 0);
    }
    let mut body = String::new();
    let mut j: usize = 0;
    let ghost ev = map_view(entries@);
    proof {
        assert(ev.skip(0) =~= ev);
        assert(body@ + spec_fields_text(ev) =~= spec_fields_text(ev));
    }
    while j < entries.len()
        invariant
            j <= entries@.len(),
            ev == map_view(entries@),
            ev.len() == entries@.len(),
            forall|l: int|
                0 <= l < entries@.len() ==> (#[trigger] ev[l]) == (entries@[l].0@, entries@[l].1@),
            spec_fields_text(ev) == body@ + spec_fields_text(ev.skip(j as int)),
        decreases entries@.len() - j,
    {
        proof {
            assert(ev.skip(j as int)[0] == ev[j as int]);
            assert(ev.skip(j as int).drop_first() =~= ev.skip(j + 1));
        }
        body.append(entries[j].1.as_str());
        j += 1;
    }
    proof {
        assert(ev.skip(ev.len() as int).len() == 0);
        assert(body@ == spec_fields_text(ev));
    }
    let formatted_name = format_name_as_valid_struct_identifier(name.as_str());
    let mut out = String::from_str("pub struct ");
    out.append(formatted_name.as_str());
    out.append(" {\n");
    out.append(body.as_str());
    out.append("}");
    out
}

} // verus!
