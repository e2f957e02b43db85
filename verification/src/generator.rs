use vstd::prelude::*;
use vstd::string::*;

use crate::document::{parse_swagger, swagger_rep, swagger_valid};
use crate::emit::{
    create_struct, create_struct_simple_type, insert_sorted, map_view, spec_collect_fields,
    spec_insert, spec_simple_decl, spec_struct_decl,
};
use crate::models::{Parameter, ParseError, SchemaType, Swagger};
use crate::raw::RawValue;
use crate::sanitize::{format_as_file_name, format_name_as_valid_struct_identifier, spec_file_ident,
    spec_type_ident};
use crate::schema::{Definition, DefinitionType};

verus! {

/// One input document: where it came from and its raw tree.
pub struct SpecificationFile {
    pub file_name: String,
    pub domain_name: String,
    pub document: RawValue,
}

/// What one document's run produced: a report of a parse failure, a skip
/// because nothing was eligible, or a generated module. Parsed documents also
/// carry the names of their object-typed parameters, which are recognized but
/// not emitted: an informational skip the caller is expected to log.
pub enum ModuleOutcome {
    Failed { file_name: String, error: ParseError },
    Empty { file_name: String, skipped_parameters: Vec<String> },
    Generated {
        key: String,
        module_name: String,
        content: String,
        skipped_parameters: Vec<String>,
    },
}

/// A whole run's output: the generated files in document order and one
/// outcome per input document. The aggregation file is assembled afterwards,
/// from the modules that were actually written, by `assemble_manifest`.
pub struct GeneratedProject {
    pub files: Vec<(String, String)>,
    pub outcomes: Vec<ModuleOutcome>,
}

/// The declaration a parameter contributes, folded into a key-sorted map:
/// parameters of primitive property type string, integer or number are
/// eligible; all others contribute nothing.
pub open spec fn spec_collect_params(
    params: Seq<(String, Parameter)>,
    acc: Seq<(Seq<char>, Seq<char>)>,
) -> Seq<(Seq<char>, Seq<char>)>
    decreases params.len(),
{
    if params.len() == 0 {
        acc
    } else {
        let step = match params[0].1.type_id {
            Some(SchemaType::String) => spec_insert(
                acc,
                spec_type_ident(params[0].0@),
                spec_simple_decl(params[0].0@, "String"@),
            ),
            Some(SchemaType::Integer) => spec_insert(
                acc,
                spec_type_ident(params[0].0@),
                spec_simple_decl(params[0].0@, "i32"@),
            ),
            Some(SchemaType::Number) => spec_insert(
                acc,
                spec_type_ident(params[0].0@),
                spec_simple_decl(params[0].0@, "f32"@),
            ),
            _ => acc,
        };
        spec_collect_params(params.drop_first(), step)
    }
}

/// The declaration a definition contributes, folded into a key-sorted map:
/// object-shaped definitions yield one struct each; other top-level shapes
/// are out of scope and contribute nothing.
pub open spec fn spec_collect_defs(
    defs: Seq<(String, Definition)>,
    acc: Seq<(Seq<char>, Seq<char>)>,
) -> Seq<(Seq<char>, Seq<char>)>
    decreases defs.len(),
{
    if defs.len() == 0 {
        acc
    } else {
        let step = match defs[0].1.schema {
            DefinitionType::Object { properties, .. } => spec_insert(
                acc,
                spec_type_ident(defs[0].0@),
                spec_struct_decl(defs[0].0@, spec_collect_fields(properties@, Seq::empty())),
            ),
            _ => acc,
        };
        spec_collect_defs(defs.drop_first(), step)
    }
}

/// Every declaration of one parsed document, keyed by sanitized type name:
/// the eligible parameters first, then the eligible definitions.
pub open spec fn spec_doc_decls(sw: Swagger) -> Seq<(Seq<char>, Seq<char>)> {
    let pacc = match sw.parameters {
        Some(ps) => spec_collect_params(ps@, Seq::empty()),
        None => Seq::empty(),
    };
    match sw.definitions {
        Some(ds) => spec_collect_defs(ds@, pacc),
        None => pacc,
    }
}

/// One output file's text: each declaration, in key order, on its own lines.
pub open spec fn spec_decls_text(entries: Seq<(Seq<char>, Seq<char>)>) -> Seq<char>
    decreases entries.len(),
{
    if entries.len() == 0 {
        Seq::empty()
    } else {
        entries[0].1 + "\n"@ + spec_decls_text(entries.drop_first())
    }
}

/// The module-declaration line of one generated file.
pub open spec fn spec_mod_line(module_name: Seq<char>) -> Seq<char> {
    "pub mod "@ + module_name + ";\n"@
}

/// The view of a list of names.
pub open spec fn names_view(v: Seq<String>) -> Seq<Seq<char>> {
    v.map_values(|s: String| s@)
}

/// The names of the object-typed parameters, in document order: recognized,
/// not emitted, and reported as an informational skip.
pub open spec fn spec_skipped_names(params: Seq<(String, Parameter)>) -> Seq<Seq<char>>
    decreases params.len(),
{
    if params.len() == 0 {
        Seq::empty()
    } else {
        (if params[0].1.type_id == Some(SchemaType::Object) {
            seq![params[0].0@]
        } else {
            Seq::<Seq<char>>::empty()
        }) + spec_skipped_names(params.drop_first())
    }
}

/// The skipped parameter names of one parsed document.
pub open spec fn spec_skipped_params(sw: Swagger) -> Seq<Seq<char>> {
    match sw.parameters {
        Some(ps) => spec_skipped_names(ps@),
        None => Seq::empty(),
    }
}

/// How one outcome answers for one input document.
pub open spec fn outcome_matches(file: SpecificationFile, o: ModuleOutcome) -> bool {
    match o {
        ModuleOutcome::Failed { file_name, error } => {
            &&& file_name == file.file_name
            &&& !swagger_valid(file.document)
        },
        ModuleOutcome::Empty { file_name, skipped_parameters } => {
            &&& file_name == file.file_name
            &&& swagger_valid(file.document)
            &&& exists|sw: Swagger|
                #[trigger] swagger_rep(file.document, sw) && spec_doc_decls(sw).len() == 0
                    && names_view(skipped_parameters@) == spec_skipped_params(sw)
        },
        ModuleOutcome::Generated { key, module_name, content, skipped_parameters } => {
            &&& key == file.file_name
            &&& module_name@ == spec_file_ident(file.domain_name@) + "_"@ + spec_file_ident(
                file.file_name@,
            )
            &&& swagger_valid(file.document)
            &&& exists|sw: Swagger|
                #[trigger] swagger_rep(file.document, sw) && spec_doc_decls(sw).len() > 0
                    && content@ == spec_decls_text(spec_doc_decls(sw)) && names_view(
                    skipped_parameters@,
                ) == spec_skipped_params(sw)
        },
    }
}

/// The (module name, content) pairs of the generated outcomes, in order.
pub open spec fn spec_files_of(os: Seq<ModuleOutcome>) -> Seq<(Seq<char>, Seq<char>)>
    decreases os.len(),
{
    if os.len() == 0 {
        Seq::empty()
    } else {
        spec_files_of(os.drop_last()) + (match os.last() {
            ModuleOutcome::Generated { key, module_name, content, skipped_parameters } => seq![
                (module_name@, content@),
            ],
            _ => Seq::empty(),
        })
    }
}

/// The (input file name, module name) pairs of the generated outcomes, in
/// order: what a caller registers when it writes those modules out.
pub open spec fn spec_written_of(os: Seq<ModuleOutcome>) -> Seq<(Seq<char>, Seq<char>)>
    decreases os.len(),
{
    if os.len() == 0 {
        Seq::empty()
    } else {
        spec_written_of(os.drop_last()) + (match os.last() {
            ModuleOutcome::Generated { key, module_name, content, skipped_parameters } => seq![
                (key@, module_name@),
            ],
            _ => Seq::empty(),
        })
    }
}

/// The manifest entries for a list of written modules, given as (input file
/// name, module name) pairs: one module line each, keyed by the input file
/// name, kept in sorted key order.
pub open spec fn spec_manifest_entries(ws: Seq<(Seq<char>, Seq<char>)>) -> Seq<
    (Seq<char>, Seq<char>),
>
    decreases ws.len(),
{
    if ws.len() == 0 {
        Seq::empty()
    } else {
        spec_insert(
            spec_manifest_entries(ws.drop_last()),
            ws.last().0,
            spec_mod_line(ws.last().1),
        )
    }
}

/// The aggregation file's text: the manifest lines in key order.
pub open spec fn spec_manifest_text(entries: Seq<(Seq<char>, Seq<char>)>) -> Seq<char>
    decreases entries.len(),
{
    if entries.len() == 0 {
        Seq::empty()
    } else {
        entries[0].1 + spec_manifest_text(entries.drop_first())
    }
}

/// Lowers parsed documents into target-language declarations and assembles
/// one module per document plus the aggregation file that declares them.
#[derive(Default)]
pub struct RustGenerator {}

impl RustGenerator {
    /// Folds the eligible parameters of one document into a declaration map.
    fn collect_parameters(&self, parameters: &Vec<(String, Parameter)>, acc: Vec<(String, String)>) -> (r:
        Vec<(String, String)>)
        ensures
            map_view(r@) == spec_collect_params(parameters@, map_view(acc@)),
    {
        let ghost acc0 = map_view(acc@);
        let mut data = acc;
        let mut i: usize = 0;
        proof {
            assert(parameters@.skip(0) =~= parameters@);
        }
        while i < parameters.len()
            invariant
                i <= parameters@.len(),
                spec_collect_params(parameters@, acc0) == spec_collect_params(
                    parameters@.skip(i as int),
                    map_view(data@),
                ),
            decreases parameters@.len() - i,
        {
            proof {
                assert(parameters@.skip(i as int)[0] == parameters@[i as int]);
                assert(parameters@.skip(i as int).drop_first() =~= parameters@.skip(i + 1));
            }
            let ty: Option<&'static str> = match &parameters[i].1.type_id {
                Some(SchemaType::String) => Some("String"),
                Some(SchemaType::Integer) => Some("i32"),
                Some(SchemaType::Number) => Some("f32"),
                _ => None,
            };
            match ty {
                Some(t) => {
                    let name = &parameters[i].0;
                    let decl = create_struct_simple_type(name, String::from_str(t));
                    let key = format_name_as_valid_struct_identifier(name.as_str());
                    data = insert_sorted(data, key, decl);
                },
                None => {},
            }
            i += 1;
        }
        proof {
            assert(parameters@.skip(parameters@.len() as int).len() == 0);
        }
        data
    }

    /// Folds the eligible definitions of one document into a declaration map.
    fn collect_definitions(&self, definitions: &Vec<(String, Definition)>, acc: Vec<(String, String)>) -> (r:
        Vec<(String, String)>)
        ensures
            map_view(r@) == spec_collect_defs(definitions@, map_view(acc@)),
    {
        let ghost acc0 = map_view(acc@);
        let mut data = acc;
        let mut i: usize = 0;
        proof {
            assert(definitions@.skip(0) =~= definitions@);
        }
        while i < definitions.len()
            invariant
                i <= definitions@.len(),
                spec_collect_defs(definitions@, acc0) == spec_collect_defs(
                    definitions@.skip(i as int),
                    map_view(data@),
                ),
            decreases definitions@.len() - i,
        {
            proof {
                assert(definitions@.skip(i as int)[0] == definitions@[i as int]);
                assert(definitions@.skip(i as int).drop_first() =~= definitions@.skip(i + 1));
            }
            let is_object = match &definitions[i].1.schema {
                DefinitionType::Object { .. } => true,
                _ => false,
            };
            if is_object {
                match &definitions[i].1.schema {
                    DefinitionType::Object { properties, .. } => {
                        let name = &definitions[i].0;
                        let decl = create_struct(name, properties);
                        let key = format_name_as_valid_struct_identifier(name.as_str());
                        data = insert_sorted(data, key, decl);
                    },
                    _ => {
                        proof {
                            assert(false);
                        }
                    },
                }
            }
            i += 1;
        }
        proof {
            assert(definitions@.skip(definitions@.len() as int).len() == 0);
        }
        data
    }

    /// The declaration map of one document's eligible parameters.
    pub fn generate_parameters(&self, parameters: &Vec<(String, Parameter)>) -> (r: Vec<
        (String, String),
    >)
        ensures
            map_view(r@) == spec_collect_params(parameters@, Seq::empty()),
    {
        let acc: Vec<(String, String)> = Vec::new();
        proof {
            assert(map_view(acc@) =~= Seq::<(Seq<char>, Seq<char>)>::empty());
        }
        self.collect_parameters(parameters, acc)
    }

    /// The declaration map of one document's eligible definitions.
    pub fn generate_definitions(&self, definitions: &Vec<(String, Definition)>) -> (r: Vec<
        (String, String),
    >)
        ensures
            map_view(r@) == spec_collect_defs(definitions@, Seq::empty()),
    {
        let acc: Vec<(String, String)> = Vec::new();
        proof {
            assert(map_view(acc@) =~= Seq::<(Seq<char>, Seq<char>)>::empty());
        }
        self.collect_definitions(definitions, acc)
    }

    /// The names of a document's object-typed parameters, in order: the
    /// informational skips a caller logs.
    pub fn skipped_parameters(&self, parameters: &Vec<(String, Parameter)>) -> (r: Vec<String>)
        ensures
            names_view(r@) == spec_skipped_names(parameters@),
    {
        let mut out: Vec<String> = Vec::new();
        let mut i: usize = 0;
        proof {
            assert(parameters@.skip(0) =~= parameters@);
            assert(names_view(out@) =~= Seq::<Seq<char>>::empty());
            assert(names_view(out@) + spec_skipped_names(parameters@) =~= spec_skipped_names(
                parameters@,
            ));
        }
        while i < parameters.len()
            invariant
                i <= parameters@.len(),
                spec_skipped_names(parameters@) == names_view(out@) + spec_skipped_names(
                    parameters@.skip(i as int),
                ),
            decreases parameters@.len() - i,
        {
            proof {
                assert(parameters@.skip(i as int)[0] == parameters@[i as int]);
                assert(parameters@.skip(i as int).drop_first() =~= parameters@.skip(i + 1));
            }
            let is_object = match &parameters[i].1.type_id {
                Some(SchemaType::Object) => true,
                _ => false,
            };
            if is_object {
                out.push(parameters[i].0.clone());
                proof {
                    assert(names_view(out@) + spec_skipped_names(parameters@.skip(i + 1))
                        =~= spec_skipped_names(parameters@));
                }
            } else {
                proof {
                    assert(names_view(out@) + spec_skipped_names(parameters@.skip(i + 1))
                        =~= spec_skipped_names(parameters@));
                }
            }
            i += 1;
        }
        proof {
            assert(spec_skipped_names(parameters@.skip(parameters@.len() as int))
                =~= Seq::<Seq<char>>::empty());
            assert(names_view(out@) =~= spec_skipped_names(parameters@));
        }
        out
    }

    /// Runs one document: parse, collect, and either report the failure, skip
    /// an empty result, or emit the module.
    pub fn generate_module(&self, file: SpecificationFile) -> (r: ModuleOutcome)
        ensures
            outcome_matches(file, r),
    {
        let SpecificationFile { file_name, domain_name, document } = file;
        match parse_swagger(document) {
            Err(error) => ModuleOutcome::Failed { file_name, error },
            Ok(sw) => {
                let skipped = match &sw.parameters {
                    Some(ps) => self.skipped_parameters(ps),
                    None => Vec::new(),
                };
                proof {
                    assert(names_view(skipped@) == spec_skipped_params(sw)) by {
                        if sw.parameters is None {
                            assert(names_view(skipped@) =~= Seq::<Seq<char>>::empty());
                        }
                    }
                }
                let empty_acc: Vec<(String, String)> = Vec::new();
                proof {
                    assert(map_view(empty_acc@) =~= Seq::<(Seq<char>, Seq<char>)>::empty());
                }
                let data = match &sw.parameters {
                    Some(ps) => self.collect_parameters(ps, empty_acc),
                    None => empty_acc,
                };
                let data = match &sw.definitions {
                    Some(ds) => self.collect_definitions(ds, data),
                    None => data,
                };
                proof {
                    assert(map_view(data@) == spec_doc_decls(sw));
                }
                if data.len() == 0 {
                    proof {
                        assert(swagger_rep(file.document, sw) && spec_doc_decls(sw).len() == 0
                            && names_view(skipped@) == spec_skipped_params(sw));
                    }
                    ModuleOutcome::Empty { file_name, skipped_parameters: skipped }
                } else {
                    let domain_key = format_as_file_name(domain_name.as_str());
                    let file_key = format_as_file_name(file_name.as_str());
                    let mut module_name = domain_key;
                    module_name.append("_");
                    module_name.append(file_key.as_str());
                    let mut content = String::new();
                    let mut j: usize = 0;
                    let ghost dv = map_view(data@);
                    proof {
                        assert(dv.skip(0) =~= dv);
                        assert(content@ + spec_decls_text(dv) =~= spec_decls_text(dv));
                    }
                    while j < data.len()
                        invariant
                            j <= data@.len(),
                            dv == map_view(data@),
                            dv.len() == data@.len(),
                            forall|l: int|
                                0 <= l < data@.len() ==> (#[trigger] dv[l]) == (
                                    data@[l].0@,
                                    data@[l].1@,
                                ),
                            spec_decls_text(dv) == content@ + spec_decls_text(dv.skip(j as int)),
                        decreases data@.len() - j,
                    {
                        proof {
                            assert(dv.skip(j as int)[0] == dv[j as int]);
                            assert(dv.skip(j as int).drop_first() =~= dv.skip(j + 1));
                        }
                        content.append(data[j].1.as_str());
                        content.append("\n");
                        j += 1;
                    }
                    proof {
                        assert(dv.skip(dv.len() as int).len() == 0);
                        assert(content@ == spec_decls_text(spec_doc_decls(sw)));
                        assert(swagger_rep(file.document, sw) && spec_doc_decls(sw).len() > 0
                            && content@ == spec_decls_text(spec_doc_decls(sw)) && names_view(
                            skipped@,
                        ) == spec_skipped_params(sw));
                    }
                    ModuleOutcome::Generated {
                        key: file_name,
                        module_name,
                        content,
                        skipped_parameters: skipped,
                    }
                }
            },
        }
    }

    /// Runs every document in order: per-document modules and one outcome per
    /// document. A document's failure is reported in its outcome and stops
    /// nothing else. The caller writes the files out and then assembles the
    /// aggregation file, from the modules whose writes succeeded, with
    /// `assemble_manifest`.
    pub fn generate(&self, specifications: Vec<SpecificationFile>) -> (r: GeneratedProject)
        ensures
            r.outcomes@.len() == specifications@.len(),
            forall|i: int|
                0 <= i < specifications@.len() ==> outcome_matches(
                    specifications@[i],
                    #[trigger] r.outcomes@[i],
                ),
            map_view(r.files@) == spec_files_of(r.outcomes@),
    {
        let ghost specs0 = specifications@;
        let mut rem = specifications;
        let mut outcomes: Vec<ModuleOutcome> = Vec::new();
        let mut files: Vec<(String, String)> = Vec::new();
        proof {
            assert(specs0.skip(0) =~= specs0);
            assert(map_view(files@) =~= spec_files_of(outcomes@));
        }
        while rem.len() > 0
            invariant
                outcomes@.len() + rem@.len() == specs0.len(),
                rem@ =~= specs0.skip(outcomes@.len() as int),
                forall|i: int|
                    0 <= i < outcomes@.len() ==> outcome_matches(
                        specs0[i],
                        #[trigger] outcomes@[i],
                    ),
                map_view(files@) == spec_files_of(outcomes@),
            decreases rem@.len(),
        {
            let ghost k = outcomes@.len() as int;
            let ghost rem0 = rem@;
            let file = rem.remove(0);
            proof {
                assert(rem0[0] == specs0.skip(k)[0]);
                assert(specs0.skip(k)[0] == specs0[k]);
                assert(file == specs0[k]);
                assert(rem@ =~= rem0.remove(0));
                assert(rem@ =~= specs0.skip(k + 1));
            }
            let outcome = self.generate_module(file);
            let ghost outs0 = outcomes@;
            match &outcome {
                ModuleOutcome::Generated { key, module_name, content, skipped_parameters } => {
                    files.push((module_name.clone(), content.clone()));
                },
                _ => {},
            }
            outcomes.push(outcome);
            proof {
                assert(outcomes@.drop_last() =~= outs0);
                assert(outcomes@.last() == outcome);
                assert(map_view(files@) =~= spec_files_of(outcomes@));
            }
        }
        proof {
            assert(outcomes@.len() == specs0.len());
        }
        GeneratedProject { files, outcomes }
    }
}

/// Assembles the aggregation file for the modules that were actually written,
/// handed as (input file name, module name) pairs: one module-declaration
/// line each, in lexicographic input-file-name order. A module whose write
/// failed is simply left off the list, as the run's partial-success rule
/// asks.
pub fn assemble_manifest(written: &Vec<(String, String)>) -> (r: String)
    ensures
        r@ == spec_manifest_text(spec_manifest_entries(map_view(written@))),
{
    let ghost wv = map_view(written@);
    let mut manifest: Vec<(String, String)> = Vec::new();
    let mut i: usize = 0;
    proof {
        assert(wv.take(0).len() == 0);
        assert(map_view(manifest@) =~= spec_manifest_entries(wv.take(0)));
    }
    while i < written.len()
        invariant
            i <= written@.len(),
            wv == map_view(written@),
            wv.len() == written@.len(),
            forall|l: int|
                0 <= l < written@.len() ==> (#[trigger] wv[l]) == (
                    written@[l].0@,
                    written@[l].1@,
                ),
            map_view(manifest@) == spec_manifest_entries(wv.take(i as int)),
        decreases written@.len() - i,
    {
        let mut line = String::from_str("pub mod ");
        line.append(written[i].1.as_str());
        line.append(";\n");
        manifest = insert_sorted(manifest, written[i].0.clone(), line);
        proof {
            assert(wv.take(i + 1).drop_last() =~= wv.take(i as int));
            assert(wv.take(i + 1).last() == wv[i as int]);
            assert(map_view(manifest@) =~= spec_manifest_entries(wv.take(i + 1)));
        }
        i += 1;
    }
    proof {
        assert(wv.take(wv.len() as int) =~= wv);
    }
    let mut text = String::new();
    let mut j: usize = 0;
    let ghost mv = map_view(manifest@);
    proof {
        assert(mv.skip(0) =~= mv);
        assert(text@ + spec_manifest_text(mv) =~= spec_manifest_text(mv));
    }
    while j < manifest.len()
        invariant
            j <= manifest@.len(),
            mv == map_view(manifest@),
            mv.len() == manifest@.len(),
            forall|l: int|
                0 <= l < manifest@.len() ==> (#[trigger] mv[l]) == (
                    manifest@[l].0@,
                    manifest@[l].1@,
                ),
            spec_manifest_text(mv) == text@ + spec_manifest_text(mv.skip(j as int)),
        decreases manifest@.len() - j,
    {
        proof {
            assert(mv.skip(j as int)[0] == mv[j as int]);
            assert(mv.skip(j as int).drop_first() =~= mv.skip(j + 1));
        }
        text.append(manifest[j].1.as_str());
        j += 1;
    }
    proof {
        assert(mv.skip(mv.len() as int).len() == 0);
    }
    text
}

} // verus!
