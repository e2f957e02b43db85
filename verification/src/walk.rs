use vstd::prelude::*;
use vstd::string::*;

use crate::models::{
    Method, Operation, ParameterType, PathItem, Swagger, spec_method_text,
};

verus! {

/// The view of a list of report lines.
pub open spec fn lines_view(v: Seq<String>) -> Seq<Seq<char>> {
    v.map_values(|s: String| s@)
}

/// The report lines of one operation parameter.
pub open spec fn spec_param_lines(p: ParameterType) -> Seq<Seq<char>> {
    match p {
        ParameterType::Reference(r) => seq!["Ref Parameter"@, "  Path: "@ + r.path@],
        ParameterType::Parameter(_) => seq!["Inline Parameter"@],
    }
}

/// The report lines of an operation's parameters, in order.
pub open spec fn spec_params_lines(ps: Seq<ParameterType>) -> Seq<Seq<char>>
    decreases ps.len(),
{
    if ps.len() == 0 {
        Seq::empty()
    } else {
        spec_param_lines(ps[0]) + spec_params_lines(ps.drop_first())
    }
}

/// The report lines of one method entry: nothing for an absent operation.
pub open spec fn spec_op_lines(m: Method, op: Option<Operation>) -> Seq<Seq<char>> {
    match op {
        None => Seq::empty(),
        Some(o) => seq!["Method: "@ + spec_method_text(m), "Id: "@ + o.id@] + (match o
            .description {
            Some(d) => seq!["Description: "@ + d@],
            None => Seq::empty(),
        }) + spec_params_lines(o.parameters@),
    }
}

/// The report lines of a path's method entries, in order.
pub open spec fn spec_ops_lines(ops: Seq<(Method, Option<Operation>)>) -> Seq<Seq<char>>
    decreases ops.len(),
{
    if ops.len() == 0 {
        Seq::empty()
    } else {
        spec_op_lines(ops[0].0, ops[0].1) + spec_ops_lines(ops.drop_first())
    }
}

/// The report lines of one path.
pub open spec fn spec_path_lines(endpoint: Seq<char>, pi: PathItem) -> Seq<Seq<char>> {
    seq!["----------------------"@, "Endpoint: "@ + endpoint] + spec_ops_lines(pi.operations@)
}

/// The report lines of every path, in order.
pub open spec fn spec_paths_lines(paths: Seq<(String, PathItem)>) -> Seq<Seq<char>>
    decreases paths.len(),
{
    if paths.len() == 0 {
        Seq::empty()
    } else {
        spec_path_lines(paths[0].0@, paths[0].1) + spec_paths_lines(paths.drop_first())
    }
}

/// The whole walk report: the document title, where an info block is present,
/// then every path's lines.
pub open spec fn spec_walk_lines(sw: Swagger) -> Seq<Seq<char>> {
    (match sw.info {
        Some(info) => seq![info.title@],
        None => Seq::<Seq<char>>::empty(),
    }) + spec_paths_lines(sw.paths->Some_0@)
}

impl Swagger {
    /// The document-tree report, one line per entry: the title, then each
    /// endpoint with its operations and their parameters. The document must
    /// carry a `paths` section.
    pub fn walk(&self) -> (lines: Vec<String>)
        requires
            self.paths is Some,
        ensures
            lines_view(lines@) == spec_walk_lines(*self),
    {
        let mut lines: Vec<String> = Vec::new();
        match &self.info {
            Some(info) => {
                lines.push(info.title.clone());
            },
            None => {},
        }
        let paths = match &self.paths {
            Some(p) => p,
            None => {
                proof {
                    assert(false);
                }
                return lines;
            },
        };
        let ghost header = lines_view(lines@);
        proof {
            assert(header =~= (match self.info {
                Some(info) => seq![info.title@],
                None => Seq::<Seq<char>>::empty(),
            }));
            assert(paths@.skip(0) =~= paths@);
            assert(lines_view(lines@) =~= header + spec_paths_lines(paths@.take(0)));
            assert(spec_paths_lines(paths@.take(0)) =~= Seq::<Seq<char>>::empty());
        }
        let mut i: usize = 0;
        while i < paths.len()
            invariant
                i <= paths@.len(),
                self.paths == Some(*paths),
                lines_view(lines@) == header + spec_walk_prefix(paths@, i as int),
            decreases paths@.len() - i,
        {
            lines.push(String::from_str("----------------------"));
            let mut endpoint_line = String::from_str("Endpoint: ");
            endpoint_line.append(paths[i].0.as_str());
            lines.push(endpoint_line);
            let ghost before_ops = lines_view(lines@);
            proof {
                assert(before_ops =~= header + spec_walk_prefix(paths@, i as int) + seq![
                    "----------------------"@,
                    "Endpoint: "@ + paths@[i as int].0@,
                ]);
            }
            let ops = &paths[i].1.operations;
            proof {
                assert(ops@.skip(0) =~= ops@);
                assert(lines_view(lines@) =~= before_ops + spec_ops_lines(ops@.take(0)));
            }
            let mut j: usize = 0;
            while j < ops.len()
                invariant
                    i < paths@.len(),
                    j <= ops@.len(),
                    paths@[i as int].1.operations == *ops,
                    lines_view(lines@) == before_ops + spec_ops_prefix(ops@, j as int),
                decreases ops@.len() - j,
            {
                match &ops[j].1 {
                    Some(op) => {
                        let mut method_line = String::from_str("Method: ");
                        method_line.append(ops[j].0.as_str());
                        lines.push(method_line);
                        let mut id_line = String::from_str("Id: ");
                        id_line.append(op.id.as_str());
                        lines.push(id_line);
                        match &op.description {
                            Some(d) => {
                                let mut description_line = String::from_str("Description: ");
                                description_line.append(d.as_str());
                                lines.push(description_line);
                            },
                            None => {},
                        }
                        let ghost before_params = lines_view(lines@);
                        proof {
                            assert(ops@[j as int].1 == Some(*op));
                            assert(before_params =~= lines_view(lines@));
                            assert(before_params =~= before_ops + spec_ops_prefix(ops@, j as int)
                                + seq![
                                "Method: "@ + spec_method_text(ops@[j as int].0),
                                "Id: "@ + op.id@,
                            ] + (match op.description {
                                Some(d) => seq![("Description: "@ + d@)],
                                None => Seq::<Seq<char>>::empty(),
                            }));
                            assert(lines_view(lines@) =~= before_params + spec_params_prefix(
                                op.parameters@,
                                0,
                            ));
                        }
                        let mut k: usize = 0;
                        while k < op.parameters.len()
                            invariant
                                k <= op.parameters@.len(),
                                lines_view(lines@) == before_params + spec_params_prefix(
                                    op.parameters@,
                                    k as int,
                                ),
                            decreases op.parameters@.len() - k,
                        {
                            let ghost lv0 = lines_view(lines@);
                            proof {
                                assert(lv0 == before_params + spec_params_prefix(
                                    op.parameters@,
                                    k as int,
                                ));
                            }
                            match &op.parameters[k] {
                                ParameterType::Reference(reference) => {
                                    lines.push(String::from_str("Ref Parameter"));
                                    let mut path_line = String::from_str("  Path: ");
                                    path_line.append(reference.path.as_str());
                                    lines.push(path_line);
                                    proof {
                                        lemma_params_prefix_step(op.parameters@, k as int);
                                        assert(spec_param_lines(op.parameters@[k as int]) =~= seq![
                                            "Ref Parameter"@,
                                            "  Path: "@ + reference.path@,
                                        ]);
                                        assert(lines_view(lines@) =~= lv0 + spec_param_lines(
                                            op.parameters@[k as int],
                                        ));
                                        assert(lines_view(lines@) =~= before_params
                                            + spec_params_prefix(op.parameters@, k + 1));
                                    }
                                },
                                ParameterType::Parameter(_) => {
                                    lines.push(String::from_str("Inline Parameter"));
                                    proof {
                                        lemma_params_prefix_step(op.parameters@, k as int);
                                        assert(spec_param_lines(op.parameters@[k as int]) =~= seq![
                                            "Inline Parameter"@,
                                        ]);
                                        assert(lines_view(lines@) =~= lv0 + spec_param_lines(
                                            op.parameters@[k as int],
                                        ));
                                        assert(lines_view(lines@) =~= before_params
                                            + spec_params_prefix(op.parameters@, k + 1));
                                    }
                                },
                            }
                            k += 1;
                        }
                        proof {
                            lemma_params_prefix_full(op.parameters@);
                            lemma_ops_prefix_step(ops@, j as int);
                            assert(lines_view(lines@) =~= before_ops + spec_ops_prefix(
                                ops@,
                                j + 1,
                            ));
                        }
                    },
                    None => {
                        proof {
                            lemma_ops_prefix_step(ops@, j as int);
                            assert(lines_view(lines@) =~= before_ops + spec_ops_prefix(
                                ops@,
                                j + 1,
                            ));
                        }
                    },
                }
                j += 1;
            }
            proof {
                lemma_ops_prefix_full(ops@);
                lemma_paths_prefix_step(paths@, i as int);
                assert(lines_view(lines@) =~= header + spec_walk_prefix(paths@, i + 1));
            }
            i += 1;
        }
        proof {
            lemma_paths_prefix_full(paths@);
            assert(lines_view(lines@) =~= spec_walk_lines(*self));
        }
        lines
    }
}

/// The lines of the first `i` paths.
pub open spec fn spec_walk_prefix(paths: Seq<(String, PathItem)>, i: int) -> Seq<Seq<char>> {
    spec_paths_lines(paths.take(i))
}

/// The lines of the first `j` method entries.
pub open spec fn spec_ops_prefix(ops: Seq<(Method, Option<Operation>)>, j: int) -> Seq<Seq<char>> {
    spec_ops_lines(ops.take(j))
}

/// The lines of the first `k` parameters.
pub open spec fn spec_params_prefix(ps: Seq<ParameterType>, k: int) -> Seq<Seq<char>> {
    spec_params_lines(ps.take(k))
}

/// Folding one more parameter appends its lines.
pub proof fn lemma_params_prefix_step(ps: Seq<ParameterType>, k: int)
    requires
        0 <= k < ps.len(),
    ensures
        spec_params_prefix(ps, k + 1) == spec_params_prefix(ps, k) + spec_param_lines(ps[k]),
    decreases k,
{
    if k == 0 {
        assert(ps.take(1).drop_first() =~= ps.take(0));
        assert(ps.take(0).len() == 0);
        assert(ps.take(1)[0] == ps[0]);
        assert(spec_params_prefix(ps, 1) =~= spec_params_prefix(ps, 0) + spec_param_lines(ps[0]));
    } else {
        lemma_params_prefix_step(ps.drop_first(), k - 1);
        assert(ps.take(k + 1).drop_first() =~= ps.drop_first().take(k));
        assert(ps.take(k).drop_first() =~= ps.drop_first().take(k - 1));
        assert(ps.take(k + 1)[0] == ps[0]);
        assert(ps.take(k)[0] == ps[0]);
        assert(ps.drop_first()[k - 1] == ps[k]);
        assert(spec_params_prefix(ps, k + 1) =~= spec_params_prefix(ps, k) + spec_param_lines(
            ps[k],
        ));
    }
}

/// The whole list is its own full prefix.
pub proof fn lemma_params_prefix_full(ps: Seq<ParameterType>)
    ensures
        spec_params_prefix(ps, ps.len() as int) == spec_params_lines(ps),
{
    assert(ps.take(ps.len() as int) =~= ps);
}

/// Folding one more method entry appends its lines.
pub proof fn lemma_ops_prefix_step(ops: Seq<(Method, Option<Operation>)>, j: int)
    requires
        0 <= j < ops.len(),
    ensures
        spec_ops_prefix(ops, j + 1) == spec_ops_prefix(ops, j) + spec_op_lines(
            ops[j].0,
            ops[j].1,
        ),
    decreases j,
{
    if j == 0 {
        assert(ops.take(1).drop_first() =~= ops.take(0));
        assert(ops.take(1)[0] == ops[0]);
        assert(spec_ops_prefix(ops, 1) =~= spec_ops_prefix(ops, 0) + spec_op_lines(
            ops[0].0,
            ops[0].1,
        ));
    } else {
        lemma_ops_prefix_step(ops.drop_first(), j - 1);
        assert(ops.take(j + 1).drop_first() =~= ops.drop_first().take(j));
        assert(ops.take(j).drop_first() =~= ops.drop_first().take(j - 1));
        assert(ops.take(j + 1)[0] == ops[0]);
        assert(ops.take(j)[0] == ops[0]);
        assert(ops.drop_first()[j - 1] == ops[j]);
        assert(spec_ops_prefix(ops, j + 1) =~= spec_ops_prefix(ops, j) + spec_op_lines(
            ops[j].0,
            ops[j].1,
        ));
    }
}

/// The whole list is its own full prefix.
pub proof fn lemma_ops_prefix_full(ops: Seq<(Method, Option<Operation>)>)
    ensures
        spec_ops_prefix(ops, ops.len() as int) == spec_ops_lines(ops),
{
    assert(ops.take(ops.len() as int) =~= ops);
}

/// Folding one more path appends its lines.
pub proof fn lemma_paths_prefix_step(paths: Seq<(String, PathItem)>, i: int)
    requires
        0 <= i < paths.len(),
    ensures
        spec_walk_prefix(paths, i + 1) == spec_walk_prefix(paths, i) + spec_path_lines(
            paths[i].0@,
            paths[i].1,
        ),
    decreases i,
{
    if i == 0 {
        assert(paths.take(1).drop_first() =~= paths.take(0));
        assert(paths.take(1)[0] == paths[0]);
        assert(spec_walk_prefix(paths, 1) =~= spec_walk_prefix(paths, 0) + spec_path_lines(
            paths[0].0@,
            paths[0].1,
        ));
    } else {
        lemma_paths_prefix_step(paths.drop_first(), i - 1);
        assert(paths.take(i + 1).drop_first() =~= paths.drop_first().take(i));
        assert(paths.take(i).drop_first() =~= paths.drop_first().take(i - 1));
        assert(paths.take(i + 1)[0] == paths[0]);
        assert(paths.take(i)[0] == paths[0]);
        assert(paths.drop_first()[i - 1] == paths[i]);
        assert(spec_walk_prefix(paths, i + 1) =~= spec_walk_prefix(paths, i) + spec_path_lines(
            paths[i].0@,
            paths[i].1,
        ));
    }
}

/// The whole list is its own full prefix.
pub proof fn lemma_paths_prefix_full(paths: Seq<(String, PathItem)>)
    ensures
        spec_walk_prefix(paths, paths.len() as int) == spec_paths_lines(paths),
{
    assert(paths.take(paths.len() as int) =~= paths);
}

} // verus!
