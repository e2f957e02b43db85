use vstd::prelude::*;
use vstd::string::*;

use crate::strutil::str_eq;

verus! {

/// A loosely typed description-document tree: string-keyed mappings, arrays
/// and scalars, as a document interchange format hands them over. Numbers are
/// carried as their literal text: nothing in this library reads their value,
/// they only ride along in the open bags of unrecognized fields.
pub enum RawValue {
    Null,
    Bool(bool),
    Number(String),
    Str(String),
    Array(Vec<RawValue>),
    Object(Vec<(String, RawValue)>),
}

/// The value under the first occurrence of key `k`, if any.
pub open spec fn spec_get(fields: Seq<(String, RawValue)>, k: Seq<char>) -> Option<RawValue>
    decreases fields.len(),
{
    if fields.len() == 0 {
        None
    } else if fields[0].0@ == k {
        Some(fields[0].1)
    } else {
        spec_get(fields.drop_first(), k)
    }
}

/// Whether `j` is the position of the first occurrence of key `k`.
pub open spec fn is_first_key(fields: Seq<(String, RawValue)>, k: Seq<char>, j: int) -> bool {
    &&& 0 <= j < fields.len()
    &&& fields[j].0@ == k
    &&& forall|l: int| 0 <= l < j ==> (#[trigger] fields[l].0)@ != k
}

/// `spec_get` answers exactly the first occurrence of the key.
pub proof fn lemma_spec_get_first_key(fields: Seq<(String, RawValue)>, k: Seq<char>)
    ensures
        spec_get(fields, k) is Some <==> exists|j: int| is_first_key(fields, k, j),
        forall|j: int| is_first_key(fields, k, j) ==> spec_get(fields, k) == Some(fields[j].1),
    decreases fields.len(),
{
    if fields.len() == 0 {
    } else if fields[0].0@ == k {
        assert(is_first_key(fields, k, 0));
        assert forall|j: int| is_first_key(fields, k, j) implies spec_get(fields, k) == Some(
            fields[j].1,
        ) by {
            assert(j == 0);
        }
    } else {
        lemma_spec_get_first_key(fields.drop_first(), k);
        let rest = fields.drop_first();
        if spec_get(fields, k) is Some {
            let j0 = choose|j: int| is_first_key(rest, k, j);
            assert(fields[j0 + 1] == rest[j0]);
            assert forall|l: int| 0 <= l < j0 + 1 implies (#[trigger] fields[l].0)@ != k by {
                if l > 0 {
                    assert(rest[l - 1] == fields[l]);
                }
            }
            assert(is_first_key(fields, k, j0 + 1));
        }
        if exists|j: int| is_first_key(fields, k, j) {
            let j0 = choose|j: int| is_first_key(fields, k, j);
            assert(j0 > 0);
            assert(rest[j0 - 1] == fields[j0]);
            assert forall|l: int| 0 <= l < j0 - 1 implies (#[trigger] rest[l].0)@ != k by {
                assert(fields[l + 1] == rest[l]);
            }
            assert(is_first_key(rest, k, j0 - 1));
        }
        assert forall|j: int| is_first_key(fields, k, j) implies spec_get(fields, k) == Some(
            fields[j].1,
        ) by {
            assert(j > 0);
            assert(rest[j - 1] == fields[j]);
            assert forall|l: int| 0 <= l < j - 1 implies (#[trigger] rest[l].0)@ != k by {
                assert(fields[l + 1] == rest[l]);
            }
            assert(is_first_key(rest, k, j - 1));
        }
    }
}

/// Finds the value under the first occurrence of key `k` in a mapping.
pub fn get_field<'a>(fields: &'a Vec<(String, RawValue)>, k: &str) -> (r: Option<&'a RawValue>)
    ensures
        match r {
            Some(v) => spec_get(fields@, k@) == Some(*v),
            None => spec_get(fields@, k@) is None,
        },
{
    let mut i: usize = 0;
    proof {
        assert(fields@.skip(0) =~= fields@);
    }
    while i < fields.len()
        invariant
            i <= fields@.len(),
            spec_get(fields@, k@) == spec_get(fields@.skip(i as int), k@),
        decreases fields@.len() - i,
    {
        proof {
            assert(fields@.skip(i as int)[0] == fields@[i as int]);
            assert(fields@.skip(i as int).drop_first() =~= fields@.skip(i + 1));
        }
        if str_eq(fields[i].0.as_str(), k) {
            return Some(&fields[i].1);
        }
        i += 1;
    }
    proof {
        assert(fields@.skip(fields@.len() as int).len() == 0);
    }
    None
}

/// Takes the value under the first occurrence of key `k` out of a mapping,
/// handing back the remaining fields unchanged and in order.
pub fn take_field(fields: Vec<(String, RawValue)>, k: &str) -> (r: (
    Option<RawValue>,
    Vec<(String, RawValue)>,
))
    ensures
        r.0 is None <==> spec_get(fields@, k@) is None,
        r.0 is None ==> r.1 == fields,
        forall|j: int|
            #[trigger] is_first_key(fields@, k@, j) ==> r.0 == Some(fields@[j].1) && r.1@
                == fields@.remove(j),
{
    let n = fields.len();
    let mut i: usize = 0;
    while i < n
        invariant
            n == fields@.len(),
            i <= n,
            forall|l: int| 0 <= l < i ==> (#[trigger] fields@[l].0)@ != k@,
        decreases n - i,
    {
        if str_eq(fields[i].0.as_str(), k) {
            proof {
                assert(is_first_key(fields@, k@, i as int));
                lemma_spec_get_first_key(fields@, k@);
                assert forall|j: int| is_first_key(fields@, k@, j) implies j == i as int by {
                    if j < i {
                        assert(fields@[j].0@ != k@);
                    }
                    if j > i {
                        assert(fields@[i as int].0@ != k@);
                    }
                }
            }
            let mut rest = fields;
            let pair = rest.remove(i);
            return (Some(pair.1), rest);
        }
        i += 1;
    }
    proof {
        lemma_spec_get_first_key(fields@, k@);
        if spec_get(fields@, k@) is Some {
            let j = choose|j: int| is_first_key(fields@, k@, j);
            assert(fields@[j].0@ != k@);
        }
    }
    (None, fields)
}

} // verus!
