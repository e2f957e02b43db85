use vstd::prelude::*;
use vstd::string::*;

use crate::chars::spec_to_lower;
use crate::chars::to_ascii_lowercase;

verus! {

/// The sequence with every ASCII upper-case letter replaced by its lower-case
/// counterpart; all other characters are kept as they are.
pub open spec fn spec_lower(s: Seq<char>) -> Seq<char> {
    s.map_values(|c: char| spec_to_lower(c))
}

/// Relies on String::push: appends exactly one character at the end.
#[verifier::external_body]
pub(crate) fn push_char(s: &mut String, c: char)
    ensures
        final(s)@ == old(s)@.push(c),
{
    s.push(c)
}

/// Character-for-character equality of two string slices.
pub fn str_eq(a: &str, b: &str) -> (r: bool)
    ensures
        r == (a@ == b@),
{
    let alen = a.unicode_len();
    let blen = b.unicode_len();
    if alen != blen {
        proof {
            assert(a@ != b@) by {
                assert(a@.len() != b@.len());
            }
        }
        return false;
    }
    let mut i: usize = 0;
    while i < alen
        invariant
            alen == a@.len(),
            alen == b@.len(),
            i <= alen,
            forall|j: int| 0 <= j < i ==> a@[j] == b@[j],
        decreases alen - i,
    {
        if a.get_char(i) != b.get_char(i) {
            proof {
                assert(a@[i as int] != b@[i as int]);
            }
            return false;
        }
        i += 1;
    }
    proof {
        assert(a@ =~= b@);
    }
    true
}

/// Whether lowering the ASCII case of `s` yields exactly `lit`.
pub fn eq_ignore_ascii_case(s: &str, lit: &str) -> (r: bool)
    ensures
        r == (spec_lower(s@) == lit@),
{
    let slen = s.unicode_len();
    let llen = lit.unicode_len();
    if slen != llen {
        proof {
            assert(spec_lower(s@) != lit@) by {
                assert(spec_lower(s@).len() != lit@.len());
            }
        }
        return false;
    }
    let mut i: usize = 0;
    while i < slen
        invariant
            slen == s@.len(),
            slen == lit@.len(),
            i <= slen,
            forall|j: int| 0 <= j < i ==> spec_to_lower(s@[j]) == lit@[j],
        decreases slen - i,
    {
        if to_ascii_lowercase(s.get_char(i)) != lit.get_char(i) {
            proof {
                assert(spec_lower(s@)[i as int] != lit@[i as int]);
            }
            return false;
        }
        i += 1;
    }
    proof {
        assert(spec_lower(s@) =~= lit@);
    }
    true
}

/// The ASCII-lowered copy of a string slice.
pub fn to_lower_string(s: &str) -> (r: String)
    ensures
        r@ == spec_lower(s@),
{
    let n = s.unicode_len();
    let mut out = String::new();
    let mut i: usize = 0;
    while i < n
        invariant
            n == s@.len(),
            i <= n,
            out@ =~= spec_lower(s@.take(i as int)),
        decreases n - i,
    {
        let c = to_ascii_lowercase(s.get_char(i));
        push_char(&mut out, c);
        proof {
            assert(s@.take(i + 1).drop_last() =~= s@.take(i as int));
            assert(spec_lower(s@.take(i + 1)) =~= spec_lower(s@.take(i as int)).push(
                spec_to_lower(s@[i as int]),
            ));
        }
        i += 1;
    }
    proof {
        assert(s@.take(n as int) =~= s@);
    }
    out
}

/// Strict lexicographic order on character sequences, by Unicode scalar value.
pub open spec fn lex_lt(a: Seq<char>, b: Seq<char>) -> bool
    decreases a.len(),
{
    if b.len() == 0 {
        false
    } else if a.len() == 0 {
        true
    } else if (a[0] as u32) < (b[0] as u32) {
        true
    } else if (a[0] as u32) > (b[0] as u32) {
        false
    } else {
        lex_lt(a.drop_first(), b.drop_first())
    }
}

/// Of two character sequences, exactly one of `lex_lt(a, b)`, `a == b`,
/// `lex_lt(b, a)` holds.
pub proof fn lemma_lex_trichotomy(a: Seq<char>, b: Seq<char>)
    ensures
        lex_lt(a, b) || a == b || lex_lt(b, a),
        lex_lt(a, b) ==> a != b && !lex_lt(b, a),
        a == b ==> !lex_lt(a, b) && !lex_lt(b, a),
    decreases a.len(),
{
    if b.len() == 0 {
        if a.len() == 0 {
            assert(a =~= b);
        }
    } else if a.len() == 0 {
    } else if (a[0] as u32) < (b[0] as u32) {
        assert(a[0] != b[0]);
    } else if (a[0] as u32) > (b[0] as u32) {
        assert(a[0] != b[0]);
    } else {
        assert(a[0] as u32 == b[0] as u32);
        assert(a[0] == b[0]) by {
            vstd::utf8::char_u32_cast(a[0], a[0] as u32);
            vstd::utf8::char_u32_cast(b[0], b[0] as u32);
        }
        lemma_lex_trichotomy(a.drop_first(), b.drop_first());
        if a.drop_first() == b.drop_first() {
            assert forall|i: int| 0 <= i < a.len() implies a[i] == b[i] by {
                if i > 0 {
                    assert(a.drop_first()[i - 1] == b.drop_first()[i - 1]);
                }
            }
            assert(a =~= b);
        }
        if a == b {
            assert(a.drop_first() =~= b.drop_first());
        }
    }
}

/// Strict lexicographic comparison of two string slices.
pub fn str_lt(a: &str, b: &str) -> (r: bool)
    ensures
        r == lex_lt(a@, b@),
{
    let alen = a.unicode_len();
    let blen = b.unicode_len();
    let mut i: usize = 0;
    proof {
        assert(a@.skip(0) =~= a@);
        assert(b@.skip(0) =~= b@);
    }
    loop
        invariant
            alen == a@.len(),
            blen == b@.len(),
            i <= alen,
            i <= blen,
            lex_lt(a@, b@) == lex_lt(a@.skip(i as int), b@.skip(i as int)),
        decreases alen - i,
    {
        if i >= blen {
            proof {
                assert(b@.skip(i as int).len() == 0);
            }
            return false;
        }
        if i >= alen {
            proof {
                assert(a@.skip(i as int).len() == 0);
                assert(b@.skip(i as int).len() > 0);
            }
            return true;
        }
        let ca = a.get_char(i);
        let cb = b.get_char(i);
        proof {
            assert(a@.skip(i as int)[0] == a@[i as int]);
            assert(b@.skip(i as int)[0] == b@[i as int]);
        }
        if (ca as u32) < (cb as u32) {
            return true;
        }
        if (ca as u32) > (cb as u32) {
            return false;
        }
        proof {
            assert(a@.skip(i as int).drop_first() =~= a@.skip(i + 1));
            assert(b@.skip(i as int).drop_first() =~= b@.skip(i + 1));
        }
        i += 1;
    }
}

} // verus!
