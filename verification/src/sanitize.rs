use vstd::prelude::*;
use vstd::string::*;

use crate::chars::{
    is_ascii_digit, is_ascii_lower, is_ident_char, spec_to_lower, spec_to_upper, to_ascii_lowercase,
    to_ascii_uppercase,
};
use crate::strutil::push_char;

verus! {

/// The identifier characters of `s`, upper camel cased: characters outside
/// ASCII letters and digits are dropped, and the letter that follows a dropped
/// character (or starts the name, when `up` holds) is upper-cased.
pub open spec fn camel_chars(s: Seq<char>, up: bool) -> Seq<char>
    decreases s.len(),
{
    if s.len() == 0 {
        Seq::empty()
    } else if is_ident_char(s[0]) {
        seq![if up {
            spec_to_upper(s[0])
        } else {
            s[0]
        }] + camel_chars(s.drop_first(), false)
    } else {
        camel_chars(s.drop_first(), true)
    }
}

/// The sanitized type identifier for a raw schema or parameter name: the upper
/// camel cased identifier characters, with `X` standing in front when nothing
/// is left or a digit would lead.
pub open spec fn spec_type_ident(s: Seq<char>) -> Seq<char> {
    let t = camel_chars(s, true);
    if t.len() == 0 {
        seq!['X']
    } else if is_ascii_digit(t[0]) {
        seq!['X'] + t
    } else {
        t
    }
}

/// Every character that camel casing keeps is an identifier character, and the
/// first character of a name cased from the start is never a lower-case letter.
pub proof fn lemma_camel_chars_shape(s: Seq<char>, up: bool)
    ensures
        forall|i: int|
            0 <= i < camel_chars(s, up).len() ==> #[trigger] is_ident_char(camel_chars(s, up)[i]),
        up && camel_chars(s, up).len() > 0 ==> !is_ascii_lower(camel_chars(s, up)[0]),
    decreases s.len(),
{
    if s.len() == 0 {
    } else if is_ident_char(s[0]) {
        lemma_camel_chars_shape(s.drop_first(), false);
        let e = if up {
            spec_to_upper(s[0])
        } else {
            s[0]
        };
        let r = camel_chars(s, up);
        assert(is_ident_char(e));
        assert forall|i: int| 0 <= i < r.len() implies #[trigger] is_ident_char(r[i]) by {
            if i == 0 {
                assert(r[0] == e);
            } else {
                assert(r[i] == camel_chars(s.drop_first(), false)[i - 1]);
            }
        }
    } else {
        lemma_camel_chars_shape(s.drop_first(), true);
        let r = camel_chars(s, up);
        assert forall|i: int| 0 <= i < r.len() implies #[trigger] is_ident_char(r[i]) by {
            assert(r[i] == camel_chars(s.drop_first(), true)[i]);
        }
    }
}

/// A sequence of identifier characters passes camel casing unchanged, as long
/// as no upper-casing of its first character is asked for or needed.
pub proof fn lemma_camel_chars_identity(s: Seq<char>, up: bool)
    requires
        forall|i: int| 0 <= i < s.len() ==> #[trigger] is_ident_char(s[i]),
        up && s.len() > 0 ==> !is_ascii_lower(s[0]),
    ensures
        camel_chars(s, up) == s,
    decreases s.len(),
{
    if s.len() == 0 {
        assert(camel_chars(s, up) =~= s);
    } else {
        assert(is_ident_char(s[0]));
        lemma_camel_chars_identity(s.drop_first(), false);
        assert(camel_chars(s, up) =~= s);
    }
}

/// Sanitizing a name a second time returns it unchanged.
pub proof fn lemma_sanitize_idempotent(s: Seq<char>)
    ensures
        spec_type_ident(spec_type_ident(s)) == spec_type_ident(s),
{
    let t = camel_chars(s, true);
    lemma_camel_chars_shape(s, true);
    if t.len() == 0 {
        let r = spec_type_ident(s);
        assert(r =~= seq!['X']);
        lemma_camel_chars_identity(r, true);
    } else if is_ascii_digit(t[0]) {
        let r = seq!['X'] + t;
        assert(spec_type_ident(s) == r);
        assert(forall|i: int| 0 <= i < r.len() ==> #[trigger] is_ident_char(r[i])) by {
            assert(forall|i: int| 1 <= i < r.len() ==> r[i] == t[i - 1]);
        }
        lemma_camel_chars_identity(r, true);
    } else {
        lemma_camel_chars_identity(t, true);
    }
}

/// The sanitized identifier holds only ASCII letters and digits, is never
/// empty, and never starts with a digit or a lower-case letter.
pub proof fn lemma_type_ident_legal(s: Seq<char>)
    ensures
        spec_type_ident(s).len() > 0,
        forall|i: int|
            0 <= i < spec_type_ident(s).len() ==> #[trigger] is_ident_char(spec_type_ident(s)[i]),
        !is_ascii_digit(spec_type_ident(s)[0]),
        !is_ascii_lower(spec_type_ident(s)[0]),
{
    let t = camel_chars(s, true);
    lemma_camel_chars_shape(s, true);
    let r = spec_type_ident(s);
    if t.len() == 0 {
    } else if is_ascii_digit(t[0]) {
        assert(forall|i: int| 1 <= i < r.len() ==> r[i] == t[i - 1]);
    } else {
    }
}

/// Maps a raw schema or parameter name to a legal upper-camel-case type
/// identifier. Total: unrecognized characters are dropped, never rejected.
pub fn format_name_as_valid_struct_identifier(name: &str) -> (r: String)
    ensures
        r@ == spec_type_ident(name@),
        r@.len() > 0,
        forall|i: int| 0 <= i < r@.len() ==> #[trigger] is_ident_char(r@[i]),
        !is_ascii_digit(r@[0]),
{
    let n = name.unicode_len();
    let mut out = String::new();
    let mut up: bool = true;
    let mut i: usize = 0;
    proof {
        assert(name@.skip(0) =~= name@);
    }
    while i < n
        invariant
            n == name@.len(),
            i <= n,
            camel_chars(name@, true) =~= out@ + camel_chars(name@.skip(i as int), up),
        decreases n - i,
    {
        let ghost up0 = up;
        let ghost out0 = out@;
        let c = name.get_char(i);
        proof {
            assert(name@.skip(i as int)[0] == name@[i as int]);
            assert(name@.skip(i as int).drop_first() =~= name@.skip(i + 1));
        }
        let keep = (('a' as u32) <= (c as u32) && (c as u32) <= ('z' as u32)) || (('A' as u32) <= (
        c as u32) && (c as u32) <= ('Z' as u32)) || (('0' as u32) <= (c as u32) && (c as u32) <= (
        '9' as u32));
        if keep {
            let e = if up {
                to_ascii_uppercase(c)
            } else {
                c
            };
            push_char(&mut out, e);
            up = false;
            proof {
                assert(camel_chars(name@.skip(i as int), up0) =~= seq![
                    if up0 {
                        spec_to_upper(name@[i as int])
                    } else {
                        name@[i as int]
                    },
                ] + camel_chars(name@.skip(i + 1), false));
                assert(out@ + camel_chars(name@.skip(i + 1), false) =~= out0 + camel_chars(
                    name@.skip(i as int),
                    up0,
                ));
            }
        } else {
            proof {
                assert(camel_chars(name@.skip(i as int), up0) == camel_chars(
                    name@.skip(i + 1),
                    true,
                ));
            }
            up = true;
        }
        i += 1;
    }
    proof {
        assert(name@.skip(n as int).len() == 0);
        assert(out@ =~= camel_chars(name@, true));
        lemma_camel_chars_shape(name@, true);
        lemma_type_ident_legal(name@);
    }
    if out.as_str().unicode_len() == 0 {
        let r = String::from_str("X");
        proof {
            reveal_strlit("X");
            assert(r@ =~= spec_type_ident(name@));
        }
        r
    } else {
        let first = out.as_str().get_char(0);
        if ('0' as u32) <= (first as u32) && (first as u32) <= ('9' as u32) {
            let mut r = String::from_str("X");
            r.append(out.as_str());
            proof {
                reveal_strlit("X");
                assert(r@ =~= spec_type_ident(name@));
            }
            r
        } else {
            out
        }
    }
}

/// The characters of `s` made fit for a generated file or module name: ASCII
/// letters are lowered, digits kept, and every other character becomes an
/// underscore.
pub open spec fn file_chars(s: Seq<char>) -> Seq<char> {
    s.map_values(
        |c: char|
            if is_ident_char(c) {
                spec_to_lower(c)
            } else {
                '_'
            },
    )
}

/// The sanitized file or module name for a raw document or domain name: its
/// characters lowered with separators turned to underscores, with `f` standing
/// in front when the name is empty or a digit would lead.
pub open spec fn spec_file_ident(s: Seq<char>) -> Seq<char> {
    let m = file_chars(s);
    if m.len() == 0 {
        seq!['f']
    } else if is_ascii_digit(m[0]) {
        seq!['f'] + m
    } else {
        m
    }
}

/// Maps a raw document or domain name to a legal lower-case file stem.
/// Total: every character maps somewhere, none is rejected.
pub fn format_as_file_name(name: &str) -> (r: String)
    ensures
        r@ == spec_file_ident(name@),
        r@.len() > 0,
        !is_ascii_digit(r@[0]),
{
    let n = name.unicode_len();
    let mut out = String::new();
    let mut i: usize = 0;
    while i < n
        invariant
            n == name@.len(),
            i <= n,
            out@ =~= file_chars(name@.take(i as int)),
        decreases n - i,
    {
        let c = name.get_char(i);
        let keep = (('a' as u32) <= (c as u32) && (c as u32) <= ('z' as u32)) || (('A' as u32) <= (
        c as u32) && (c as u32) <= ('Z' as u32)) || (('0' as u32) <= (c as u32) && (c as u32) <= (
        '9' as u32));
        let e = if keep {
            to_ascii_lowercase(c)
        } else {
            '_'
        };
        push_char(&mut out, e);
        proof {
            assert(name@.take(i + 1).drop_last() =~= name@.take(i as int));
            assert(file_chars(name@.take(i + 1)) =~= file_chars(name@.take(i as int)).push(
                if is_ident_char(name@[i as int]) {
                    spec_to_lower(name@[i as int])
                } else {
                    '_'
                },
            ));
        }
        i += 1;
    }
    proof {
        assert(name@.take(n as int) =~= name@);
        assert(out@ =~= file_chars(name@));
    }
    if out.as_str().unicode_len() == 0 {
        let r = String::from_str("f");
        proof {
            reveal_strlit("f");
            assert(r@ =~= spec_file_ident(name@));
        }
        r
    } else {
        let first = out.as_str().get_char(0);
        if ('0' as u32) <= (first as u32) && (first as u32) <= ('9' as u32) {
            let mut r = String::from_str("f");
            r.append(out.as_str());
            proof {
                reveal_strlit("f");
                assert(r@ =~= spec_file_ident(name@));
            }
            r
        } else {
            out
        }
    }
}

} // verus!
