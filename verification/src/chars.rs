use vstd::prelude::*;

verus! {

/// An ASCII lower-case letter `a`..`z`.
pub open spec fn is_ascii_lower(c: char) -> bool {
    97 <= c as u32 <= 122
}

/// An ASCII upper-case letter `A`..`Z`.
pub open spec fn is_ascii_upper(c: char) -> bool {
    65 <= c as u32 <= 90
}

/// An ASCII digit `0`..`9`.
pub open spec fn is_ascii_digit(c: char) -> bool {
    48 <= c as u32 <= 57
}

/// A character legal inside a generated identifier: ASCII letter or digit.
pub open spec fn is_ident_char(c: char) -> bool {
    is_ascii_lower(c) || is_ascii_upper(c) || is_ascii_digit(c)
}

/// The ASCII upper-case counterpart of a character; other characters unchanged.
pub open spec fn spec_to_upper(c: char) -> char {
    if is_ascii_lower(c) {
        ((c as u32) - 32) as char
    } else {
        c
    }
}

/// The ASCII lower-case counterpart of a character; other characters unchanged.
pub open spec fn spec_to_lower(c: char) -> char {
    if is_ascii_upper(c) {
        ((c as u32) + 32) as char
    } else {
        c
    }
}

pub fn to_ascii_uppercase(c: char) -> (r: char)
    ensures
        r == spec_to_upper(c),
{
    let u = c as u32;
    if 97 <= u && u <= 122 {
        let b = (u - 32) as u8;
        b as char
    } else {
        c
    }
}

pub fn to_ascii_lowercase(c: char) -> (r: char)
    ensures
        r == spec_to_lower(c),
{
    let u = c as u32;
    if 65 <= u && u <= 90 {
        let b = (u + 32) as u8;
        b as char
    } else {
        c
    }
}

} // verus!
