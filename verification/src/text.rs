//! Comparison of texts without regard to the case of their ASCII letters.

use vstd::prelude::*;
use vstd::std_specs::iter::IteratorSpec;
use vstd::string::*;

verus! {

/// The lower-case form of an ASCII letter; any other character is left as it is.
pub open spec fn ascii_lower(c: char) -> char {
    if 'A' <= c && c <= 'Z' {
        ((c as u8) + 32) as u8 as char
    } else {
        c
    }
}

/// A text with its ASCII letters in lower case.
pub open spec fn ascii_fold(text: Seq<char>) -> Seq<char> {
    text.map_values(|c: char| ascii_lower(c))
}

/// The lower-case form of an ASCII letter; any other character as it is.
pub fn to_ascii_lower(c: char) -> (lower: char)
    ensures
        lower == ascii_lower(c),
{
    if 'A' <= c && c <= 'Z' {
        ((c as u8) + 32) as char
    } else {
        c
    }
}

/// Whether two texts are equal once the ASCII letters of both are in lower
/// case.
pub fn eq_ignore_ascii_case(left: &str, right: &str) -> (same: bool)
    ensures
        same == (ascii_fold(left@) == ascii_fold(right@)),
{
    broadcast use group_string_axioms;

    let mut rest_left = left.chars();
    let mut rest_right = right.chars();
    let ghost mut i: int = 0;
    loop
        invariant
            0 <= i <= left@.len(),
            i <= right@.len(),
            rest_left.remaining() == left@.skip(i),
            rest_right.remaining() == right@.skip(i),
            rest_left.obeys_prophetic_iter_laws(),
            rest_right.obeys_prophetic_iter_laws(),
            forall|k: int| 0 <= k < i ==> ascii_lower(left@[k]) == ascii_lower(right@[k]),
        decreases left@.len() - i,
    {
        let next_left = rest_left.next();
        let next_right = rest_right.next();
        match (next_left, next_right) {
            (None, None) => {
                proof {
                    assert(ascii_fold(left@) =~= ascii_fold(right@));
                }
                return true;
            },
            (Some(c), Some(d)) => {
                if to_ascii_lower(c) != to_ascii_lower(d) {
                    proof {
                        assert(ascii_fold(left@)[i] == ascii_lower(left@[i]));
                        assert(ascii_fold(right@)[i] == ascii_lower(right@[i]));
                    }
                    return false;
                }
                proof {
                    assert(left@.skip(i).drop_first() =~= left@.skip(i + 1));
                    assert(right@.skip(i).drop_first() =~= right@.skip(i + 1));
                    i = i + 1;
                }
            },
            _ => {
                proof {
                    assert(ascii_fold(left@).len() != ascii_fold(right@).len());
                }
                return false;
            },
        }
    }
}

} // verus!
