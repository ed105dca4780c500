//! Profile name validation.
use vstd::prelude::*;

use crate::text::{byte_len, chars_of, char_is_ascii_alnum, is_ascii_alnum};

verus! {

/// A character allowed in a profile name: ASCII letters and digits, `_` and `-`.
pub open spec fn is_name_char(c: char) -> bool {
    is_ascii_alnum(c) || c == '_' || c == '-'
}

/// A profile name is non-empty, at most 64 bytes long and made of `[A-Za-z0-9_-]`.
pub open spec fn valid_profile_name(name: Seq<char>) -> bool {
    &&& name.len() > 0
    &&& byte_len(name) <= 64
    &&& forall|i: int| 0 <= i < name.len() ==> is_name_char(#[trigger] name[i])
}

/// Whether every character of `s` is allowed in a profile name.
pub fn all_name_chars(s: &str) -> (r: bool)
    ensures
        r == forall|i: int| 0 <= i < s@.len() ==> is_name_char(#[trigger] s@[i]),
{
    let cs = chars_of(s);
    let mut i: usize = 0;
    while i < cs.len()
        invariant
            cs@ == s@,
            i <= cs@.len(),
            forall|j: int| 0 <= j < i ==> is_name_char(#[trigger] s@[j]),
        decreases cs@.len() - i,
    {
        let c = cs[i];
        if !(char_is_ascii_alnum(c) || c == '_' || c == '-') {
            assert(!is_name_char(s@[i as int]));
            return false;
        }
        i = i + 1;
    }
    true
}

/// Whether `name` may name a profile: it is also a directory name and a file's content, so
/// it must not hold `/`, `.` or whitespace.
pub fn validate_profile_name(name: &str) -> (r: bool)
    ensures
        r == valid_profile_name(name@),
{
    !name.is_empty() && name.len() <= 64 && all_name_chars(name)
}

} // verus!
