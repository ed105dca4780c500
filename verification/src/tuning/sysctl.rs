//! The `sysctl` plugin: keys under `/proc/sys`, with TuneD's relative assignments.
use vstd::prelude::*;

use crate::rollback::{recorded, rollback_key, rollback_key_spec, Rollback};
use crate::text::{
    byte_len, char_is_ascii_alnum, chars_of, concat, contains_seq, is_ascii_alnum, split, split_str,
    str_contains, str_eq, str_has_char, trim,
};
use crate::tuning::modifiers::{
    parse_assignment, parse_assignment_spec, read_trimmed, resolve_numeric_assignment, resolve_spec,
};
use crate::tuning::{TunableWrite, TuningError};

verus! {

/// A character allowed in a sysctl key.
pub open spec fn is_key_char(c: char) -> bool {
    is_ascii_alnum(c) || c == '.' || c == '_' || c == '-'
}

/// A sysctl key is non-empty, at most 256 bytes, neither starts nor ends with `.`, has no
/// `..` and is made of `[A-Za-z0-9._-]`.
pub open spec fn sysctl_key_wellformed(k: Seq<char>) -> bool {
    &&& k.len() > 0
    &&& byte_len(k) <= 256
    &&& k[0] != '.'
    &&& k.last() != '.'
    &&& !contains_seq(k, ".."@)
    &&& forall|i: int| 0 <= i < k.len() ==> is_key_char(#[trigger] k[i])
}

/// The last dot-separated component of a key.
pub open spec fn sysctl_leaf(k: Seq<char>) -> Seq<char> {
    split(k, seq!['.']).last()
}

/// The sysctl options that TuneD refuses to set.
pub open spec fn deprecated_option(leaf: Seq<char>) -> bool {
    leaf == "base_reachable_time"@ || leaf == "retrans_time"@
}

/// `k` with every `.` turned into `/`.
pub open spec fn dots_to_slashes(k: Seq<char>) -> Seq<char> {
    k.map_values(|c: char| if c == '.' { '/' } else { c })
}

/// The file under `/proc/sys` for `key`, or why there is none.
pub open spec fn sysctl_path_spec(key: Seq<char>) -> Result<Seq<char>, TuningError> {
    if !sysctl_key_wellformed(key) {
        Err(TuningError::InvalidSysctlKey)
    } else if deprecated_option(sysctl_leaf(key)) {
        Err(TuningError::DeprecatedSysctlOption)
    } else {
        Ok("/proc/sys/"@ + dots_to_slashes(key))
    }
}

fn all_key_chars(key: &str) -> (r: bool)
    ensures
        r == forall|i: int| 0 <= i < key@.len() ==> is_key_char(#[trigger] key@[i]),
{
    let cs = chars_of(key);
    let mut i: usize = 0;
    while i < cs.len()
        invariant
            cs@ == key@,
            i <= cs@.len(),
            forall|j: int| 0 <= j < i ==> is_key_char(#[trigger] key@[j]),
        decreases cs@.len() - i,
    {
        let c = cs[i];
        if !(char_is_ascii_alnum(c) || c == '.' || c == '_' || c == '-') {
            assert(!is_key_char(key@[i as int]));
            return false;
        }
        i = i + 1;
    }
    true
}

fn replace_dots(key: &str) -> (r: String)
    ensures
        r@ == dots_to_slashes(key@),
{
    let cs = chars_of(key);
    let mut out = String::new();
    let mut i: usize = 0;
    proof {
        reveal_strlit("/");
    }
    while i < cs.len()
        invariant
            cs@ == key@,
            i <= cs@.len(),
            out@ == dots_to_slashes(key@.take(i as int)),
        decreases cs@.len() - i,
    {
        proof {
            reveal_strlit("/");
        }
        if cs[i] == '.' {
            out.append("/");
        } else {
            out.append(key.substring_char(i, i + 1));
        }
        proof {
            assert(key@.subrange(i as int, i + 1) =~= seq![key@[i as int]]);
            assert(dots_to_slashes(key@.take(i + 1)) =~= dots_to_slashes(key@.take(i as int))
                + seq![if key@[i as int] == '.' { '/' } else { key@[i as int] }]);
        }
        i = i + 1;
    }
    proof {
        assert(key@.take(cs@.len() as int) =~= key@);
    }
    out
}

/// The file under `/proc/sys` that holds `key` (before the test root prefix is applied).
pub fn sysctl_path(key: &str) -> (r: Result<String, TuningError>)
    ensures
        match r {
            Ok(p) => sysctl_path_spec(key@) == Ok::<Seq<char>, TuningError>(p@),
            Err(e) => sysctl_path_spec(key@) == Err::<Seq<char>, TuningError>(e),
        },
{
    let cs = chars_of(key);
    let n = cs.len();
    if n == 0 || key.len() > 256 || cs[0] == '.' || cs[n - 1] == '.' || str_contains(key, "..")
        || !all_key_chars(key) {
        return Err(TuningError::InvalidSysctlKey);
    }
    let seps = ['.'];
    let parts = split_str(key, &seps);
    proof {
        assert(seps@ =~= seq!['.']);
        crate::text::lemma_split_nonempty(key@, seq!['.']);
    }
    let leaf = parts[parts.len() - 1].as_str();
    proof {
        assert(parts.deep_view()[parts@.len() - 1] == leaf@);
    }
    if str_eq(leaf, "base_reachable_time") || str_eq(leaf, "retrans_time") {
        return Err(TuningError::DeprecatedSysctlOption);
    }
    let tail = replace_dots(key);
    Ok(concat("/proc/sys/", tail.as_str()))
}

/// The current value of `key`, given the content of the file that [`sysctl_path`] names for
/// it: refused as `sysctl_path` refuses the key; otherwise as [`read_trimmed`] reads the
/// content (trimmed, and refused where it spans several lines).
pub fn read(key: &str, content: &str) -> (r: Result<String, TuningError>)
    ensures
        match r {
            Ok(v) => sysctl_path_spec(key@) is Ok && v@ == trim(content@) && !trim(content@).contains(
                '\n',
            ),
            Err(e) => sysctl_path_spec(key@) == Err::<Seq<char>, TuningError>(e) || (
            sysctl_path_spec(key@) is Ok && trim(content@).contains('\n') && e
                == TuningError::MultiLineValue),
        },
{
    sysctl_path(key)?;
    read_trimmed(content)
}

/// Why a value cannot be written to a sysctl key, if it cannot.
pub open spec fn validate_value_spec(value: Seq<char>) -> Option<TuningError> {
    if value.len() == 0 || byte_len(value) > 4096 {
        Some(TuningError::InvalidSysctlValue)
    } else if value.contains('\n') || value.contains('\0') {
        Some(TuningError::SysctlValueControlChars)
    } else {
        None
    }
}

/// A sysctl value is non-empty, at most 4096 bytes, and holds no newline or NUL.
pub fn validate_value(value: &str) -> (r: Result<(), TuningError>)
    ensures
        match r {
            Ok(_) => validate_value_spec(value@) is None,
            Err(e) => validate_value_spec(value@) == Some(e),
        },
{
    if value.is_empty() || value.len() > 4096 {
        return Err(TuningError::InvalidSysctlValue);
    }
    if str_has_char(value, '\n') || str_has_char(value, '\0') {
        return Err(TuningError::SysctlValueControlChars);
    }
    Ok(())
}

/// Where and what `write_raw(key, value)` writes, or why it refuses.
pub open spec fn write_raw_spec(key: Seq<char>, value: Seq<char>) -> Result<(Seq<char>, Seq<char>), TuningError> {
    match validate_value_spec(value) {
        Some(e) => Err(e),
        None => match sysctl_path_spec(key) {
            Ok(p) => Ok((p, value)),
            Err(e) => Err(e),
        },
    }
}

/// Checks a sysctl write: the value first, then the key.
pub fn write_raw(key: &str, value: &str) -> (r: Result<TunableWrite, TuningError>)
    ensures
        match r {
            Ok(w) => write_raw_spec(key@, value@) == Ok::<(Seq<char>, Seq<char>), TuningError>(
                (w.path@, w.value@),
            ),
            Err(e) => write_raw_spec(key@, value@) == Err::<(Seq<char>, Seq<char>), TuningError>(e),
        },
{
    validate_value(value)?;
    let path = sysctl_path(key)?;
    Ok(TunableWrite { path, value: value.to_owned() })
}

/// Applies the profile value `raw_value` to `key`, whose current value is `current`: the
/// value is kept (`Ok(None)`) where the relative assignment says so; otherwise the current
/// value is recorded for rollback (unless one is recorded already) and the write is checked.
pub fn apply_option(rollback: &mut Rollback, key: &str, raw_value: &str, current: &str) -> (r:
    Result<Option<TunableWrite>, TuningError>)
    requires
        old(rollback).wf(),
    ensures
        final(rollback).wf(),
        ({
            let a = parse_assignment_spec(raw_value@);
            match resolve_spec(a.op, a.target, current@) {
                None => r == Ok::<Option<TunableWrite>, TuningError>(None) && final(rollback)@ == old(
                    rollback,
                )@,
                Some(v) => final(rollback)@ == recorded(
                    old(rollback)@,
                    rollback_key_spec("sysctl"@, key@),
                    current@,
                ) && match r {
                    Ok(Some(w)) => write_raw_spec(key@, v) == Ok::<
                        (Seq<char>, Seq<char>),
                        TuningError,
                    >((w.path@, w.value@)),
                    Ok(None) => false,
                    Err(e) => write_raw_spec(key@, v) == Err::<(Seq<char>, Seq<char>), TuningError>(e),
                },
            }
        }),
{
    let assignment = parse_assignment(raw_value);
    let resolved = match resolve_numeric_assignment(&assignment, current) {
        Ok(Some(v)) => v,
        Ok(None) => return Ok(None),
        Err(e) => return Err(e),
    };
    let k = rollback_key("sysctl", key);
    rollback.record_original(k.as_str(), current);
    let w = write_raw(key, resolved.as_str())?;
    Ok(Some(w))
}

} // verus!
