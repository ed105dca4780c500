//! Writes under `/sys`, confined to an allowlist of roots.
use vstd::prelude::*;

use crate::rollback::{recorded, rollback_key, rollback_key_spec, Rollback};
use crate::text::{split, split_str, starts_with, str_eq, str_starts_with};
use crate::tuning::{TunableWrite, TuningError};

verus! {

/// Whether `p` lies under one of the sysfs roots that tuning may write to.
pub open spec fn allowed_root(p: Seq<char>) -> bool {
    ||| starts_with(p, "/sys/devices/system/cpu/"@)
    ||| starts_with(p, "/sys/block/"@)
    ||| starts_with(p, "/sys/firmware/acpi/"@)
    ||| starts_with(p, "/sys/kernel/mm/transparent_hugepage/"@)
    ||| starts_with(p, "/sys/kernel/mm/redhat_transparent_hugepage/"@)
}

/// Whether the path `p` stays in the allowlisted roots: it begins with one of them and no
/// `/`-separated component of it is `..` (which could lead out of the root).
pub open spec fn allowed_path(p: Seq<char>) -> bool {
    allowed_root(p) && !split(p, seq!['/']).contains(".."@)
}

/// A path under an allowlisted root with no `.` in it stays in the allowlisted roots.
pub proof fn lemma_dotless_path_allowed(p: Seq<char>)
    requires
        allowed_root(p),
        !p.contains('.'),
    ensures
        allowed_path(p),
{
    crate::text::lemma_split_piece_chars(p, seq!['/']);
    let parts = split(p, seq!['/']);
    if parts.contains(".."@) {
        let i = choose|i: int| 0 <= i < parts.len() && parts[i] == ".."@;
        assert(".."@.len() == 2 && ".."@[0] == '.') by {
            reveal_strlit("..");
        }
        assert(p.contains(parts[i][0]));
    }
}

fn has_parent_component(path: &str) -> (r: bool)
    ensures
        r == split(path@, seq!['/']).contains(".."@),
{
    let seps = ['/'];
    let parts = split_str(path, &seps);
    proof {
        assert(seps@ =~= seq!['/']);
        reveal_strlit("..");
    }
    let mut i: usize = 0;
    while i < parts.len()
        invariant
            parts.deep_view() == split(path@, seq!['/']),
            i <= parts@.len(),
            forall|j: int| 0 <= j < i ==> parts.deep_view()[j] != ".."@,
        decreases parts@.len() - i,
    {
        proof {
            assert(parts.deep_view()[i as int] == parts@[i as int]@);
        }
        if str_eq(parts[i].as_str(), "..") {
            proof {
                assert(parts.deep_view()[i as int] == ".."@);
            }
            return true;
        }
        i = i + 1;
    }
    false
}

/// Refuses a path that does not stay in the allowlisted sysfs roots: one that begins
/// with none of them, or that has a `..` component.
pub fn allowed_sysfs_path(path: &str) -> (r: Result<(), TuningError>)
    ensures
        r is Ok <==> allowed_path(path@),
        r matches Err(e) ==> e == TuningError::NotAllowlisted,
{
    if str_starts_with(path, "/sys/devices/system/cpu/") || str_starts_with(path, "/sys/block/")
        || str_starts_with(path, "/sys/firmware/acpi/") || str_starts_with(
        path,
        "/sys/kernel/mm/transparent_hugepage/",
    ) || str_starts_with(path, "/sys/kernel/mm/redhat_transparent_hugepage/") {
        if has_parent_component(path) {
            Err(TuningError::NotAllowlisted)
        } else {
            Ok(())
        }
    } else {
        Err(TuningError::NotAllowlisted)
    }
}

/// Records `original` under `key` for rollback and returns the write of `value` to `path`.
pub fn record_and_write(
    rollback: &mut Rollback,
    key: &str,
    path: &str,
    original: &str,
    value: &str,
) -> (w: TunableWrite)
    requires
        old(rollback).wf(),
    ensures
        final(rollback).wf(),
        final(rollback)@ == recorded(old(rollback)@, key@, original@),
        w.path@ == path@,
        w.value@ == value@,
{
    rollback.record_original(key, original);
    TunableWrite { path: path.to_owned(), value: value.to_owned() }
}

/// Writes `payload` to the sysfs file `path`, whose canonical form (with every link
/// resolved) is `canonical` and whose content is `original`: refused unless both the path
/// and its canonical form stay in the allowlisted roots; otherwise `original` is recorded
/// under `kind:canonical` and the write goes to `canonical`.
pub fn write_with_rollback(
    rollback: &mut Rollback,
    kind: &str,
    path: &str,
    canonical: &str,
    original: &str,
    payload: &str,
) -> (r: Result<TunableWrite, TuningError>)
    requires
        old(rollback).wf(),
    ensures
        final(rollback).wf(),
        match r {
            Ok(w) => allowed_path(path@) && allowed_path(canonical@) && final(rollback)@
                == recorded(old(rollback)@, rollback_key_spec(kind@, canonical@), original@)
                && w.path@ == canonical@ && w.value@ == payload@,
            Err(e) => !(allowed_path(path@) && allowed_path(canonical@)) && e
                == TuningError::NotAllowlisted && final(rollback)@ == old(rollback)@,
        },
        r matches Ok(w) ==> allowed_root(w.path@),
{
    allowed_sysfs_path(path)?;
    allowed_sysfs_path(canonical)?;
    let key = rollback_key(kind, canonical);
    Ok(record_and_write(rollback, key.as_str(), canonical, original, payload))
}

} // verus!
