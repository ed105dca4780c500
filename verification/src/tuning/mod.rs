//! The tuning plugins: what each one decides to write, and where.
pub mod acpi;
pub mod cpu;
pub mod disk;
pub mod modifiers;
pub mod sysctl;
pub mod sysfs;
pub mod vm;

use vstd::prelude::*;

use crate::rollback::{restore_spec, rollback_key_spec, RestoreAction, RollbackKind};
use crate::text::concat;

verus! {

/// Why a tuning rule refused a key, a value or a path.
#[derive(Debug, Clone, Copy, PartialEq, Eq, Structural)]
pub enum TuningError {
    /// A sysctl key that is empty, too long, malformed or not made of `[A-Za-z0-9._-]`.
    InvalidSysctlKey,
    /// A sysctl option that TuneD deprecated (`base_reachable_time`, `retrans_time`).
    DeprecatedSysctlOption,
    /// A sysctl value that is empty or longer than 4096 characters.
    InvalidSysctlValue,
    /// A sysctl value holding a newline or a NUL character.
    SysctlValueControlChars,
    /// A `vm` option other than the dirty ratios and byte counts.
    UnsupportedVmOption,
    /// A `dirty_bytes` percentage that is not a decimal `u64`.
    InvalidVmPercentage,
    /// A block device name that is empty or not made of `[A-Za-z0-9_-]`.
    InvalidBlockDevice,
    /// A readahead setting without a number.
    MissingReadahead,
    /// A readahead setting whose number does not parse.
    InvalidReadahead,
    /// A readahead setting with a unit other than `s` (sectors).
    UnsupportedReadaheadUnit,
    /// A sysfs path outside the allowlisted roots.
    NotAllowlisted,
    /// A `scaling_governor` payload outside the governor allowlist.
    UnknownGovernor,
    /// An `energy_performance_preference` payload outside the EPP allowlist.
    UnknownEpp,
    /// A tunable file whose content spans more than one line.
    MultiLineValue,
    /// A `MemTotal` line that does not parse, or none at all.
    MemTotalUnavailable,
    /// A transparent hugepage value to restore on a system without the interface.
    HugepageInterfaceMissing,
}

/// A value to write to a tunable file.
#[derive(Debug)]
pub struct TunableWrite {
    pub path: String,
    pub value: String,
}

/// The write that restores a rollback entry: the file, the value, and whether the file lies
/// under the test root (the sysctl files do).
#[derive(Debug)]
pub struct RestoreWrite {
    pub path: String,
    pub value: String,
    pub under_root: bool,
}

/// What restoring `value` to `target` through the writer for `kind` writes, given the
/// transparent hugepage directory of the system (`None` where it has none): a sysctl key
/// through the sysctl writer; the hugepage settings to `enabled` and `defrag` in that
/// directory, the other `vm` options to their files; a sysfs file to itself.
pub open spec fn restore_write_spec(
    kind: RollbackKind,
    target: Seq<char>,
    value: Seq<char>,
    thp_dir: Option<Seq<char>>,
) -> Result<(Seq<char>, Seq<char>, bool), TuningError> {
    match kind {
        RollbackKind::Sysctl => match sysctl::write_raw_spec(target, value) {
            Ok((p, v)) => Ok((p, v, true)),
            Err(e) => Err(e),
        },
        RollbackKind::Vm => if target == "transparent_hugepages"@ || target
            == "transparent_hugepage.defrag"@ {
            match thp_dir {
                None => Err(TuningError::HugepageInterfaceMissing),
                Some(d) => Ok(
                    (
                        d + if target == "transparent_hugepages"@ {
                            "/enabled"@
                        } else {
                            "/defrag"@
                        },
                        value,
                        false,
                    ),
                ),
            }
        } else {
            match vm::vm_path_spec(target) {
                Ok(p) => Ok((p, value, false)),
                Err(e) => Err(e),
            }
        },
        RollbackKind::Sysfs => Ok((target, value, false)),
    }
}

/// The write that restores `action`, given the transparent hugepage directory of the system
/// (`None` where it has none); refused where the target has no file to restore to.
pub fn restore_write(action: &RestoreAction, thp_dir: Option<&str>) -> (r: Result<
    RestoreWrite,
    TuningError,
>)
    ensures
        match r {
            Ok(w) => restore_write_spec(
                action.kind,
                action.target@,
                action.value@,
                match thp_dir {
                    Some(d) => Some(d@),
                    None => None,
                },
            ) == Ok::<(Seq<char>, Seq<char>, bool), TuningError>((w.path@, w.value@, w.under_root)),
            Err(e) => restore_write_spec(
                action.kind,
                action.target@,
                action.value@,
                match thp_dir {
                    Some(d) => Some(d@),
                    None => None,
                },
            ) == Err::<(Seq<char>, Seq<char>, bool), TuningError>(e),
        },
{
    let target = action.target.as_str();
    match action.kind {
        RollbackKind::Sysctl => {
            let w = sysctl::write_raw(target, action.value.as_str())?;
            Ok(RestoreWrite { path: w.path, value: w.value, under_root: true })
        },
        RollbackKind::Vm => {
            let enabled = crate::text::str_eq(target, "transparent_hugepages");
            let defrag = crate::text::str_eq(target, "transparent_hugepage.defrag");
            if enabled || defrag {
                let d = match thp_dir {
                    Some(d) => d,
                    None => return Err(TuningError::HugepageInterfaceMissing),
                };
                let path = if enabled {
                    concat(d, "/enabled")
                } else {
                    concat(d, "/defrag")
                };
                Ok(RestoreWrite { path, value: action.value.clone(), under_root: false })
            } else {
                let path = vm::vm_path(target)?;
                Ok(RestoreWrite { path, value: action.value.clone(), under_root: false })
            }
        },
        RollbackKind::Sysfs => Ok(
            RestoreWrite { path: action.target.clone(), value: action.value.clone(), under_root: false },
        ),
    }
}

/// Every entry a plugin records can be restored: its key splits back into its writer and
/// target, and every `vm` entry (a dirty page option, or a hugepage setting on a system
/// that has the interface) and every sysfs entry has a file to restore to.
pub proof fn lemma_recorded_entries_restore(
    kind: RollbackKind,
    target: Seq<char>,
    value: Seq<char>,
    thp_dir: Seq<char>,
)
    requires
        kind == RollbackKind::Vm ==> (vm::vm_option(target) || target == "transparent_hugepages"@
            || target == "transparent_hugepage.defrag"@),
    ensures
        restore_spec(rollback_key_spec(kind_name(kind), target), value) == Ok::<
            (RollbackKind, Seq<char>, Seq<char>),
            crate::rollback::RollbackError,
        >((kind, target, value)),
        kind != RollbackKind::Sysctl ==> restore_write_spec(kind, target, value, Some(thp_dir)) is Ok,
{
    let name = kind_name(kind);
    let key = rollback_key_spec(name, target);
    reveal_strlit("sysctl");
    reveal_strlit("vm");
    reveal_strlit("sysfs");
    reveal_strlit(":");
    let n = name.len() as int;
    assert(key[n] == ':');
    assert forall|j: int| 0 <= j < n implies key[j] != ':' by {
        assert(key[j] == name[j]);
    }
    assert(key.contains(':'));
    let w = choose|w: int|
        0 <= w < key.len() && key[w] == ':' && forall|j: int| 0 <= j < w ==> key[j] != ':';
    assert(w == n) by {
        if w < n {
            assert(key[w] != ':');
        }
        if w > n {
            assert(key[n] != ':');
        }
    }
    assert(key.subrange(0, n) =~= name);
    assert(key.subrange(n + 1, key.len() as int) =~= target);
    if kind == RollbackKind::Vm && vm::vm_option(target) {
        assert(target != "transparent_hugepages"@) by {
            reveal_strlit("transparent_hugepages");
            reveal_strlit("dirty_ratio");
            reveal_strlit("dirty_background_ratio");
            reveal_strlit("dirty_bytes");
            reveal_strlit("dirty_background_bytes");
            assert(target[0] == 'd');
        }
        assert(target != "transparent_hugepage.defrag"@) by {
            reveal_strlit("transparent_hugepage.defrag");
            reveal_strlit("dirty_ratio");
            reveal_strlit("dirty_background_ratio");
            reveal_strlit("dirty_bytes");
            reveal_strlit("dirty_background_bytes");
            assert(target[0] == 'd');
        }
    }
}

/// The name under which a writer's entries are recorded.
pub open spec fn kind_name(kind: RollbackKind) -> Seq<char> {
    match kind {
        RollbackKind::Sysctl => "sysctl"@,
        RollbackKind::Vm => "vm"@,
        RollbackKind::Sysfs => "sysfs"@,
    }
}

} // verus!
