//! The `vm` plugin: dirty page thresholds (also as a percentage of memory) and transparent
//! hugepages.
use vstd::prelude::*;

use crate::number::{decimal, parse_u64, parse_u64_spec, u64_to_string};
use crate::rollback::{recorded, rollback_key, rollback_key_spec, Rollback};
use crate::text::{
    chars_of, concat, contains_seq, split, split_str, starts_with, str_contains, str_eq,
    str_starts_with, trim, trim_str,
};
use crate::tuning::modifiers::{parse_assignment, parse_assignment_spec, resolve_numeric_assignment, resolve_spec};
use crate::tuning::sysfs::record_and_write;
use crate::tuning::{TunableWrite, TuningError};

verus! {

/// The `vm` options that are plain files under `/proc/sys/vm`.
pub open spec fn vm_option(o: Seq<char>) -> bool {
    ||| o == "dirty_ratio"@
    ||| o == "dirty_background_ratio"@
    ||| o == "dirty_bytes"@
    ||| o == "dirty_background_bytes"@
}

/// The values that `transparent_hugepages` accepts.
pub open spec fn thp_value(v: Seq<char>) -> bool {
    v == "always"@ || v == "never"@ || v == "madvise"@
}

fn is_vm_option(option: &str) -> (r: bool)
    ensures
        r == vm_option(option@),
{
    str_eq(option, "dirty_ratio") || str_eq(option, "dirty_background_ratio") || str_eq(
        option,
        "dirty_bytes",
    ) || str_eq(option, "dirty_background_bytes")
}

/// The file of a `vm` option, or why there is none.
pub open spec fn vm_path_spec(option: Seq<char>) -> Result<Seq<char>, TuningError> {
    if vm_option(option) {
        Ok("/proc/sys/vm/"@ + option)
    } else {
        Err(TuningError::UnsupportedVmOption)
    }
}

/// The file under `/proc/sys/vm` of a dirty page option.
pub fn vm_path(option: &str) -> (r: Result<String, TuningError>)
    ensures
        match r {
            Ok(p) => vm_path_spec(option@) == Ok::<Seq<char>, TuningError>(p@),
            Err(e) => vm_path_spec(option@) == Err::<Seq<char>, TuningError>(e),
        },
{
    if !is_vm_option(option) {
        return Err(TuningError::UnsupportedVmOption);
    }
    Ok(concat("/proc/sys/vm/", option))
}

/// What a `vm` profile option asks the plugin to do.
#[derive(Debug)]
pub enum VmRoute {
    /// Set `transparent_hugepage/enabled` to the value.
    Hugepages(String),
    /// A `transparent_hugepages` value other than `always`, `never`, `madvise`: skipped.
    UnsupportedHugepages(String),
    /// Set `transparent_hugepage/defrag` to the value.
    HugepageDefrag(String),
    /// Set the byte count to this percentage of total memory.
    Percent(u64),
    /// Apply the value to the option's file under `/proc/sys/vm`.
    Sysctl,
    /// An option the plugin does not know: skipped.
    Unsupported,
}

/// Whether `r` is the route that [`apply_option`] takes for `option` and `raw_value`.
pub open spec fn route_matches(option: Seq<char>, raw_value: Seq<char>, r: Result<VmRoute, TuningError>) -> bool {
    let v = trim(raw_value);
    if option == "transparent_hugepages"@ || option == "transparent_hugepage"@ {
        if thp_value(v) {
            r matches Ok(VmRoute::Hugepages(x)) && x@ == v
        } else {
            r matches Ok(VmRoute::UnsupportedHugepages(x)) && x@ == v
        }
    } else if option == "transparent_hugepage.defrag"@ {
        r matches Ok(VmRoute::HugepageDefrag(x)) && x@ == v
    } else if (option == "dirty_bytes"@ || option == "dirty_background_bytes"@) && v.len() > 0
        && v.last() == '%' {
        match parse_u64_spec(strip_percents(v)) {
            Some(p) => r matches Ok(VmRoute::Percent(q)) && q == p,
            None => r == Err::<VmRoute, TuningError>(TuningError::InvalidVmPercentage),
        }
    } else if vm_option(option) {
        r matches Ok(VmRoute::Sysctl)
    } else {
        r matches Ok(VmRoute::Unsupported)
    }
}

/// The accepted `transparent_hugepages` values are exactly `always`, `never` and
/// `madvise`: for each of them (trimmed) the option is applied with that value, and any
/// other value is skipped as unsupported.
pub proof fn lemma_hugepage_values(option: Seq<char>, raw_value: Seq<char>, r: Result<VmRoute, TuningError>)
    requires
        option == "transparent_hugepages"@ || option == "transparent_hugepage"@,
        route_matches(option, raw_value, r),
    ensures
        ({
            let v = trim(raw_value);
            if v == "always"@ || v == "never"@ || v == "madvise"@ {
                r matches Ok(VmRoute::Hugepages(x)) && x@ == v
            } else {
                r matches Ok(VmRoute::UnsupportedHugepages(x)) && x@ == v
            }
        }),
{
}

/// `s` without any trailing `%` (Rust's `trim_end_matches('%')`).
pub open spec fn strip_percents(s: Seq<char>) -> Seq<char>
    decreases s.len(),
{
    if s.len() > 0 && s.last() == '%' {
        strip_percents(s.drop_last())
    } else {
        s
    }
}

fn strip_percents_str(s: &str) -> (r: &str)
    ensures
        r@ == strip_percents(s@),
{
    let cs = chars_of(s);
    let mut n = cs.len();
    proof {
        assert(s@.subrange(0, n as int) =~= s@);
    }
    while n > 0 && cs[n - 1] == '%'
        invariant
            cs@ == s@,
            n <= cs@.len(),
            strip_percents(s@) == strip_percents(s@.subrange(0, n as int)),
        decreases n,
    {
        proof {
            assert(s@.subrange(0, n as int).drop_last() =~= s@.subrange(0, n - 1));
        }
        n = n - 1;
    }
    proof {
        assert(s@.subrange(0, cs@.len() as int) =~= s@);
    }
    s.substring_char(0, n)
}

/// Decides how the `vm` option `option` is applied with the profile value `raw_value`.
pub fn apply_option(option: &str, raw_value: &str) -> (r: Result<VmRoute, TuningError>)
    ensures
        route_matches(option@, raw_value@, r),
{
    let v = trim_str(raw_value);
    if str_eq(option, "transparent_hugepages") || str_eq(option, "transparent_hugepage") {
        if str_eq(v.as_str(), "always") || str_eq(v.as_str(), "never") || str_eq(v.as_str(), "madvise") {
            return Ok(VmRoute::Hugepages(v));
        } else {
            return Ok(VmRoute::UnsupportedHugepages(v));
        }
    }
    if str_eq(option, "transparent_hugepage.defrag") {
        return Ok(VmRoute::HugepageDefrag(v));
    }
    let cs = chars_of(v.as_str());
    if (str_eq(option, "dirty_bytes") || str_eq(option, "dirty_background_bytes")) && cs.len() > 0
        && cs[cs.len() - 1] == '%' {
        return match parse_u64(strip_percents_str(v.as_str())) {
            Some(p) => Ok(VmRoute::Percent(p)),
            None => Err(TuningError::InvalidVmPercentage),
        };
    }
    if is_vm_option(option) {
        Ok(VmRoute::Sysctl)
    } else {
        Ok(VmRoute::Unsupported)
    }
}

/// The route of every option, in order (the caller applies them in turn and stops at the
/// first failure).
pub fn apply_options(options: &Vec<(String, String)>) -> (r: Vec<Result<VmRoute, TuningError>>)
    ensures
        r@.len() == options@.len(),
        forall|i: int|
            0 <= i < r@.len() ==> route_matches(
                options@[i].0@,
                options@[i].1@,
                #[trigger] r@[i],
            ),
{
    let mut out: Vec<Result<VmRoute, TuningError>> = Vec::new();
    let mut i: usize = 0;
    while i < options.len()
        invariant
            i <= options@.len(),
            out@.len() == i,
            forall|j: int|
                0 <= j < i ==> route_matches(options@[j].0@, options@[j].1@, #[trigger] out@[j]),
        decreases options@.len() - i,
    {
        let route = apply_option(options[i].0.as_str(), options[i].1.as_str());
        out.push(route);
        i = i + 1;
    }
    out
}

/// Applies the profile value `raw_value` to the dirty page option `option`, whose current
/// value is `current`: skipped (`None`) for an option without a file or where the relative
/// assignment keeps the current value; otherwise `current` is recorded under `vm:option`
/// and the write goes to the option's file.
pub fn apply_vm_sysctl(rollback: &mut Rollback, option: &str, raw_value: &str, current: &str) -> (r:
    Option<TunableWrite>)
    requires
        old(rollback).wf(),
    ensures
        final(rollback).wf(),
        ({
            let a = parse_assignment_spec(raw_value@);
            match (vm_path_spec(option@), resolve_spec(a.op, a.target, current@)) {
                (Ok(p), Some(v)) => r matches Some(w) && w.path@ == p && w.value@ == v
                    && final(rollback)@ == recorded(
                    old(rollback)@,
                    rollback_key_spec("vm"@, option@),
                    current@,
                ),
                _ => r is None && final(rollback)@ == old(rollback)@,
            }
        }),
{
    let path = match vm_path(option) {
        Ok(p) => p,
        Err(_) => return None,
    };
    let assignment = parse_assignment(raw_value);
    let resolved = match resolve_numeric_assignment(&assignment, current) {
        Ok(Some(v)) => v,
        _ => return None,
    };
    let key = rollback_key("vm", option);
    Some(record_and_write(rollback, key.as_str(), path.as_str(), current, resolved.as_str()))
}

/// The byte count for `percent` percent of `total` bytes, saturating on overflow.
pub open spec fn percent_bytes_spec(total: u64, percent: u64) -> int {
    let product = total * percent;
    (if product > u64::MAX { u64::MAX as int } else { product }) / 100
}

/// `total.saturating_mul(percent) / 100`, as a decimal string.
pub fn percent_bytes(total: u64, percent: u64) -> (r: String)
    ensures
        r@ == decimal(percent_bytes_spec(total, percent) as nat),
{
    let product = match total.checked_mul(percent) {
        Some(p) => p,
        None => u64::MAX,
    };
    let bytes = product / 100;
    u64_to_string(bytes)
}

/// Applies `percent` percent of the memory size `total` (in bytes) to the byte count option
/// `option`, whose current value is `current`: as [`apply_vm_sysctl`] with that byte count
/// as the value.
pub fn apply_percent_option(
    rollback: &mut Rollback,
    option: &str,
    percent: u64,
    total: u64,
    current: &str,
) -> (r: Option<TunableWrite>)
    requires
        old(rollback).wf(),
    ensures
        final(rollback).wf(),
        ({
            let raw = decimal(percent_bytes_spec(total, percent) as nat);
            let a = parse_assignment_spec(raw);
            match (vm_path_spec(option@), resolve_spec(a.op, a.target, current@)) {
                (Ok(p), Some(v)) => r matches Some(w) && w.path@ == p && w.value@ == v
                    && final(rollback)@ == recorded(
                    old(rollback)@,
                    rollback_key_spec("vm"@, option@),
                    current@,
                ),
                _ => r is None && final(rollback)@ == old(rollback)@,
            }
        }),
{
    let bytes = percent_bytes(total, percent);
    apply_vm_sysctl(rollback, option, bytes.as_str(), current)
}

/// Whether the kernel command line fixes transparent hugepages (the profile value is then
/// skipped).
pub fn thp_set_on_cmdline(cmdline: &str) -> (r: bool)
    ensures
        r == contains_seq(cmdline@, "transparent_hugepage="@),
{
    str_contains(cmdline, "transparent_hugepage=")
}

/// Sets `transparent_hugepage/enabled` (at `path`, currently `current`) to `value`,
/// recording `current` under `vm:transparent_hugepages`.
pub fn apply_transparent_hugepages(rollback: &mut Rollback, path: &str, current: &str, value: &str) -> (w:
    TunableWrite)
    requires
        old(rollback).wf(),
    ensures
        final(rollback).wf(),
        final(rollback)@ == recorded(
            old(rollback)@,
            rollback_key_spec("vm"@, "transparent_hugepages"@),
            current@,
        ),
        w.path@ == path@,
        w.value@ == value@,
{
    let key = rollback_key("vm", "transparent_hugepages");
    record_and_write(rollback, key.as_str(), path, current, value)
}

/// Sets `transparent_hugepage/defrag` (at `path`, currently `current`) to `raw_value`
/// trimmed, recording `current` under `vm:transparent_hugepage.defrag`.
pub fn apply_transparent_hugepage_defrag(
    rollback: &mut Rollback,
    path: &str,
    current: &str,
    raw_value: &str,
) -> (w: TunableWrite)
    requires
        old(rollback).wf(),
    ensures
        final(rollback).wf(),
        final(rollback)@ == recorded(
            old(rollback)@,
            rollback_key_spec("vm"@, "transparent_hugepage.defrag"@),
            current@,
        ),
        w.path@ == path@,
        w.value@ == trim(raw_value@),
{
    let key = rollback_key("vm", "transparent_hugepage.defrag");
    let v = trim_str(raw_value);
    record_and_write(rollback, key.as_str(), path, current, v.as_str())
}

/// `s` without any trailing ` kB` (Rust's `trim_end_matches(" kB")`).
pub open spec fn strip_kb(s: Seq<char>) -> Seq<char>
    decreases s.len(),
{
    if s.len() >= 3 && s.subrange(s.len() - 3, s.len() as int) == " kB"@ {
        strip_kb(s.subrange(0, s.len() - 3))
    } else {
        s
    }
}

fn strip_kb_str(s: &str) -> (r: &str)
    ensures
        r@ == strip_kb(s@),
{
    let cs = chars_of(s);
    let mut n = cs.len();
    proof {
        assert(s@.subrange(0, n as int) =~= s@);
        reveal_strlit(" kB");
    }
    while n >= 3 && cs[n - 3] == ' ' && cs[n - 2] == 'k' && cs[n - 1] == 'B'
        invariant
            cs@ == s@,
            n <= cs@.len(),
            strip_kb(s@) == strip_kb(s@.subrange(0, n as int)),
            " kB"@ == seq![' ', 'k', 'B'],
        decreases n,
    {
        proof {
            let t = s@.subrange(0, n as int);
            assert(t.subrange(t.len() - 3, t.len() as int) =~= " kB"@);
            assert(t.subrange(0, t.len() - 3) =~= s@.subrange(0, n - 3));
        }
        n = n - 3;
    }
    proof {
        let t = s@.subrange(0, n as int);
        if t.len() >= 3 {
            assert(t.subrange(t.len() - 3, t.len() as int) != " kB"@) by {
                if t.subrange(t.len() - 3, t.len() as int) == " kB"@ {
                    assert(t.subrange(t.len() - 3, t.len() as int)[0] == cs@[n - 3]);
                    assert(t.subrange(t.len() - 3, t.len() as int)[1] == cs@[n - 2]);
                    assert(t.subrange(t.len() - 3, t.len() as int)[2] == cs@[n - 1]);
                }
            }
        }
    }
    s.substring_char(0, n)
}

/// The first of `lines` that begins with `MemTotal:`, if any.
pub open spec fn mem_total_line(lines: Seq<Seq<char>>) -> Option<Seq<char>>
    decreases lines.len(),
{
    if lines.len() == 0 {
        None
    } else if starts_with(lines[0], "MemTotal:"@) {
        Some(lines[0])
    } else {
        mem_total_line(lines.drop_first())
    }
}

/// The memory size in bytes that the `/proc/meminfo` text `meminfo` reports: the number on
/// its first `MemTotal:` line (trimmed, without its ` kB` unit) times 1024.
pub open spec fn total_memory_spec(meminfo: Seq<char>) -> Option<int> {
    match mem_total_line(split(meminfo, seq!['\n'])) {
        None => None,
        Some(l) => match parse_u64_spec(strip_kb(trim(l.subrange(9, l.len() as int)))) {
            Some(kb) => if kb * 1024 <= u64::MAX {
                Some(kb * 1024)
            } else {
                None
            },
            None => None,
        },
    }
}

/// Reads the memory size from the content of `/proc/meminfo`; refused where no `MemTotal:`
/// line holds a number of kB that fits in a `u64` once counted in bytes.
pub fn total_memory_bytes(meminfo: &str) -> (r: Result<u64, TuningError>)
    ensures
        match r {
            Ok(b) => total_memory_spec(meminfo@) == Some(b as int),
            Err(e) => total_memory_spec(meminfo@) is None && e == TuningError::MemTotalUnavailable,
        },
{
    let seps = ['\n'];
    let lines = split_str(meminfo, &seps);
    proof {
        assert(seps@ =~= seq!['\n']);
        reveal_strlit("MemTotal:");
    }
    let ghost all = lines.deep_view();
    proof {
        assert(all.skip(0) =~= all);
    }
    let mut i: usize = 0;
    while i < lines.len()
        invariant
            all == lines.deep_view(),
            all == split(meminfo@, seq!['\n']),
            i <= lines@.len(),
            mem_total_line(all) == mem_total_line(all.skip(i as int)),
            "MemTotal:"@.len() == 9,
        decreases lines@.len() - i,
    {
        let line = lines[i].as_str();
        proof {
            assert(all[i as int] == line@);
            assert(all.skip(i as int).drop_first() =~= all.skip(i + 1));
            assert(all.skip(i as int)[0] == line@);
        }
        if str_starts_with(line, "MemTotal:") {
            let n = chars_of(line).len();
            let rest = line.substring_char(9, n);
            let t = trim_str(rest);
            let kb = match parse_u64(strip_kb_str(t.as_str())) {
                Some(kb) => kb,
                None => return Err(TuningError::MemTotalUnavailable),
            };
            return match kb.checked_mul(1024) {
                Some(b) => Ok(b),
                None => Err(TuningError::MemTotalUnavailable),
            };
        }
        i = i + 1;
    }
    proof {
        assert(all.skip(i as int) =~= Seq::<Seq<char>>::empty());
    }
    Err(TuningError::MemTotalUnavailable)
}

} // verus!
