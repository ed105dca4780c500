//! The `cpu` plugin: scaling governor and energy performance preference.
use vstd::prelude::*;

use crate::number::all_digits;
use crate::rollback::{recorded, rollback_key_spec, Rollback};
use crate::text::{chars_of, split, split_str, starts_with, str_eq, str_starts_with};
use crate::tuning::modifiers::{choice_candidates, resolve_choice};
use crate::tuning::sysfs::{allowed_path, write_with_rollback};
use crate::tuning::{TunableWrite, TuningError};

verus! {

/// The governors that TuneD profiles may ask for.
pub open spec fn allowed_governor(g: Seq<char>) -> bool {
    ||| g == "performance"@
    ||| g == "powersave"@
    ||| g == "ondemand"@
    ||| g == "conservative"@
    ||| g == "schedutil"@
    ||| g == "userspace"@
}

/// The energy performance preferences that TuneD profiles may ask for.
pub open spec fn allowed_epp(v: Seq<char>) -> bool {
    ||| v == "default"@
    ||| v == "performance"@
    ||| v == "balance_performance"@
    ||| v == "balance_power"@
    ||| v == "power"@
}

/// Whether `governor` is on the governor allowlist.
pub fn is_allowed_governor(governor: &str) -> (r: bool)
    ensures
        r == allowed_governor(governor@),
{
    str_eq(governor, "performance") || str_eq(governor, "powersave") || str_eq(
        governor,
        "ondemand",
    ) || str_eq(governor, "conservative") || str_eq(governor, "schedutil") || str_eq(
        governor,
        "userspace",
    )
}

/// Whether `value` is on the energy performance preference allowlist.
pub fn is_allowed_epp(value: &str) -> (r: bool)
    ensures
        r == allowed_epp(value@),
{
    str_eq(value, "default") || str_eq(value, "performance") || str_eq(
        value,
        "balance_performance",
    ) || str_eq(value, "balance_power") || str_eq(value, "power")
}


/// `r` is the first of `cands` that `p` accepts, or `None` when `p` accepts none.
pub open spec fn first_choice(cands: Seq<Seq<char>>, r: Option<Seq<char>>, p: spec_fn(Seq<char>) -> bool) -> bool {
    match r {
        Some(c) => exists|i: int|
            0 <= i < cands.len() && cands[i] == c && p(c) && forall|j: int|
                0 <= j < i ==> !p(#[trigger] cands[j]),
        None => forall|j: int| 0 <= j < cands.len() ==> !p(#[trigger] cands[j]),
    }
}

/// The view of an optional string.
pub open spec fn opt_str(o: Option<String>) -> Option<Seq<char>> {
    match o {
        Some(s) => Some(s@),
        None => None,
    }
}

/// The governor to set for the profile value `raw`: its first `|` alternative on the
/// governor allowlist.
pub fn apply_governor(raw: &str) -> (r: Option<String>)
    ensures
        first_choice(choice_candidates(raw@), opt_str(r), |g: Seq<char>| allowed_governor(g)),
{
    resolve_choice(raw, is_allowed_governor)
}

/// The energy performance preference to set for the profile value `raw`: its first `|`
/// alternative on the EPP allowlist.
pub fn apply_epp(raw: &str) -> (r: Option<String>)
    ensures
        first_choice(choice_candidates(raw@), opt_str(r), |v: Seq<char>| allowed_epp(v)),
{
    resolve_choice(raw, is_allowed_epp)
}

/// The governor allowlist is exactly `performance`, `powersave`, `ondemand`,
/// `conservative`, `schedutil` and `userspace`, and a profile value whose first `|`
/// alternative is one of them selects that alternative.
pub proof fn lemma_governor_allowlist(raw: Seq<char>, r: Option<Seq<char>>, g: Seq<char>)
    requires
        first_choice(choice_candidates(raw), r, |x: Seq<char>| allowed_governor(x)),
    ensures
        allowed_governor(g) <==> seq![
            "performance"@,
            "powersave"@,
            "ondemand"@,
            "conservative"@,
            "schedutil"@,
            "userspace"@,
        ].contains(g),
        choice_candidates(raw).len() > 0 && seq![
            "performance"@,
            "powersave"@,
            "ondemand"@,
            "conservative"@,
            "schedutil"@,
            "userspace"@,
        ].contains(choice_candidates(raw)[0]) ==> r == Some(choice_candidates(raw)[0]),
{
    let names = seq![
        "performance"@,
        "powersave"@,
        "ondemand"@,
        "conservative"@,
        "schedutil"@,
        "userspace"@,
    ];
    assert(allowed_governor(g) ==> names.contains(g)) by {
        if g == "performance"@ { assert(names[0] == g); }
        if g == "powersave"@ { assert(names[1] == g); }
        if g == "ondemand"@ { assert(names[2] == g); }
        if g == "conservative"@ { assert(names[3] == g); }
        if g == "schedutil"@ { assert(names[4] == g); }
        if g == "userspace"@ { assert(names[5] == g); }
    }
    let cands = choice_candidates(raw);
    if cands.len() > 0 && names.contains(cands[0]) {
        let k = choose|k: int| 0 <= k < names.len() && names[k] == cands[0];
        assert(allowed_governor(cands[0]));
        match r {
            Some(c) => {
                let i = choose|i: int|
                    0 <= i < cands.len() && cands[i] == c && allowed_governor(c) && forall|j: int|
                        0 <= j < i ==> !allowed_governor(#[trigger] cands[j]);
                if i > 0 {
                    assert(!allowed_governor(cands[0]));
                }
            },
            None => {
                assert(!allowed_governor(cands[0]));
            },
        }
    }
}

/// The energy performance preference allowlist is exactly `default`, `performance`,
/// `balance_performance`, `balance_power` and `power`, and a profile value whose first `|`
/// alternative is one of them selects that alternative.
pub proof fn lemma_epp_allowlist(raw: Seq<char>, r: Option<Seq<char>>, v: Seq<char>)
    requires
        first_choice(choice_candidates(raw), r, |x: Seq<char>| allowed_epp(x)),
    ensures
        allowed_epp(v) <==> seq![
            "default"@,
            "performance"@,
            "balance_performance"@,
            "balance_power"@,
            "power"@,
        ].contains(v),
        choice_candidates(raw).len() > 0 && seq![
            "default"@,
            "performance"@,
            "balance_performance"@,
            "balance_power"@,
            "power"@,
        ].contains(choice_candidates(raw)[0]) ==> r == Some(choice_candidates(raw)[0]),
{
    let names = seq![
        "default"@,
        "performance"@,
        "balance_performance"@,
        "balance_power"@,
        "power"@,
    ];
    assert(allowed_epp(v) ==> names.contains(v)) by {
        if v == "default"@ { assert(names[0] == v); }
        if v == "performance"@ { assert(names[1] == v); }
        if v == "balance_performance"@ { assert(names[2] == v); }
        if v == "balance_power"@ { assert(names[3] == v); }
        if v == "power"@ { assert(names[4] == v); }
    }
    let cands = choice_candidates(raw);
    if cands.len() > 0 && names.contains(cands[0]) {
        let k = choose|k: int| 0 <= k < names.len() && names[k] == cands[0];
        assert(allowed_epp(cands[0]));
        match r {
            Some(c) => {
                let i = choose|i: int|
                    0 <= i < cands.len() && cands[i] == c && allowed_epp(c) && forall|j: int|
                        0 <= j < i ==> !allowed_epp(#[trigger] cands[j]);
                if i > 0 {
                    assert(!allowed_epp(cands[0]));
                }
            },
            None => {
                assert(!allowed_epp(cands[0]));
            },
        }
    }
}

/// A directory under `/sys/devices/system/cpu` that holds CPU frequency files: `policy` or
/// `cpu` followed by decimal digits only.
pub open spec fn cpu_node_name(name: Seq<char>) -> bool {
    ||| (starts_with(name, "policy"@) && all_digits(name.skip(6)))
    ||| (starts_with(name, "cpu"@) && all_digits(name.skip(3)))
}

fn all_digit_chars_from(s: &str, from: usize) -> (r: bool)
    requires
        from <= s@.len(),
    ensures
        r == all_digits(s@.skip(from as int)),
{
    let cs = chars_of(s);
    let mut i = from;
    while i < cs.len()
        invariant
            cs@ == s@,
            from <= i <= cs@.len(),
            forall|j: int| from <= j < i ==> crate::number::is_digit(#[trigger] s@[j]),
        decreases cs@.len() - i,
    {
        let u = cs[i] as u32;
        if u < 48 || u > 57 {
            assert(s@.skip(from as int)[i - from] == s@[i as int]);
            return false;
        }
        i = i + 1;
    }
    proof {
        assert forall|j: int| 0 <= j < s@.skip(from as int).len() implies crate::number::is_digit(
            #[trigger] s@.skip(from as int)[j],
        ) by {
            assert(s@.skip(from as int)[j] == s@[from + j]);
        }
    }
    true
}

/// Whether the directory entry `name` is a CPU or cpufreq policy node.
pub fn is_cpu_node(name: &str) -> (r: bool)
    ensures
        r == cpu_node_name(name@),
{
    proof {
        reveal_strlit("policy");
        reveal_strlit("cpu");
    }
    let is_policy = str_starts_with(name, "policy") && all_digit_chars_from(name, 6);
    let is_cpu = str_starts_with(name, "cpu") && all_digit_chars_from(name, 3);
    is_policy || is_cpu
}

/// The file under the node `name` (at `entry_path`) that holds `leaf`: directly under a
/// `policy` node, under `cpufreq/` otherwise.
pub open spec fn cpu_file_path(name: Seq<char>, entry_path: Seq<char>, leaf: Seq<char>) -> Seq<char> {
    if starts_with(name, "policy"@) {
        entry_path + "/"@ + leaf
    } else {
        entry_path + "/cpufreq/"@ + leaf
    }
}

/// The `scaling_governor` file of the node `name` at `entry_path`.
pub fn scaling_governor_path(name: &str, entry_path: &str) -> (r: String)
    ensures
        r@ == cpu_file_path(name@, entry_path@, "scaling_governor"@),
{
    if str_starts_with(name, "policy") {
        crate::text::concat3(entry_path, "/", "scaling_governor")
    } else {
        crate::text::concat3(entry_path, "/cpufreq/", "scaling_governor")
    }
}

/// The `energy_performance_preference` file of the node `name` at `entry_path`.
pub fn epp_path(name: &str, entry_path: &str) -> (r: String)
    ensures
        r@ == cpu_file_path(name@, entry_path@, "energy_performance_preference"@),
{
    if str_starts_with(name, "policy") {
        crate::text::concat3(entry_path, "/", "energy_performance_preference")
    } else {
        crate::text::concat3(entry_path, "/cpufreq/", "energy_performance_preference")
    }
}

/// The last `/`-separated component of a path (its file name, for the paths this plugin
/// builds).
pub open spec fn leaf_name(path: Seq<char>) -> Seq<char> {
    split(path, seq!['/']).last()
}

/// Why `payload` may not be written to `path`, if it may not: a governor file takes only
/// allowlisted governors and an EPP file only allowlisted preferences.
pub open spec fn cpu_payload_error(path: Seq<char>, payload: Seq<char>) -> Option<TuningError> {
    let leaf = leaf_name(path);
    if leaf == "scaling_governor"@ && !allowed_governor(payload) {
        Some(TuningError::UnknownGovernor)
    } else if leaf == "energy_performance_preference"@ && !allowed_epp(payload) {
        Some(TuningError::UnknownEpp)
    } else {
        None
    }
}

/// Refuses a governor or EPP value that is not on its allowlist.
pub fn validate_cpu_payload(path: &str, payload: &str) -> (r: Result<(), TuningError>)
    ensures
        match r {
            Ok(_) => cpu_payload_error(path@, payload@) is None,
            Err(e) => cpu_payload_error(path@, payload@) == Some(e),
        },
{
    let seps = ['/'];
    let parts = split_str(path, &seps);
    proof {
        assert(seps@ =~= seq!['/']);
        crate::text::lemma_split_nonempty(path@, seq!['/']);
    }
    let leaf = parts[parts.len() - 1].as_str();
    proof {
        assert(parts.deep_view()[parts@.len() - 1] == leaf@);
    }
    if str_eq(leaf, "scaling_governor") && !is_allowed_governor(payload) {
        return Err(TuningError::UnknownGovernor);
    }
    if str_eq(leaf, "energy_performance_preference") && !is_allowed_epp(payload) {
        return Err(TuningError::UnknownEpp);
    }
    Ok(())
}

/// Writes `value` to the CPU file `target` (canonical form `canonical`, current content
/// `original`): the value is checked against the allowlist for the file, then the write
/// goes through [`write_with_rollback`] under the `sysfs` kind, so both `target` and
/// `canonical` must stay in the allowlisted roots.
pub fn write_cpu_node(
    rollback: &mut Rollback,
    target: &str,
    canonical: &str,
    original: &str,
    value: &str,
) -> (r: Result<TunableWrite, TuningError>)
    requires
        old(rollback).wf(),
    ensures
        final(rollback).wf(),
        match r {
            Ok(w) => cpu_payload_error(target@, value@) is None && allowed_path(target@)
                && allowed_path(canonical@) && final(rollback)@ == recorded(
                old(rollback)@,
                rollback_key_spec("sysfs"@, canonical@),
                original@,
            ) && w.path@ == canonical@ && w.value@ == value@,
            Err(e) => final(rollback)@ == old(rollback)@ && (cpu_payload_error(target@, value@)
                == Some(e) || (cpu_payload_error(target@, value@) is None && !(allowed_path(
                target@,
            ) && allowed_path(canonical@)) && e == TuningError::NotAllowlisted)),
        },
{
    validate_cpu_payload(target, value)?;
    write_with_rollback(rollback, "sysfs", target, canonical, original, value)
}

/// The file holding `leaf` under every CPU node among `names` (the entries of the directory
/// `base`), in order: the entries that are not CPU nodes are skipped.
pub open spec fn cpu_targets_spec(base: Seq<char>, names: Seq<Seq<char>>, leaf: Seq<char>) -> Seq<Seq<char>> {
    names.filter(|n: Seq<char>| cpu_node_name(n)).map_values(
        |n: Seq<char>| cpu_file_path(n, base + "/"@ + n, leaf),
    )
}

/// The files to write `leaf` to under the CPU directory `base`, whose entries are `names`
/// (the caller then skips those that do not exist and writes the others through
/// [`write_cpu_node`]).
pub fn cpu_targets(base: &str, names: &Vec<String>, leaf: &str) -> (r: Vec<String>)
    ensures
        r.deep_view() == cpu_targets_spec(base@, names.deep_view(), leaf@),
{
    let ghost src = names.deep_view();
    let ghost keep = |n: Seq<char>| cpu_node_name(n);
    let ghost f = |n: Seq<char>| cpu_file_path(n, base@ + "/"@ + n, leaf@);
    let mut out: Vec<String> = Vec::new();
    let mut i: usize = 0;
    proof {
        assert(src.take(0) =~= Seq::<Seq<char>>::empty());
        reveal_with_fuel(Seq::filter, 1);
        assert(out.deep_view() =~= src.take(0).filter(keep).map_values(f));
    }
    while i < names.len()
        invariant
            src == names.deep_view(),
            keep == (|n: Seq<char>| cpu_node_name(n)),
            f == (|n: Seq<char>| cpu_file_path(n, base@ + "/"@ + n, leaf@)),
            i <= names@.len(),
            out.deep_view() == src.take(i as int).filter(keep).map_values(f),
        decreases names@.len() - i,
    {
        let name = names[i].as_str();
        proof {
            assert(src[i as int] == name@);
            assert(src.take(i + 1).drop_last() =~= src.take(i as int));
            reveal_with_fuel(Seq::filter, 1);
        }
        if is_cpu_node(name) {
            let entry = crate::text::concat3(base, "/", name);
            let target = if str_starts_with(name, "policy") {
                crate::text::concat3(entry.as_str(), "/", leaf)
            } else {
                crate::text::concat3(entry.as_str(), "/cpufreq/", leaf)
            };
            let ghost prev = src.take(i as int).filter(keep);
            proof {
                assert(target@ == f(name@));
            }
            let ghost before = out.deep_view();
            out.push(target);
            proof {
                assert(out.deep_view() =~= before.push(target@));
                assert(prev.push(name@).map_values(f) =~= prev.map_values(f).push(f(name@)));
                assert(src.take(i + 1).filter(keep) == prev.push(name@));
                assert(out.deep_view() =~= prev.push(name@).map_values(f));
            }
        }
        i = i + 1;
    }
    proof {
        assert(src.take(names@.len() as int) =~= src);
    }
    out
}

} // verus!
