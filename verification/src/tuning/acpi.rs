//! The `acpi` plugin: `platform_profile`, with `|` fallbacks.
use vstd::prelude::*;

use crate::rollback::{recorded, rollback_key, rollback_key_spec, Rollback};
use crate::text::{split_whitespace_str, str_eq, words};
use crate::tuning::modifiers::{choice_candidates, resolve_choice};
use crate::tuning::sysfs::record_and_write;
use crate::tuning::TunableWrite;

verus! {

/// The sysfs file that selects the ACPI platform profile.
pub open spec fn platform_profile_path_spec() -> Seq<char> {
    "/sys/firmware/acpi/platform_profile"@
}

/// The sysfs file that lists the ACPI platform profiles.
pub open spec fn platform_profile_choices_path_spec() -> Seq<char> {
    "/sys/firmware/acpi/platform_profile_choices"@
}

/// The sysfs file that selects the ACPI platform profile.
pub fn platform_profile_path() -> (r: String)
    ensures
        r@ == platform_profile_path_spec(),
{
    "/sys/firmware/acpi/platform_profile".to_owned()
}

/// The sysfs file that lists the ACPI platform profiles.
pub fn platform_profile_choices_path() -> (r: String)
    ensures
        r@ == platform_profile_choices_path_spec(),
{
    "/sys/firmware/acpi/platform_profile_choices".to_owned()
}

/// Whether `s` is one of the strings in `v`.
pub fn contains_str(v: &Vec<String>, s: &str) -> (r: bool)
    ensures
        r == v.deep_view().contains(s@),
{
    let mut i: usize = 0;
    while i < v.len()
        invariant
            i <= v@.len(),
            forall|j: int| 0 <= j < i ==> v.deep_view()[j] != s@,
        decreases v@.len() - i,
    {
        proof {
            assert(v.deep_view()[i as int] == v@[i as int]@);
        }
        if str_eq(v[i].as_str(), s) {
            return true;
        }
        i = i + 1;
    }
    false
}

/// Picks the first alternative of `raw` that the firmware lists in `choices` (the content of
/// `platform_profile_choices`); if there is one, records `current` (the content of
/// `platform_profile`) for rollback and returns the write that selects it.
pub fn apply_platform_profile(rollback: &mut Rollback, raw: &str, choices: &str, current: &str) -> (r:
    Option<TunableWrite>)
    requires
        old(rollback).wf(),
    ensures
        final(rollback).wf(),
        ({
            let cands = choice_candidates(raw@);
            let available = words(choices@);
            match r {
                Some(w) => exists|i: int|
                    0 <= i < cands.len() && cands[i] == w.value@ && available.contains(cands[i])
                        && (forall|j: int| 0 <= j < i ==> !available.contains(#[trigger] cands[j]))
                        && w.path@ == platform_profile_path_spec() && final(rollback)@ == recorded(
                        old(rollback)@,
                        rollback_key_spec("sysfs"@, platform_profile_path_spec()),
                        current@,
                    ),
                None => (forall|j: int| 0 <= j < cands.len() ==> !available.contains(#[trigger] cands[j]))
                    && final(rollback)@ == old(rollback)@,
            }
        }),
{
    let available = split_whitespace_str(choices);
    let is_listed = |candidate: &str| -> (listed: bool)
        ensures
            listed == available.deep_view().contains(candidate@),
        { contains_str(&available, candidate) };
    let picked = resolve_choice(raw, is_listed);
    match picked {
        Some(profile) => {
            let path = platform_profile_path();
            let key = rollback_key("sysfs", path.as_str());
            let w = record_and_write(rollback, key.as_str(), path.as_str(), current, profile.as_str());
            Some(w)
        },
        None => None,
    }
}

} // verus!
