//! The answers of the `com.redhat.tuned.control` D-Bus methods that do not go through the
//! daemon's state.
use vstd::prelude::*;

verus! {

/// The plugins that `get_all_plugins` lists, with their options.
pub open spec fn plugin_table() -> Seq<(Seq<char>, Seq<Seq<char>>)> {
    seq![
        ("cpu"@, seq!["governor"@, "energy_performance_preference"@]),
        ("sysctl"@, seq![""@]),
        ("vm"@, seq!["dirty_bytes"@]),
        ("disk"@, seq!["readahead"@, "elevator"@]),
        ("acpi"@, seq!["platform_profile"@]),
    ]
}

/// Whether `r` lists, in order, the plugins of [`plugin_table`], each option with an empty
/// description.
pub open spec fn lists_plugins(r: Seq<(String, Vec<(String, String)>)>) -> bool {
    &&& r.len() == plugin_table().len()
    &&& forall|i: int|
        0 <= i < r.len() ==> {
            let (name, opts) = plugin_table()[i];
            &&& (#[trigger] r[i]).0@ == name
            &&& r[i].1@.len() == opts.len()
            &&& forall|j: int|
                0 <= j < opts.len() ==> (#[trigger] r[i].1@[j]).0@ == opts[j] && r[i].1@[j].1@
                    == Seq::<char>::empty()
        }
}

fn options(names: &[&str]) -> (r: Vec<(String, String)>)
    ensures
        r@.len() == names@.len(),
        forall|j: int|
            0 <= j < names@.len() ==> (#[trigger] r@[j]).0@ == names@[j]@ && r@[j].1@
                == Seq::<char>::empty(),
{
    let mut out: Vec<(String, String)> = Vec::new();
    let mut i: usize = 0;
    while i < names.len()
        invariant
            i <= names@.len(),
            out@.len() == i,
            forall|j: int|
                0 <= j < i ==> (#[trigger] out@[j]).0@ == names@[j]@ && out@[j].1@
                    == Seq::<char>::empty(),
        decreases names@.len() - i,
    {
        out.push((names[i].to_owned(), String::new()));
        i = i + 1;
    }
    out
}

/// The answer of `get_all_plugins`: every supported plugin with its options.
pub fn all_plugins() -> (r: Vec<(String, Vec<(String, String)>)>)
    ensures
        lists_plugins(r@),
{
    let cpu = ["governor", "energy_performance_preference"];
    let sysctl = [""];
    let vm = ["dirty_bytes"];
    let disk = ["readahead", "elevator"];
    let acpi = ["platform_profile"];
    let mut out: Vec<(String, Vec<(String, String)>)> = Vec::new();
    out.push(("cpu".to_owned(), options(&cpu)));
    out.push(("sysctl".to_owned(), options(&sysctl)));
    out.push(("vm".to_owned(), options(&vm)));
    out.push(("disk".to_owned(), options(&disk)));
    out.push(("acpi".to_owned(), options(&acpi)));
    proof {
        assert(lists_plugins(out@)) by {
            assert forall|i: int| 0 <= i < out@.len() implies {
                let (name, opts) = plugin_table()[i];
                &&& (#[trigger] out@[i]).0@ == name
                &&& out@[i].1@.len() == opts.len()
                &&& forall|j: int|
                    0 <= j < opts.len() ==> (#[trigger] out@[i].1@[j]).0@ == opts[j]
                        && out@[i].1@[j].1@ == Seq::<char>::empty()
            } by {
                let opts = plugin_table()[i].1;
                assert forall|j: int| 0 <= j < opts.len() implies (#[trigger] out@[i].1@[j]).0@
                    == opts[j] && out@[i].1@[j].1@ == Seq::<char>::empty() by {
                    if i == 0 {
                        assert(cpu@[j]@ == opts[j]);
                    } else if i == 1 {
                        assert(sysctl@[j]@ == opts[j]);
                    } else if i == 2 {
                        assert(vm@[j]@ == opts[j]);
                    } else if i == 3 {
                        assert(disk@[j]@ == opts[j]);
                    } else {
                        assert(acpi@[j]@ == opts[j]);
                    }
                }
            }
        }
    }
    out
}

/// The answer of `verify_profile`: whether a profile is active.
pub fn verify_profile(active_profile: &str) -> (r: bool)
    ensures
        r == (active_profile@.len() > 0),
{
    !active_profile.is_empty()
}

/// The answer of `profile_mode` to a caller that is not authorized.
pub fn unauthorized_profile_mode() -> (r: (String, String))
    ensures
        r.0@ == "unknown"@,
        r.1@ == "Unauthorized"@,
{
    ("unknown".to_owned(), "Unauthorized".to_owned())
}

/// The answer of `profile_info` to a caller that is not authorized.
pub fn unauthorized_profile_info() -> (r: (bool, String, String, String))
    ensures
        !r.0,
        r.1@ == Seq::<char>::empty(),
        r.2@ == Seq::<char>::empty(),
        r.3@ == "Unauthorized"@,
{
    (false, String::new(), String::new(), "Unauthorized".to_owned())
}

/// The answer of the instance methods, which this daemon does not support.
pub fn not_supported_pair() -> (r: (bool, String))
    ensures
        !r.0,
        r.1@ == "Not supported"@,
{
    (false, "Not supported".to_owned())
}

} // verus!
