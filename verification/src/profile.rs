//! TuneD profiles: parsing one `tuned.conf`, and the catalog of profiles by name.
use vstd::prelude::*;

use crate::engine::{valid_profile_name, validate_profile_name};
use crate::ini::{
    ini_get, ini_get_spec, ini_read, ini_size_ok, ini_too_large, ini_view, ini_wf, read_ini,
    IniSections,
};
use crate::strmap::{values_view, StrMap};
use crate::tuning::disk::options_view;
use crate::text::{
    concat, concat3, lemma_permutation_distinct, sort_strings, sorted_seq, trim, trim_str,
};

verus! {

/// The `[cpu]` section.
#[derive(Debug, Clone, Default)]
pub struct CpuSettings {
    pub governor: Option<String>,
    pub energy_performance_preference: Option<String>,
}

/// The `[vm]` section.
#[derive(Debug, Clone, Default)]
pub struct VmSettings {
    pub transparent_hugepages: Option<String>,
    pub transparent_hugepage_defrag: Option<String>,
    pub dirty_bytes: Option<String>,
    pub dirty_ratio: Option<String>,
    pub dirty_background_bytes: Option<String>,
    pub dirty_background_ratio: Option<String>,
}

/// The `[disk]` section.
#[derive(Debug, Clone, Default)]
pub struct DiskSettings {
    pub devices: Option<String>,
    pub elevator: Option<String>,
    pub readahead: Option<String>,
}

/// The `[acpi]` section.
#[derive(Debug, Clone, Default)]
pub struct AcpiSettings {
    pub platform_profile: Option<String>,
}

/// A TuneD profile.
#[derive(Debug)]
pub struct Profile {
    pub name: String,
    pub summary: String,
    pub description: String,
    pub cpu: CpuSettings,
    pub vm: VmSettings,
    pub disk: DiskSettings,
    pub acpi: AcpiSettings,
    /// `[sysctl]` key to value.
    pub sysctl: StrMap<String>,
}

/// Parsed INI sections.
pub type IniMap = Map<Seq<char>, Map<Seq<char>, Option<Seq<char>>>>;

/// The view of an optional string.
pub open spec fn ostr(o: Option<String>) -> Option<Seq<char>> {
    match o {
        Some(s) => Some(s@),
        None => None,
    }
}

/// A profile setting: the value trimmed, `None` where it is missing or blank.
pub open spec fn setting(m: IniMap, section: Seq<char>, key: Seq<char>) -> Option<Seq<char>> {
    match ini_get_spec(m, section, key) {
        Some(v) => if trim(v).len() > 0 {
            Some(trim(v))
        } else {
            None
        },
        None => None,
    }
}

/// A `[main]` text entry: the value trimmed, empty where it is missing.
pub open spec fn main_text(m: IniMap, key: Seq<char>) -> Seq<char> {
    match ini_get_spec(m, "main"@, key) {
        Some(v) => trim(v),
        None => Seq::empty(),
    }
}

/// `[sysctl]` key to trimmed value, for the keys that have a value.
pub open spec fn sysctl_spec(m: IniMap) -> Map<Seq<char>, Seq<char>> {
    Map::new(
        |k: Seq<char>|
            m.contains_key("sysctl"@) && m["sysctl"@].contains_key(k) && m["sysctl"@][k] is Some,
        |k: Seq<char>| trim(m["sysctl"@][k]->Some_0),
    )
}

/// Whether `p` is the profile named `name` that the INI sections `m` describe.
pub open spec fn profile_matches(p: Profile, m: IniMap, name: Seq<char>) -> bool {
    &&& p.name@ == name
    &&& p.summary@ == main_text(m, "summary"@)
    &&& p.description@ == main_text(m, "description"@)
    &&& ostr(p.cpu.governor) == setting(m, "cpu"@, "governor"@)
    &&& ostr(p.cpu.energy_performance_preference) == setting(
        m,
        "cpu"@,
        "energy_performance_preference"@,
    )
    &&& ostr(p.vm.transparent_hugepages) == match setting(m, "vm"@, "transparent_hugepages"@) {
        Some(v) => Some(v),
        None => setting(m, "vm"@, "transparent_hugepage"@),
    }
    &&& ostr(p.vm.transparent_hugepage_defrag) == setting(m, "vm"@, "transparent_hugepage.defrag"@)
    &&& ostr(p.vm.dirty_bytes) == setting(m, "vm"@, "dirty_bytes"@)
    &&& ostr(p.vm.dirty_ratio) == setting(m, "vm"@, "dirty_ratio"@)
    &&& ostr(p.vm.dirty_background_bytes) == setting(m, "vm"@, "dirty_background_bytes"@)
    &&& ostr(p.vm.dirty_background_ratio) == setting(m, "vm"@, "dirty_background_ratio"@)
    &&& ostr(p.disk.devices) == setting(m, "disk"@, "devices"@)
    &&& ostr(p.disk.elevator) == setting(m, "disk"@, "elevator"@)
    &&& ostr(p.disk.readahead) == setting(m, "disk"@, "readahead"@)
    &&& ostr(p.acpi.platform_profile) == setting(m, "acpi"@, "platform_profile"@)
    &&& p.sysctl.wf()
    &&& values_view(p.sysctl@) == sysctl_spec(m)
}

/// Whether `a` and `b` hold the same settings.
pub open spec fn same_profile(a: Profile, b: Profile) -> bool {
    &&& a.name@ == b.name@
    &&& a.summary@ == b.summary@
    &&& a.description@ == b.description@
    &&& ostr(a.cpu.governor) == ostr(b.cpu.governor)
    &&& ostr(a.cpu.energy_performance_preference) == ostr(b.cpu.energy_performance_preference)
    &&& ostr(a.vm.transparent_hugepages) == ostr(b.vm.transparent_hugepages)
    &&& ostr(a.vm.transparent_hugepage_defrag) == ostr(b.vm.transparent_hugepage_defrag)
    &&& ostr(a.vm.dirty_bytes) == ostr(b.vm.dirty_bytes)
    &&& ostr(a.vm.dirty_ratio) == ostr(b.vm.dirty_ratio)
    &&& ostr(a.vm.dirty_background_bytes) == ostr(b.vm.dirty_background_bytes)
    &&& ostr(a.vm.dirty_background_ratio) == ostr(b.vm.dirty_background_ratio)
    &&& ostr(a.disk.devices) == ostr(b.disk.devices)
    &&& ostr(a.disk.elevator) == ostr(b.disk.elevator)
    &&& ostr(a.disk.readahead) == ostr(b.disk.readahead)
    &&& ostr(a.acpi.platform_profile) == ostr(b.acpi.platform_profile)
    &&& a.sysctl.wf() == b.sysctl.wf()
    &&& b.sysctl.wf() ==> values_view(a.sysctl@) == values_view(b.sysctl@)
}

fn copy_opt(o: &Option<String>) -> (r: Option<String>)
    ensures
        ostr(r) == ostr(*o),
{
    match o {
        Some(s) => Some(s.clone()),
        None => None,
    }
}

impl Profile {
    /// A copy with the same settings.
    pub fn copy(&self) -> (r: Profile)
        ensures
            same_profile(r, *self),
    {
        let cpu = CpuSettings {
            governor: copy_opt(&self.cpu.governor),
            energy_performance_preference: copy_opt(&self.cpu.energy_performance_preference),
        };
        let vm = VmSettings {
            transparent_hugepages: copy_opt(&self.vm.transparent_hugepages),
            transparent_hugepage_defrag: copy_opt(&self.vm.transparent_hugepage_defrag),
            dirty_bytes: copy_opt(&self.vm.dirty_bytes),
            dirty_ratio: copy_opt(&self.vm.dirty_ratio),
            dirty_background_bytes: copy_opt(&self.vm.dirty_background_bytes),
            dirty_background_ratio: copy_opt(&self.vm.dirty_background_ratio),
        };
        let disk = DiskSettings {
            devices: copy_opt(&self.disk.devices),
            elevator: copy_opt(&self.disk.elevator),
            readahead: copy_opt(&self.disk.readahead),
        };
        let acpi = AcpiSettings { platform_profile: copy_opt(&self.acpi.platform_profile) };
        let sysctl = self.sysctl.copy();
        proof {
            if sysctl.wf() {
                assert forall|a: int, b: int|
                    0 <= a < self.sysctl.entries@.len() && 0 <= b < self.sysctl.entries@.len() && a
                        != b implies (#[trigger] self.sysctl.entries@[a]).0@
                        != (#[trigger] self.sysctl.entries@[b]).0@ by {
                    assert(sysctl.entries@[a].0@ != sysctl.entries@[b].0@);
                }
            }
        }
        Profile {
            name: self.name.clone(),
            summary: self.summary.clone(),
            description: self.description.clone(),
            cpu,
            vm,
            disk,
            acpi,
            sysctl,
        }
    }
}

fn section_value(ini: &IniSections, section: &str, key: &str) -> (r: Option<String>)
    requires
        ini_wf(*ini),
    ensures
        ostr(r) == setting(ini_view(*ini), section@, key@),
{
    match ini_get(ini, section, key) {
        Some(v) => {
            let t = trim_str(v.as_str());
            if t.as_str().is_empty() {
                None
            } else {
                Some(t)
            }
        },
        None => None,
    }
}

fn main_value(ini: &IniSections, key: &str) -> (r: String)
    requires
        ini_wf(*ini),
    ensures
        r@ == main_text(ini_view(*ini), key@),
{
    match ini_get(ini, "main", key) {
        Some(v) => trim_str(v.as_str()),
        None => String::new(),
    }
}

fn sysctl_section(ini: &IniSections) -> (r: StrMap<String>)
    requires
        ini_wf(*ini),
    ensures
        r.wf(),
        values_view(r@) == sysctl_spec(ini_view(*ini)),
{
    let mut out: StrMap<String> = StrMap::new();
    let ghost m = ini_view(*ini);
    match ini.find("sysctl") {
        None => {
            proof {
                assert(values_view(out@) =~= sysctl_spec(m));
            }
            out
        },
        Some(si) => {
            proof {
                ini.lemma_entry(si as int);
            }
            let sec = &ini.entries[si].1;
            let ghost sm = crate::ini::section_view(*sec);
            proof {
                assert(m["sysctl"@] == sm);
            }
            let mut i: usize = 0;
            while i < sec.entries.len()
                invariant
                    sec.wf(),
                    m.contains_key("sysctl"@),
                    m["sysctl"@] == sm,
                    sm == crate::ini::section_view(*sec),
                    i <= sec.entries@.len(),
                    out.wf(),
                    forall|k: Seq<char>|
                        #[trigger] out@.contains_key(k) <==> exists|j: int|
                            0 <= j < i && (#[trigger] sec.entries@[j]).0@ == k
                                && sec.entries@[j].1 is Some,
                    forall|k: Seq<char>|
                        #[trigger] out@.contains_key(k) ==> sm.contains_key(k) && sm[k] is Some
                            && out@[k]@ == trim(sm[k]->Some_0),
                decreases sec.entries@.len() - i,
            {
                proof {
                    sec.lemma_entry(i as int);
                }
                match &sec.entries[i].1 {
                    Some(v) => {
                        let key = sec.entries[i].0.clone();
                        let value = trim_str(v.as_str());
                        let ghost before = out@;
                        out.insert(key, value);
                        proof {
                            assert forall|k: Seq<char>| #[trigger] out@.contains_key(k) <==> exists|
                                j: int,
                            |
                                0 <= j < i + 1 && (#[trigger] sec.entries@[j]).0@ == k
                                    && sec.entries@[j].1 is Some by {
                                if k == sec.entries@[i as int].0@ {
                                    assert(sec.entries@[i as int].0@ == k);
                                } else if out@.contains_key(k) {
                                    assert(before.contains_key(k));
                                }
                            }
                        }
                    },
                    None => {
                        proof {
                            assert forall|k: Seq<char>| #[trigger] out@.contains_key(k) <==> exists|
                                j: int,
                            |
                                0 <= j < i + 1 && (#[trigger] sec.entries@[j]).0@ == k
                                    && sec.entries@[j].1 is Some by {
                                if exists|j: int|
                                    0 <= j < i + 1 && (#[trigger] sec.entries@[j]).0@ == k
                                        && sec.entries@[j].1 is Some {
                                    let j = choose|j: int|
                                        0 <= j < i + 1 && (#[trigger] sec.entries@[j]).0@ == k
                                            && sec.entries@[j].1 is Some;
                                    assert(j != i);
                                }
                            }
                        }
                    },
                }
                i = i + 1;
            }
            proof {
                assert forall|k: Seq<char>| #[trigger] values_view(out@).contains_key(k)
                    <==> sysctl_spec(m).contains_key(k) by {
                    if sm.contains_key(k) && sm[k] is Some {
                        sec.lemma_keys();
                        let j = sec.index_of(k);
                        assert(sec.entries@[j].0@ == k);
                        sec.lemma_entry(j);
                    }
                }
                assert(values_view(out@) =~= sysctl_spec(m));
            }
            out
        },
    }
}

/// Builds the profile `name` from the INI text `content` of its `tuned.conf`; refused with
/// the parser's message where it does not parse, and with `Profile too large for the INI
/// parser` where it is too large to parse.
pub fn load_profile(content: &str, name: &str) -> (r: Result<Profile, String>)
    ensures
        match r {
            Ok(p) => !ini_too_large(content@) && ini_read(content@) is Ok && profile_matches(
                p,
                ini_read(content@)->Ok_0,
                name@,
            ),
            Err(e) => if ini_too_large(content@) {
                e@ == "Profile too large for the INI parser"@
            } else {
                ini_read(content@) == Err::<IniMap, Seq<char>>(e@)
            },
        },
{
    if !ini_size_ok(content) {
        return Err("Profile too large for the INI parser".to_owned());
    }
    let ini = read_ini(content)?;
    Ok(profile_from_sections(&ini, name))
}

/// Builds the profile `name` from the parsed sections `ini` of its `tuned.conf`.
pub fn profile_from_sections(ini: &IniSections, name: &str) -> (p: Profile)
    requires
        ini_wf(*ini),
    ensures
        profile_matches(p, ini_view(*ini), name@),
{
    let summary = main_value(ini, "summary");
    let description = main_value(ini, "description");
    let cpu = CpuSettings {
        governor: section_value(ini, "cpu", "governor"),
        energy_performance_preference: section_value(ini, "cpu", "energy_performance_preference"),
    };
    let thp = match section_value(ini, "vm", "transparent_hugepages") {
        Some(v) => Some(v),
        None => section_value(ini, "vm", "transparent_hugepage"),
    };
    let vm = VmSettings {
        transparent_hugepages: thp,
        transparent_hugepage_defrag: section_value(ini, "vm", "transparent_hugepage.defrag"),
        dirty_bytes: section_value(ini, "vm", "dirty_bytes"),
        dirty_ratio: section_value(ini, "vm", "dirty_ratio"),
        dirty_background_bytes: section_value(ini, "vm", "dirty_background_bytes"),
        dirty_background_ratio: section_value(ini, "vm", "dirty_background_ratio"),
    };
    let disk = DiskSettings {
        devices: section_value(ini, "disk", "devices"),
        elevator: section_value(ini, "disk", "elevator"),
        readahead: section_value(ini, "disk", "readahead"),
    };
    let acpi = AcpiSettings { platform_profile: section_value(ini, "acpi", "platform_profile") };
    let sysctl = sysctl_section(ini);
    Profile { name: name.to_owned(), summary, description, cpu, vm, disk, acpi, sysctl }
}


/// The trimmed value of an INI entry, where it is there and not blank.
pub open spec fn trimmed_value(o: Option<Seq<char>>) -> Option<Seq<char>> {
    match o {
        Some(v) => if trim(v).len() > 0 {
            Some(trim(v))
        } else {
            None
        },
        None => None,
    }
}

/// Every field of a profile comes from its own key of its own section: the trimmed,
/// non-blank value of that key (`transparent_hugepages` falling back to
/// `transparent_hugepage`), and the `[main]` texts trimmed.
pub proof fn lemma_profile_fields_from_keys(p: Profile, m: IniMap, name: Seq<char>)
    requires
        profile_matches(p, m, name),
    ensures
        p.name@ == name,
        p.summary@ == match ini_get_spec(m, "main"@, "summary"@) {
            Some(v) => trim(v),
            None => Seq::empty(),
        },
        p.description@ == match ini_get_spec(m, "main"@, "description"@) {
            Some(v) => trim(v),
            None => Seq::empty(),
        },
        ostr(p.cpu.governor) == trimmed_value(ini_get_spec(m, "cpu"@, "governor"@)),
        ostr(p.cpu.energy_performance_preference) == trimmed_value(
            ini_get_spec(m, "cpu"@, "energy_performance_preference"@),
        ),
        ostr(p.vm.transparent_hugepages) == match trimmed_value(
            ini_get_spec(m, "vm"@, "transparent_hugepages"@),
        ) {
            Some(v) => Some(v),
            None => trimmed_value(ini_get_spec(m, "vm"@, "transparent_hugepage"@)),
        },
        ostr(p.vm.transparent_hugepage_defrag) == trimmed_value(
            ini_get_spec(m, "vm"@, "transparent_hugepage.defrag"@),
        ),
        ostr(p.vm.dirty_bytes) == trimmed_value(ini_get_spec(m, "vm"@, "dirty_bytes"@)),
        ostr(p.vm.dirty_ratio) == trimmed_value(ini_get_spec(m, "vm"@, "dirty_ratio"@)),
        ostr(p.vm.dirty_background_bytes) == trimmed_value(
            ini_get_spec(m, "vm"@, "dirty_background_bytes"@),
        ),
        ostr(p.vm.dirty_background_ratio) == trimmed_value(
            ini_get_spec(m, "vm"@, "dirty_background_ratio"@),
        ),
        ostr(p.disk.devices) == trimmed_value(ini_get_spec(m, "disk"@, "devices"@)),
        ostr(p.disk.elevator) == trimmed_value(ini_get_spec(m, "disk"@, "elevator"@)),
        ostr(p.disk.readahead) == trimmed_value(ini_get_spec(m, "disk"@, "readahead"@)),
        ostr(p.acpi.platform_profile) == trimmed_value(
            ini_get_spec(m, "acpi"@, "platform_profile"@),
        ),
        forall|k: Seq<char>|
            #[trigger] ini_get_spec(m, "sysctl"@, k) is Some ==> values_view(p.sysctl@).contains_key(k)
                && values_view(p.sysctl@)[k] == trim(ini_get_spec(m, "sysctl"@, k)->Some_0),
        forall|k: Seq<char>|
            #[trigger] values_view(p.sysctl@).contains_key(k) ==> ini_get_spec(m, "sysctl"@, k) is Some,
{
    assert forall|k: Seq<char>| #[trigger] ini_get_spec(m, "sysctl"@, k) is Some implies values_view(
        p.sysctl@,
    ).contains_key(k) && values_view(p.sysctl@)[k] == trim(ini_get_spec(m, "sysctl"@, k)->Some_0) by {
        assert(sysctl_spec(m).contains_key(k));
    }
    assert forall|k: Seq<char>| #[trigger] values_view(p.sysctl@).contains_key(k) implies ini_get_spec(
        m,
        "sysctl"@,
        k,
    ) is Some by {
        assert(sysctl_spec(m).contains_key(k));
    }
}

/// `summaries` lists the profiles in the order `names` lists them: given a result `n` of
/// [`ProfileCatalog::names`] and a result `s` of [`ProfileCatalog::summaries`] on the same
/// catalog, the names of `s` are `n`, each with its profile's summary.
pub proof fn lemma_summaries_follow_names(c: ProfileCatalog, n: Seq<Seq<char>>, s: Seq<(String, String)>)
    requires
        sorted_seq(n),
        n.no_duplicates(),
        n.to_set() == c@.dom(),
        sorted_seq(firsts(s)),
        firsts(s).no_duplicates(),
        firsts(s).to_set() == c@.dom(),
        forall|i: int| 0 <= i < s.len() ==> (#[trigger] s[i]).1@ == c@[s[i].0@].summary@,
    ensures
        firsts(s) == n,
        forall|i: int| 0 <= i < s.len() ==> (#[trigger] s[i]).1@ == c@[n[i]].summary@,
{
    crate::text::lemma_sorted_unique(firsts(s), n);
    assert forall|i: int| 0 <= i < s.len() implies (#[trigger] s[i]).1@ == c@[n[i]].summary@ by {
        assert(firsts(s)[i] == s[i].0@);
    }
}

/// A profile directory found while scanning: its name and the content of its `tuned.conf`.
#[derive(Debug)]
pub struct ProfileSource {
    pub name: String,
    pub content: String,
}

/// The view of a source: name and content.
pub open spec fn source_view(s: ProfileSource) -> (Seq<char>, Seq<char>) {
    (s.name@, s.content@)
}

/// The views of sources.
pub open spec fn sources_view(s: Seq<ProfileSource>) -> Seq<(Seq<char>, Seq<char>)> {
    s.map_values(|x: ProfileSource| source_view(x))
}

/// For each profile name, the content it is loaded from: the last source with that name
/// that is a valid profile name and whose content is small enough to parse and parses.
pub open spec fn catalog_spec(srcs: Seq<(Seq<char>, Seq<char>)>) -> Map<Seq<char>, Seq<char>>
    decreases srcs.len(),
{
    if srcs.len() == 0 {
        Map::empty()
    } else {
        let m = catalog_spec(srcs.drop_last());
        let (n, c) = srcs.last();
        if valid_profile_name(n) && !ini_too_large(c) && ini_read(c) is Ok {
            m.insert(n, c)
        } else {
            m
        }
    }
}

/// The profiles, by name.
pub struct ProfileCatalog {
    profiles: StrMap<Profile>,
}

/// The `(name, summary)` pairs' names.
pub open spec fn firsts(s: Seq<(String, String)>) -> Seq<Seq<char>> {
    s.map_values(|e: (String, String)| e.0@)
}

impl ProfileCatalog {
    #[verifier::type_invariant]
    spec fn inv(self) -> bool {
        self.profiles.wf()
    }

    /// Profile name to profile.
    pub closed spec fn view(&self) -> Map<Seq<char>, Profile> {
        self.profiles@
    }

    /// Loads the profiles of `sources`, listed directory by directory in search order: each
    /// source whose name is a valid profile name and whose content is small enough to parse
    /// and parses becomes the profile of that name, replacing any earlier one (a later
    /// directory overrides an earlier one); the others are skipped.
    pub fn load_from_dirs(sources: &Vec<ProfileSource>) -> (c: ProfileCatalog)
        ensures
            c@.dom() == catalog_spec(sources_view(sources@)).dom(),
            forall|k: Seq<char>|
                #[trigger] c@.contains_key(k) ==> profile_matches(
                    c@[k],
                    ini_read(catalog_spec(sources_view(sources@))[k])->Ok_0,
                    k,
                ),
    {
        let ghost sv = sources_view(sources@);
        let mut profiles: StrMap<Profile> = StrMap::new();
        let mut i: usize = 0;
        proof {
            assert(sv.take(0) =~= Seq::<(Seq<char>, Seq<char>)>::empty());
            assert(profiles@.dom() =~= catalog_spec(sv.take(0)).dom());
        }
        while i < sources.len()
            invariant
                sv == sources_view(sources@),
                i <= sources@.len(),
                profiles.wf(),
                profiles@.dom() == catalog_spec(sv.take(i as int)).dom(),
                forall|k: Seq<char>|
                    #[trigger] profiles@.contains_key(k) ==> profile_matches(
                        profiles@[k],
                        ini_read(catalog_spec(sv.take(i as int))[k])->Ok_0,
                        k,
                    ),
            decreases sources@.len() - i,
        {
            let src = &sources[i];
            let ghost t = sv.take(i + 1);
            proof {
                assert(t.drop_last() =~= sv.take(i as int));
                assert(t.last() == (src.name@, src.content@));
            }
            if validate_profile_name(src.name.as_str()) {
                match load_profile(src.content.as_str(), src.name.as_str()) {
                    Ok(p) => {
                        profiles.insert(src.name.clone(), p);
                        proof {
                            assert(profiles@.dom() =~= catalog_spec(t).dom());
                        }
                    },
                    Err(_) => {},
                }
            }
            i = i + 1;
        }
        proof {
            assert(sv.take(sources@.len() as int) =~= sv);
        }
        ProfileCatalog { profiles }
    }

    /// The profile names in sorted order, each once.
    pub fn names(&self) -> (r: Vec<String>)
        ensures
            sorted_seq(r.deep_view()),
            r.deep_view().no_duplicates(),
            r.deep_view().to_set() == self@.dom(),
    {
        proof {
            use_type_invariant(self);
            self.profiles.lemma_keys();
        }
        let keys = self.profiles.keys();
        let r = sort_strings(keys);
        proof {
            lemma_permutation_distinct(r.deep_view(), self.profiles.key_seq());
        }
        r
    }

    /// `(name, summary)` of every profile, sorted by name.
    pub fn summaries(&self) -> (r: Vec<(String, String)>)
        ensures
            sorted_seq(firsts(r@)),
            firsts(r@).no_duplicates(),
            firsts(r@).to_set() == self@.dom(),
            forall|i: int|
                0 <= i < r@.len() ==> (#[trigger] r@[i]).1@ == self@[r@[i].0@].summary@,
    {
        proof {
            use_type_invariant(self);
        }
        let names = self.names();
        let mut out: Vec<(String, String)> = Vec::new();
        let mut i: usize = 0;
        while i < names.len()
            invariant
                self.profiles.wf(),
                names.deep_view().to_set() == self@.dom(),
                i <= names@.len(),
                out@.len() == i,
                firsts(out@) == names.deep_view().take(i as int),
                forall|j: int|
                    0 <= j < i ==> (#[trigger] out@[j]).1@ == self@[out@[j].0@].summary@,
            decreases names@.len() - i,
        {
            proof {
                assert(names.deep_view()[i as int] == names@[i as int]@);
                assert(names.deep_view().to_set().contains(names@[i as int]@));
            }
            let name = names[i].clone();
            let summary = match self.profiles.get(name.as_str()) {
                Some(p) => p.summary.clone(),
                None => String::new(),
            };
            let ghost prev = out@;
            out.push((name, summary));
            proof {
                assert forall|q: int| 0 <= q <= i implies #[trigger] firsts(out@)[q]
                    == names.deep_view().take(i + 1)[q] by {
                    if q < i {
                        assert(firsts(out@)[q] == firsts(prev)[q]);
                    }
                }
                assert(firsts(out@) =~= names.deep_view().take(i + 1));
            }
            i = i + 1;
        }
        proof {
            assert(names.deep_view().take(names@.len() as int) =~= names.deep_view());
        }
        out
    }

    /// The profile called `name`.
    pub fn get(&self, name: &str) -> (r: Option<&Profile>)
        ensures
            match r {
                Some(p) => self@.contains_key(name@) && self@[name@] == *p,
                None => !self@.contains_key(name@),
            },
    {
        proof {
            use_type_invariant(self);
        }
        self.profiles.get(name)
    }

    /// `(found, summary, description, error)` for the profile `name`: `(true, summary,
    /// description, "")` where it exists, `(false, "", "", "Profile '<name>' not found")`
    /// where it does not.
    pub fn profile_info(&self, name: &str) -> (r: (bool, String, String, String))
        ensures
            if self@.contains_key(name@) {
                r.0 && r.1@ == self@[name@].summary@ && r.2@ == self@[name@].description@
                    && r.3@ == Seq::<char>::empty()
            } else {
                !r.0 && r.1@ == Seq::<char>::empty() && r.2@ == Seq::<char>::empty() && r.3@
                    == "Profile '"@ + name@ + "' not found"@
            },
    {
        match self.get(name) {
            Some(p) => (true, p.summary.clone(), p.description.clone(), String::new()),
            None => (
                false,
                String::new(),
                String::new(),
                concat3("Profile '", name, "' not found"),
            ),
        }
    }

    /// The profile to recommend: `balanced` where it exists or no profile exists; otherwise
    /// the first name in sorted order.
    pub fn recommend(&self) -> (r: String)
        ensures
            if self@.contains_key("balanced"@) || self@.dom().is_empty() {
                r@ == "balanced"@
            } else {
                self@.contains_key(r@) && forall|k: Seq<char>|
                    #[trigger] self@.contains_key(k) ==> !crate::text::lex_lt(k, r@)
            },
    {
        proof {
            use_type_invariant(self);
        }
        if self.profiles.contains_key(crate::config::DEFAULT_PROFILE) {
            return crate::config::DEFAULT_PROFILE.to_owned();
        }
        let names = self.names();
        if names.len() == 0 {
            proof {
                if !self@.dom().is_empty() {
                    let k = self@.dom().choose();
                    assert(names.deep_view().to_set().contains(k));
                }
            }
            return crate::config::DEFAULT_PROFILE.to_owned();
        }
        let first = names[0].clone();
        proof {
            assert(names.deep_view()[0] == first@);
            assert(names.deep_view().to_set().contains(first@));
            assert forall|k: Seq<char>| #[trigger] self@.contains_key(k) implies !crate::text::lex_lt(
                k,
                first@,
            ) by {
                assert(names.deep_view().to_set().contains(k));
                let j = choose|j: int| 0 <= j < names.deep_view().len() && names.deep_view()[j] == k;
                if j > 0 {
                    assert(!crate::text::lex_lt(names.deep_view()[j], names.deep_view()[0]));
                } else {
                    crate::text::lemma_lex_asym(k, k);
                }
            }
            assert(!self@.dom().is_empty());
        }
        first
    }
}

/// The option `name` with its value, where it is set.
pub open spec fn opt_entry(name: Seq<char>, o: Option<String>) -> Seq<(Seq<char>, Seq<char>)> {
    match o {
        Some(v) => seq![(name, v@)],
        None => Seq::empty(),
    }
}

fn push_opt(out: &mut Vec<(String, String)>, name: &str, o: &Option<String>)
    ensures
        options_view(final(out)@) == options_view(old(out)@) + opt_entry(name@, *o),
{
    let ghost before = out@;
    match o {
        Some(v) => {
            out.push((name.to_owned(), v.clone()));
            proof {
                assert(options_view(out@) =~= options_view(before) + opt_entry(name@, *o));
            }
        },
        None => {
            proof {
                assert(options_view(out@) =~= options_view(before) + opt_entry(name@, *o));
            }
        },
    }
}

/// The `vm` options of `p` that are set, with their values, in the order the plugin applies
/// them.
pub open spec fn vm_options_spec(p: Profile) -> Seq<(Seq<char>, Seq<char>)> {
    opt_entry("transparent_hugepages"@, p.vm.transparent_hugepages) + opt_entry(
        "transparent_hugepage.defrag"@,
        p.vm.transparent_hugepage_defrag,
    ) + opt_entry("dirty_bytes"@, p.vm.dirty_bytes) + opt_entry("dirty_ratio"@, p.vm.dirty_ratio)
        + opt_entry("dirty_background_bytes"@, p.vm.dirty_background_bytes) + opt_entry(
        "dirty_background_ratio"@,
        p.vm.dirty_background_ratio,
    )
}

/// The `disk` options of `p` that are set, with their values.
pub open spec fn disk_options_spec(p: Profile) -> Seq<(Seq<char>, Seq<char>)> {
    opt_entry("elevator"@, p.disk.elevator) + opt_entry("readahead"@, p.disk.readahead)
}

impl Profile {
    /// The `vm` options that are set, for [`crate::tuning::vm::apply_options`].
    pub fn vm_options(&self) -> (r: Vec<(String, String)>)
        ensures
            options_view(r@) == vm_options_spec(*self),
    {
        let mut out: Vec<(String, String)> = Vec::new();
        proof {
            assert(options_view(out@) =~= Seq::<(Seq<char>, Seq<char>)>::empty());
        }
        push_opt(&mut out, "transparent_hugepages", &self.vm.transparent_hugepages);
        push_opt(&mut out, "transparent_hugepage.defrag", &self.vm.transparent_hugepage_defrag);
        push_opt(&mut out, "dirty_bytes", &self.vm.dirty_bytes);
        push_opt(&mut out, "dirty_ratio", &self.vm.dirty_ratio);
        push_opt(&mut out, "dirty_background_bytes", &self.vm.dirty_background_bytes);
        push_opt(&mut out, "dirty_background_ratio", &self.vm.dirty_background_ratio);
        proof {
            assert(options_view(out@) =~= vm_options_spec(*self));
        }
        out
    }

    /// The `disk` options that are set, for [`crate::tuning::disk::apply_options`].
    pub fn disk_options(&self) -> (r: Vec<(String, String)>)
        ensures
            options_view(r@) == disk_options_spec(*self),
    {
        let mut out: Vec<(String, String)> = Vec::new();
        proof {
            assert(options_view(out@) =~= Seq::<(Seq<char>, Seq<char>)>::empty());
        }
        push_opt(&mut out, "elevator", &self.disk.elevator);
        push_opt(&mut out, "readahead", &self.disk.readahead);
        proof {
            assert(options_view(out@) =~= disk_options_spec(*self));
        }
        out
    }
}

/// Why the active profile file is refused.
#[derive(Debug, Clone, Copy, PartialEq, Eq, Structural)]
pub enum ActiveProfileError {
    /// The file names something that is not a valid profile name.
    InvalidProfileName,
}

/// The profile the active profile file names, given its content (`None` where there is no
/// such file): none where the file is missing or blank; its content trimmed where that is a
/// valid profile name; refused otherwise.
pub open spec fn active_profile_spec(content: Option<Seq<char>>) -> Result<Option<Seq<char>>, ActiveProfileError> {
    match content {
        None => Ok(None),
        Some(c) => {
            let name = trim(c);
            if name.len() == 0 {
                Ok(None)
            } else if valid_profile_name(name) {
                Ok(Some(name))
            } else {
                Err(ActiveProfileError::InvalidProfileName)
            }
        },
    }
}

/// Reads the active profile file's content (`None` where there is no such file).
pub fn read_active_profile(content: Option<&str>) -> (r: Result<Option<String>, ActiveProfileError>)
    ensures
        match r {
            Ok(o) => active_profile_spec(ostr_ref(content)) == Ok::<
                Option<Seq<char>>,
                ActiveProfileError,
            >(ostr(o)),
            Err(e) => active_profile_spec(ostr_ref(content)) == Err::<
                Option<Seq<char>>,
                ActiveProfileError,
            >(e),
        },
{
    let c = match content {
        Some(c) => c,
        None => return Ok(None),
    };
    let name = trim_str(c);
    if name.as_str().is_empty() {
        return Ok(None);
    }
    if !validate_profile_name(name.as_str()) {
        return Err(ActiveProfileError::InvalidProfileName);
    }
    Ok(Some(name))
}

/// The view of an optional `&str`.
pub open spec fn ostr_ref(o: Option<&str>) -> Option<Seq<char>> {
    match o {
        Some(s) => Some(s@),
        None => None,
    }
}

/// The content of the active profile file naming `name`: the name and a newline; refused
/// for an invalid name.
pub fn save_active_profile(name: &str) -> (r: Result<String, ActiveProfileError>)
    ensures
        match r {
            Ok(c) => valid_profile_name(name@) && c@ == name@.push('\n'),
            Err(e) => !valid_profile_name(name@) && e == ActiveProfileError::InvalidProfileName,
        },
{
    if !validate_profile_name(name) {
        return Err(ActiveProfileError::InvalidProfileName);
    }
    proof {
        reveal_strlit("\n");
    }
    Ok(concat(name, "\n"))
}

/// The content of the profile mode file: `manual` or `auto`, and a newline.
pub fn save_profile_mode(manual: bool) -> (r: String)
    ensures
        r@ == if manual {
            "manual\n"@
        } else {
            "auto\n"@
        },
{
    if manual {
        "manual\n".to_owned()
    } else {
        "auto\n".to_owned()
    }
}

/// The active profile survives a restart: the file that [`save_active_profile`] writes for
/// a valid name reads back as that name.
pub proof fn lemma_active_profile_round_trip(name: Seq<char>)
    requires
        valid_profile_name(name),
    ensures
        active_profile_spec(Some(name.push('\n'))) == Ok::<Option<Seq<char>>, ActiveProfileError>(
            Some(name),
        ),
{
    assert(crate::engine::is_name_char(name[0]));
    assert(crate::engine::is_name_char(name[name.len() - 1]));
    crate::text::lemma_trim_line(name);
}

} // verus!
