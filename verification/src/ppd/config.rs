//! The PPD configuration (`ppd.conf`): PPD profile to TuneD profile, on AC and on battery.
use vstd::prelude::*;

use crate::ini::{
    ini_get, ini_get_spec, ini_read, ini_size_ok, ini_too_large, ini_view, ini_wf, read_ini,
    IniSections,
};
use crate::ppd::PpdError;
use crate::profile::IniMap;
use crate::strmap::{values_view, StrMap};
use crate::text::str_eq;
use crate::tuning::acpi::contains_str;

verus! {

pub const CONFIG_FILE: &'static str = "/etc/tuned/ppd.conf";
pub const BASE_PROFILE_FILE: &'static str = "/etc/tuned/ppd_base_profile";
pub const API_VERSION: &'static str = "0.23";
pub const DRIVER: &'static str = "tuned";

pub const POWER_SAVER: &'static str = "power-saver";
pub const BALANCED: &'static str = "balanced";
pub const PERFORMANCE: &'static str = "performance";
pub const UNKNOWN_PROFILE: &'static str = "unknown";

pub const UPOWER_BUS: &'static str = "org.freedesktop.UPower.PowerProfiles";
pub const UPOWER_PATH: &'static str = "/org/freedesktop/UPower/PowerProfiles";
pub const HADESS_BUS: &'static str = "net.hadess.PowerProfiles";
pub const HADESS_PATH: &'static str = "/net/hadess/PowerProfiles";

pub const UPOWER_POWER_BUS: &'static str = "org.freedesktop.UPower";
pub const UPOWER_POWER_PATH: &'static str = "/org/freedesktop/UPower";

pub const NO_TURBO_PATH: &'static str = "/sys/devices/system/cpu/intel_pstate/no_turbo";
pub const LAP_MODE_PATH: &'static str = "/sys/bus/platform/devices/thinkpad_acpi/dytc_lapmode";
pub const PLATFORM_PROFILE_PATH: &'static str = "/sys/firmware/acpi/platform_profile";

/// A mapping between profile names, one for AC power and one for battery.
#[derive(Debug)]
pub struct ProfileMap {
    ac: StrMap<String>,
    dc: StrMap<String>,
}

impl ProfileMap {
    #[verifier::type_invariant]
    spec fn inv(self) -> bool {
        self.ac.wf() && self.dc.wf()
    }

    /// The mapping on AC power.
    pub closed spec fn ac_map(&self) -> Map<Seq<char>, Seq<char>> {
        values_view(self.ac@)
    }

    /// The mapping on battery.
    pub closed spec fn dc_map(&self) -> Map<Seq<char>, Seq<char>> {
        values_view(self.dc@)
    }

    /// The mapping for the power source.
    pub open spec fn map_for(&self, on_battery: bool) -> Map<Seq<char>, Seq<char>> {
        if on_battery {
            self.dc_map()
        } else {
            self.ac_map()
        }
    }

    /// What `profile` maps to on the power source, or `UnknownProfile`.
    pub fn get(&self, profile: &str, on_battery: bool) -> (r: Result<&str, PpdError>)
        ensures
            match r {
                Ok(v) => self.map_for(on_battery).contains_key(profile@) && self.map_for(
                    on_battery,
                )[profile@] == v@,
                Err(e) => !self.map_for(on_battery).contains_key(profile@) && e
                    == PpdError::UnknownProfile,
            },
    {
        proof {
            use_type_invariant(self);
        }
        let map = if on_battery {
            &self.dc
        } else {
            &self.ac
        };
        match map.get(profile) {
            Some(v) => Ok(v.as_str()),
            None => Err(PpdError::UnknownProfile),
        }
    }

    /// The names mapped on the power source, each once.
    pub fn keys(&self, on_battery: bool) -> (r: Vec<String>)
        ensures
            r.deep_view().no_duplicates(),
            r.deep_view().to_set() == self.map_for(on_battery).dom(),
    {
        proof {
            use_type_invariant(self);
            self.ac.lemma_keys();
            self.dc.lemma_keys();
            assert(self.ac_map().dom() =~= self.ac@.dom());
            assert(self.dc_map().dom() =~= self.dc@.dom());
        }
        if on_battery {
            self.dc.keys()
        } else {
            self.ac.keys()
        }
    }

    /// What `tuned_profile` maps to on the power source, falling back to the other one.
    pub fn reverse_lookup(&self, tuned_profile: &str, on_battery: bool) -> (r: Option<&str>)
        ensures
            match r {
                Some(v) => (self.map_for(on_battery).contains_key(tuned_profile@) && self.map_for(
                    on_battery,
                )[tuned_profile@] == v@) || (!self.map_for(on_battery).contains_key(tuned_profile@)
                    && self.map_for(!on_battery).contains_key(tuned_profile@) && self.map_for(
                    !on_battery,
                )[tuned_profile@] == v@),
                None => !self.map_for(on_battery).contains_key(tuned_profile@) && !self.map_for(
                    !on_battery,
                ).contains_key(tuned_profile@),
            },
    {
        proof {
            use_type_invariant(self);
        }
        let (primary, fallback) = if on_battery {
            (&self.dc, &self.ac)
        } else {
            (&self.ac, &self.dc)
        };
        match primary.get(tuned_profile) {
            Some(v) => Some(v.as_str()),
            None => match fallback.get(tuned_profile) {
                Some(v) => Some(v.as_str()),
                None => None,
            },
        }
    }
}

/// The PPD daemon's settings.
#[derive(Debug)]
pub struct PpdConfig {
    pub default_profile: String,
    pub battery_detection: bool,
    pub sysfs_acpi_monitor: bool,
    pub ppd_to_tuned: ProfileMap,
    pub tuned_to_ppd: ProfileMap,
}

/// Why `ppd.conf` is refused.
#[derive(Debug)]
pub enum PpdConfigError {
    /// The INI text does not parse; the parser's message.
    Parse(String),
    /// The text is too large for the INI parser.
    TooLarge,
    /// There is no `[profiles]` section.
    MissingProfilesSection,
    /// `[profiles]` lacks one of `power-saver`, `balanced`, `performance` (the first missing).
    MissingProfile(String),
    /// The default profile is not in `[profiles]`.
    DefaultMissing(String),
    /// Battery detection is on but there is no `[battery]` section.
    MissingBatterySection,
    /// TuneD profiles that the mapping names but TuneD does not have.
    UnknownTunedProfiles(Vec<String>),
    /// `[battery]` names PPD profiles that `[profiles]` does not.
    UnknownBatteryProfiles(Vec<String>),
    /// Two PPD profiles map to the same TuneD profile.
    DuplicateMapping,
}

/// A section's keys that have a value, with their values.
pub open spec fn section_spec(m: IniMap, name: Seq<char>) -> Option<Map<Seq<char>, Seq<char>>> {
    if m.contains_key(name) {
        Some(
            Map::new(
                |k: Seq<char>| m[name].contains_key(k) && m[name][k] is Some,
                |k: Seq<char>| m[name][k]->Some_0,
            ),
        )
    } else {
        None
    }
}

/// The boolean words the configuration accepts as true.
pub open spec fn truthy(v: Seq<char>) -> bool {
    v == "1"@ || v == "true"@ || v == "yes"@ || v == "on"@
}

/// No two keys map to the same value.
pub open spec fn injective(m: Map<Seq<char>, Seq<char>>) -> bool {
    forall|a: Seq<char>, b: Seq<char>|
        #[trigger] m.contains_key(a) && #[trigger] m.contains_key(b) && a != b ==> m[a] != m[b]
}

/// The inverse of an injective map.
pub open spec fn inverse(m: Map<Seq<char>, Seq<char>>) -> Map<Seq<char>, Seq<char>> {
    Map::new(
        |v: Seq<char>| exists|k: Seq<char>| m.contains_key(k) && m[k] == v,
        |v: Seq<char>| choose|k: Seq<char>| m.contains_key(k) && m[k] == v,
    )
}

/// The default PPD profile: `[main]` `default` where it is set and non-empty, else
/// `balanced`.
pub open spec fn default_spec(m: IniMap) -> Seq<char> {
    match ini_get_spec(m, "main"@, "default"@) {
        Some(v) => if v.len() > 0 {
            v
        } else {
            "balanced"@
        },
        None => "balanced"@,
    }
}

/// Whether battery detection is on: `[main]` `battery_detection` read as a boolean, or
/// else whether there is a `[battery]` section.
pub open spec fn battery_detection_spec(m: IniMap) -> bool {
    match ini_get_spec(m, "main"@, "battery_detection"@) {
        Some(v) => truthy(v),
        None => m.contains_key("battery"@),
    }
}

/// Whether the ACPI platform profile is followed: `[main]` `sysfs_acpi_monitor` read as a
/// boolean, on by default.
pub open spec fn acpi_monitor_spec(m: IniMap) -> bool {
    match ini_get_spec(m, "main"@, "sysfs_acpi_monitor"@) {
        Some(v) => truthy(v),
        None => true,
    }
}

/// The battery mapping: the AC mapping with the `[battery]` entries laid over it.
pub open spec fn dc_spec(m: IniMap) -> Map<Seq<char>, Seq<char>> {
    let ac = section_spec(m, "profiles"@)->Some_0;
    match section_spec(m, "battery"@) {
        Some(b) => ac.union_prefer_right(b),
        None => ac,
    }
}

/// The TuneD profiles named by the mappings that TuneD does not have.
pub open spec fn unknown_tuned_spec(m: IniMap, tuned: Seq<Seq<char>>) -> Set<Seq<char>> {
    let ac = section_spec(m, "profiles"@)->Some_0;
    let dc = dc_spec(m);
    Set::new(
        |v: Seq<char>| (ac.values().contains(v) || dc.values().contains(v)) && !tuned.contains(v),
    )
}

/// The PPD profiles of the battery mapping that the AC mapping lacks.
pub open spec fn unknown_battery_spec(m: IniMap) -> Set<Seq<char>> {
    dc_spec(m).dom().difference(section_spec(m, "profiles"@)->Some_0.dom())
}

/// The kind of the first check that `ppd.conf` fails, in the order they are made.
pub enum ConfigFault {
    Parse,
    TooLarge,
    MissingProfilesSection,
    MissingProfile(Seq<char>),
    DefaultMissing(Seq<char>),
    MissingBatterySection,
    UnknownTunedProfiles,
    UnknownBatteryProfiles,
    DuplicateMapping,
}

/// The first check that the parsed sections `m` fail as a PPD configuration over the TuneD
/// profiles `tuned`, if any.
pub open spec fn sections_fault(m: IniMap, tuned: Seq<Seq<char>>) -> Option<ConfigFault> {
    match section_spec(m, "profiles"@) {
        None => Some(ConfigFault::MissingProfilesSection),
        Some(ac) => if !ac.contains_key("power-saver"@) {
            Some(ConfigFault::MissingProfile("power-saver"@))
        } else if !ac.contains_key("balanced"@) {
            Some(ConfigFault::MissingProfile("balanced"@))
        } else if !ac.contains_key("performance"@) {
            Some(ConfigFault::MissingProfile("performance"@))
        } else if !ac.contains_key(default_spec(m)) {
            Some(ConfigFault::DefaultMissing(default_spec(m)))
        } else if battery_detection_spec(m) && !m.contains_key("battery"@) {
            Some(ConfigFault::MissingBatterySection)
        } else if !unknown_tuned_spec(m, tuned).is_empty() {
            Some(ConfigFault::UnknownTunedProfiles)
        } else if !unknown_battery_spec(m).is_empty() {
            Some(ConfigFault::UnknownBatteryProfiles)
        } else if !injective(ac) || !injective(dc_spec(m)) {
            Some(ConfigFault::DuplicateMapping)
        } else {
            None
        },
    }
}

/// The first check that the INI text `content` fails as a PPD configuration over the TuneD
/// profiles `tuned`, if any.
pub open spec fn config_fault(content: Seq<char>, tuned: Seq<Seq<char>>) -> Option<ConfigFault> {
    if ini_too_large(content) {
        Some(ConfigFault::TooLarge)
    } else {
        config_fault_parsed(content, tuned)
    }
}

/// [`config_fault`] of a text small enough to parse.
pub open spec fn config_fault_parsed(content: Seq<char>, tuned: Seq<Seq<char>>) -> Option<ConfigFault> {
    match ini_read(content) {
        Err(_) => Some(ConfigFault::Parse),
        Ok(m) => sections_fault(m, tuned),
    }
}

/// Whether the error `e` reports the fault `f` of the parsed sections `m` (any fault but a
/// parse error).
pub open spec fn sections_error_matches(
    e: PpdConfigError,
    f: ConfigFault,
    m: IniMap,
    tuned: Seq<Seq<char>>,
) -> bool {
    match (e, f) {
        (PpdConfigError::MissingProfilesSection, ConfigFault::MissingProfilesSection) => true,
        (PpdConfigError::MissingProfile(p), ConfigFault::MissingProfile(q)) => p@ == q,
        (PpdConfigError::DefaultMissing(p), ConfigFault::DefaultMissing(q)) => p@ == q,
        (PpdConfigError::MissingBatterySection, ConfigFault::MissingBatterySection) => true,
        (PpdConfigError::UnknownTunedProfiles(v), ConfigFault::UnknownTunedProfiles) => v.deep_view().to_set()
            == unknown_tuned_spec(m, tuned),
        (PpdConfigError::UnknownBatteryProfiles(v), ConfigFault::UnknownBatteryProfiles) => v.deep_view().to_set()
            == unknown_battery_spec(m),
        (PpdConfigError::DuplicateMapping, ConfigFault::DuplicateMapping) => true,
        _ => false,
    }
}

/// Whether the error `e` reports the fault `f` of `content`.
pub open spec fn error_matches(e: PpdConfigError, f: ConfigFault, content: Seq<char>, tuned: Seq<Seq<char>>) -> bool {
    match (e, f) {
        (PpdConfigError::Parse(msg), ConfigFault::Parse) => ini_read(content) == Err::<IniMap, Seq<char>>(msg@),
        (PpdConfigError::TooLarge, ConfigFault::TooLarge) => true,
        _ => sections_error_matches(e, f, ini_read(content)->Ok_0, tuned),
    }
}

/// Whether `c` is the configuration that the valid INI sections `m` describe.
pub open spec fn config_matches(c: PpdConfig, m: IniMap) -> bool {
    let ac = section_spec(m, "profiles"@)->Some_0;
    let dc = dc_spec(m);
    &&& c.default_profile@ == default_spec(m)
    &&& c.battery_detection == battery_detection_spec(m)
    &&& c.sysfs_acpi_monitor == acpi_monitor_spec(m)
    &&& c.ppd_to_tuned.ac_map() == ac
    &&& c.ppd_to_tuned.dc_map() == dc
    &&& c.tuned_to_ppd.ac_map() == inverse(ac)
    &&& c.tuned_to_ppd.dc_map() == inverse(dc)
}

fn section_map(ini: &IniSections, name: &str) -> (r: Option<StrMap<String>>)
    requires
        ini_wf(*ini),
    ensures
        match r {
            Some(s) => s.wf() && section_spec(ini_view(*ini), name@) == Some(values_view(s@)),
            None => section_spec(ini_view(*ini), name@) is None,
        },
{
    let ghost m = ini_view(*ini);
    match ini.find(name) {
        None => None,
        Some(si) => {
            proof {
                ini.lemma_entry(si as int);
            }
            let sec = &ini.entries[si].1;
            let ghost sm = crate::ini::section_view(*sec);
            let mut out: StrMap<String> = StrMap::new();
            let mut i: usize = 0;
            while i < sec.entries.len()
                invariant
                    sec.wf(),
                    m.contains_key(name@),
                    m[name@] == sm,
                    sm == crate::ini::section_view(*sec),
                    i <= sec.entries@.len(),
                    out.wf(),
                    forall|k: Seq<char>|
                        #[trigger] out@.contains_key(k) <==> exists|j: int|
                            0 <= j < i && (#[trigger] sec.entries@[j]).0@ == k
                                && sec.entries@[j].1 is Some,
                    forall|k: Seq<char>|
                        #[trigger] out@.contains_key(k) ==> sm.contains_key(k) && sm[k] is Some
                            && out@[k]@ == sm[k]->Some_0,
                decreases sec.entries@.len() - i,
            {
                proof {
                    sec.lemma_entry(i as int);
                }
                match &sec.entries[i].1 {
                    Some(v) => {
                        let key = sec.entries[i].0.clone();
                        let value = v.clone();
                        let ghost before = out@;
                        out.insert(key, value);
                        proof {
                            assert forall|k: Seq<char>| #[trigger] out@.contains_key(k) <==> exists|
                                j: int,
                            |
                                0 <= j < i + 1 && (#[trigger] sec.entries@[j]).0@ == k
                                    && sec.entries@[j].1 is Some by {
                                if k == sec.entries@[i as int].0@ {
                                    assert(sec.entries@[i as int].0@ == k);
                                } else if out@.contains_key(k) {
                                    assert(before.contains_key(k));
                                }
                            }
                        }
                    },
                    None => {
                        proof {
                            assert forall|k: Seq<char>| #[trigger] out@.contains_key(k) <==> exists|
                                j: int,
                            |
                                0 <= j < i + 1 && (#[trigger] sec.entries@[j]).0@ == k
                                    && sec.entries@[j].1 is Some by {
                                if exists|j: int|
                                    0 <= j < i + 1 && (#[trigger] sec.entries@[j]).0@ == k
                                        && sec.entries@[j].1 is Some {
                                    let j = choose|j: int|
                                        0 <= j < i + 1 && (#[trigger] sec.entries@[j]).0@ == k
                                            && sec.entries@[j].1 is Some;
                                    assert(j != i);
                                }
                            }
                        }
                    },
                }
                i = i + 1;
            }
            proof {
                let want = section_spec(m, name@)->Some_0;
                assert forall|k: Seq<char>| #[trigger] values_view(out@).contains_key(k)
                    <==> want.contains_key(k) by {
                    if sm.contains_key(k) && sm[k] is Some {
                        let j = sec.index_of(k);
                        assert(sec.entries@[j].0@ == k);
                        sec.lemma_entry(j);
                    }
                }
                assert(values_view(out@) =~= want);
            }
            Some(out)
        },
    }
}


fn is_truthy(v: &str) -> (r: bool)
    ensures
        r == truthy(v@),
{
    str_eq(v, "1") || str_eq(v, "true") || str_eq(v, "yes") || str_eq(v, "on")
}

/// The values of a map are the values of its entries.
proof fn lemma_values(m: &StrMap<String>, v: Seq<char>)
    requires
        m.wf(),
    ensures
        values_view(m@).values().contains(v) <==> exists|j: int|
            0 <= j < m.entries@.len() && (#[trigger] m.entries@[j]).1@ == v,
{
    if values_view(m@).values().contains(v) {
        let k = choose|k: Seq<char>| values_view(m@).contains_key(k) && values_view(m@)[k] == v;
        let j = m.index_of(k);
        m.lemma_entry(j);
        assert(m.entries@[j].1@ == v);
    }
    if exists|j: int| 0 <= j < m.entries@.len() && (#[trigger] m.entries@[j]).1@ == v {
        let j = choose|j: int| 0 <= j < m.entries@.len() && (#[trigger] m.entries@[j]).1@ == v;
        m.lemma_entry(j);
        assert(values_view(m@).contains_key(m.entries@[j].0@));
        assert(values_view(m@)[m.entries@[j].0@] == v);
    }
}

fn merge(ac: &StrMap<String>, bat: &StrMap<String>) -> (r: StrMap<String>)
    requires
        ac.wf(),
        bat.wf(),
    ensures
        r.wf(),
        values_view(r@) == values_view(ac@).union_prefer_right(values_view(bat@)),
{
    let mut out = ac.copy();
    proof {
        assert forall|k: Seq<char>| #[trigger] out@.contains_key(k) == ac@.contains_key(k) by {
            assert(values_view(out@).contains_key(k) == out@.contains_key(k));
            assert(values_view(ac@).contains_key(k) == ac@.contains_key(k));
        }
        assert forall|k: Seq<char>| #[trigger] out@.contains_key(k) implies out@[k]@ == ac@[k]@ by {
            assert(values_view(out@)[k] == out@[k]@);
            assert(values_view(ac@)[k] == ac@[k]@);
        }
    }
    let mut i: usize = 0;
    while i < bat.entries.len()
        invariant
            ac.wf(),
            bat.wf(),
            out.wf(),
            i <= bat.entries@.len(),
            forall|k: Seq<char>|
                #[trigger] out@.contains_key(k) <==> (ac@.contains_key(k) || exists|j: int|
                    0 <= j < i && (#[trigger] bat.entries@[j]).0@ == k),
            forall|j: int| 0 <= j < i ==> out@[(#[trigger] bat.entries@[j]).0@]@ == bat.entries@[j].1@,
            forall|k: Seq<char>|
                #[trigger] out@.contains_key(k) && !(exists|j: int|
                    0 <= j < i && (#[trigger] bat.entries@[j]).0@ == k) ==> out@[k]@ == ac@[k]@,
        decreases bat.entries@.len() - i,
    {
        let k = bat.entries[i].0.clone();
        let v = bat.entries[i].1.clone();
        let ghost before = out@;
        out.insert(k, v);
        proof {
            assert forall|j: int| 0 <= j < i + 1 implies out@[(#[trigger] bat.entries@[j]).0@]@
                == bat.entries@[j].1@ by {
                if j < i {
                    assert(bat.entries@[j].0@ != bat.entries@[i as int].0@);
                }
            }
            assert forall|q: Seq<char>| #[trigger] out@.contains_key(q) <==> (ac@.contains_key(q)
                || exists|j: int| 0 <= j < i + 1 && (#[trigger] bat.entries@[j]).0@ == q) by {
                if q == bat.entries@[i as int].0@ {
                    assert(bat.entries@[i as int].0@ == q);
                }
                if exists|j: int| 0 <= j < i + 1 && (#[trigger] bat.entries@[j]).0@ == q {
                    let j = choose|j: int| 0 <= j < i + 1 && (#[trigger] bat.entries@[j]).0@ == q;
                    if j < i {
                        assert(before.contains_key(q));
                    }
                }
            }
            assert forall|q: Seq<char>| #[trigger] out@.contains_key(q) && !(exists|j: int|
                0 <= j < i + 1 && (#[trigger] bat.entries@[j]).0@ == q) implies out@[q]@
                == ac@[q]@ by {
                assert(q != bat.entries@[i as int].0@);
                assert(!(exists|j: int| 0 <= j < i && (#[trigger] bat.entries@[j]).0@ == q)) by {
                    if exists|j: int| 0 <= j < i && (#[trigger] bat.entries@[j]).0@ == q {
                        let j = choose|j: int| 0 <= j < i && (#[trigger] bat.entries@[j]).0@ == q;
                        assert(bat.entries@[j].0@ == q);
                    }
                }
            }
        }
        i = i + 1;
    }
    proof {
        let want = values_view(ac@).union_prefer_right(values_view(bat@));
        assert forall|q: Seq<char>| #[trigger] values_view(out@).contains_key(q)
            <==> want.contains_key(q) by {
            if bat@.contains_key(q) {
                let j = bat.index_of(q);
                assert(bat.entries@[j].0@ == q);
            }
            if exists|j: int| 0 <= j < bat.entries@.len() && (#[trigger] bat.entries@[j]).0@ == q {
                let j = choose|j: int| 0 <= j < bat.entries@.len() && (#[trigger] bat.entries@[j]).0@ == q;
                bat.lemma_entry(j);
            }
        }
        assert forall|q: Seq<char>| #[trigger] values_view(out@).contains_key(q) implies values_view(
            out@,
        )[q] == want[q] by {
            if bat@.contains_key(q) {
                let j = bat.index_of(q);
                assert(bat.entries@[j].0@ == q);
                bat.lemma_entry(j);
            } else {
                if exists|j: int| 0 <= j < bat.entries@.len() && (#[trigger] bat.entries@[j]).0@ == q {
                    let j = choose|j: int| 0 <= j < bat.entries@.len() && (#[trigger] bat.entries@[j]).0@ == q;
                    bat.lemma_entry(j);
                }
            }
        }
        assert(values_view(out@) =~= want);
    }
    out
}

fn values_distinct(m: &StrMap<String>) -> (r: bool)
    requires
        m.wf(),
    ensures
        r == injective(values_view(m@)),
{
    let n = m.entries.len();
    let mut i: usize = 0;
    while i < n
        invariant
            m.wf(),
            n == m.entries@.len(),
            i <= n,
            forall|a: int, b: int|
                0 <= a < i && a < b < n ==> (#[trigger] m.entries@[a]).1@ != (
                #[trigger] m.entries@[b]).1@,
        decreases n - i,
    {
        let mut j: usize = i + 1;
        while j < n
            invariant
                m.wf(),
                n == m.entries@.len(),
                i < n,
                i + 1 <= j <= n,
                forall|a: int, b: int|
                    0 <= a < i && a < b < n ==> (#[trigger] m.entries@[a]).1@ != (
                    #[trigger] m.entries@[b]).1@,
                forall|b: int| i < b < j ==> m.entries@[i as int].1@ != (#[trigger] m.entries@[b]).1@,
            decreases n - j,
        {
            if str_eq(m.entries[i].1.as_str(), m.entries[j].1.as_str()) {
                proof {
                    let ka = m.entries@[i as int].0@;
                    let kb = m.entries@[j as int].0@;
                    m.lemma_entry(i as int);
                    m.lemma_entry(j as int);
                    assert(ka != kb);
                    assert(values_view(m@).contains_key(ka) && values_view(m@).contains_key(kb));
                }
                return false;
            }
            j = j + 1;
        }
        i = i + 1;
    }
    proof {
        assert forall|a: Seq<char>, b: Seq<char>|
            #[trigger] values_view(m@).contains_key(a) && #[trigger] values_view(m@).contains_key(b)
                && a != b implies values_view(m@)[a] != values_view(m@)[b] by {
            let ia = m.index_of(a);
            let ib = m.index_of(b);
            m.lemma_entry(ia);
            m.lemma_entry(ib);
            assert(ia != ib);
            if ia < ib {
                assert(m.entries@[ia].1@ != m.entries@[ib].1@);
            } else {
                assert(m.entries@[ib].1@ != m.entries@[ia].1@);
            }
        }
    }
    true
}

fn reverse(m: &StrMap<String>) -> (r: StrMap<String>)
    requires
        m.wf(),
        injective(values_view(m@)),
    ensures
        r.wf(),
        values_view(r@) == inverse(values_view(m@)),
{
    let mut out: StrMap<String> = StrMap::new();
    let ghost mm = values_view(m@);
    let mut i: usize = 0;
    while i < m.entries.len()
        invariant
            m.wf(),
            mm == values_view(m@),
            injective(mm),
            out.wf(),
            i <= m.entries@.len(),
            forall|v: Seq<char>|
                #[trigger] out@.contains_key(v) <==> exists|j: int|
                    0 <= j < i && (#[trigger] m.entries@[j]).1@ == v,
            forall|j: int| 0 <= j < i ==> out@[(#[trigger] m.entries@[j]).1@]@ == m.entries@[j].0@,
        decreases m.entries@.len() - i,
    {
        let v = m.entries[i].1.clone();
        let k = m.entries[i].0.clone();
        let ghost before = out@;
        out.insert(v, k);
        proof {
            assert forall|j: int| 0 <= j < i + 1 implies out@[(#[trigger] m.entries@[j]).1@]@
                == m.entries@[j].0@ by {
                if j < i {
                    m.lemma_entry(j);
                    m.lemma_entry(i as int);
                    assert(m.entries@[j].0@ != m.entries@[i as int].0@);
                    assert(mm.contains_key(m.entries@[j].0@));
                    assert(mm.contains_key(m.entries@[i as int].0@));
                    assert(mm[m.entries@[j].0@] != mm[m.entries@[i as int].0@]);
                    assert(mm[m.entries@[j].0@] == m.entries@[j].1@);
                    assert(mm[m.entries@[i as int].0@] == m.entries@[i as int].1@);
                }
            }
            assert forall|q: Seq<char>| #[trigger] out@.contains_key(q) <==> exists|j: int|
                0 <= j < i + 1 && (#[trigger] m.entries@[j]).1@ == q by {
                if q == m.entries@[i as int].1@ {
                    assert(m.entries@[i as int].1@ == q);
                }
                if exists|j: int| 0 <= j < i + 1 && (#[trigger] m.entries@[j]).1@ == q {
                    let j = choose|j: int| 0 <= j < i + 1 && (#[trigger] m.entries@[j]).1@ == q;
                    if j < i {
                        assert(before.contains_key(q));
                    }
                }
            }
        }
        i = i + 1;
    }
    proof {
        let want = inverse(mm);
        assert forall|v: Seq<char>| #[trigger] values_view(out@).contains_key(v)
            <==> want.contains_key(v) by {
            lemma_values(m, v);
        }
        assert forall|v: Seq<char>| #[trigger] values_view(out@).contains_key(v) implies values_view(
            out@,
        )[v] == want[v] by {
            let j = choose|j: int| 0 <= j < m.entries@.len() && (#[trigger] m.entries@[j]).1@ == v;
            m.lemma_entry(j);
            let k = m.entries@[j].0@;
            assert(mm.contains_key(k) && mm[k] == v);
            let c = choose|c: Seq<char>| mm.contains_key(c) && mm[c] == v;
            assert(c == k);
        }
        assert(values_view(out@) =~= want);
    }
    out
}

fn unknown_values(ac: &StrMap<String>, dc: &StrMap<String>, tuned: &Vec<String>) -> (r: Vec<String>)
    requires
        ac.wf(),
        dc.wf(),
    ensures
        r.deep_view().to_set() == Set::new(
            |v: Seq<char>| (values_view(ac@).values().contains(v) || values_view(dc@).values().contains(v))
                && !tuned.deep_view().contains(v),
        ),
{
    let mut out: Vec<String> = Vec::new();
    let mut i: usize = 0;
    while i < ac.entries.len()
        invariant
            ac.wf(),
            i <= ac.entries@.len(),
            forall|v: Seq<char>|
                #[trigger] out.deep_view().contains(v) <==> (exists|j: int|
                    0 <= j < i && (#[trigger] ac.entries@[j]).1@ == v) && !tuned.deep_view().contains(v),
        decreases ac.entries@.len() - i,
    {
        if !contains_str(tuned, ac.entries[i].1.as_str()) {
            let v = ac.entries[i].1.clone();
            let ghost before = out.deep_view();
            out.push(v);
            proof {
                assert(out.deep_view() =~= before.push(v@));
                assert forall|q: Seq<char>| #[trigger] out.deep_view().contains(q) <==> (exists|j: int|
                    0 <= j < i + 1 && (#[trigger] ac.entries@[j]).1@ == q) && !tuned.deep_view().contains(q) by {
                    if q == v@ {
                        assert(out.deep_view()[before.len() as int] == q);
                        assert(ac.entries@[i as int].1@ == q);
                    } else {
                        if out.deep_view().contains(q) {
                            let w = choose|w: int| 0 <= w < out.deep_view().len() && out.deep_view()[w] == q;
                            assert(before[w] == q);
                        }
                        if (exists|j: int| 0 <= j < i + 1 && (#[trigger] ac.entries@[j]).1@ == q) {
                            let j = choose|j: int| 0 <= j < i + 1 && (#[trigger] ac.entries@[j]).1@ == q;
                            assert(j != i);
                            assert(exists|j2: int| 0 <= j2 < i && (#[trigger] ac.entries@[j2]).1@ == q);
                        }
                        if before.contains(q) {
                            let w = choose|w: int| 0 <= w < before.len() && before[w] == q;
                            assert(out.deep_view()[w] == q);
                        }
                    }
                }
            }
        }
        i = i + 1;
    }
    let mut k: usize = 0;
    while k < dc.entries.len()
        invariant
            ac.wf(),
            dc.wf(),
            k <= dc.entries@.len(),
            forall|v: Seq<char>|
                #[trigger] out.deep_view().contains(v) <==> ((exists|j: int|
                    0 <= j < ac.entries@.len() && (#[trigger] ac.entries@[j]).1@ == v) || (exists|j: int|
                    0 <= j < k && (#[trigger] dc.entries@[j]).1@ == v)) && !tuned.deep_view().contains(v),
        decreases dc.entries@.len() - k,
    {
        if !contains_str(tuned, dc.entries[k].1.as_str()) {
            let v = dc.entries[k].1.clone();
            let ghost before = out.deep_view();
            out.push(v);
            proof {
                assert(out.deep_view() =~= before.push(v@));
                assert forall|q: Seq<char>| #[trigger] out.deep_view().contains(q) <==> ((exists|j: int|
                    0 <= j < ac.entries@.len() && (#[trigger] ac.entries@[j]).1@ == q) || (exists|j: int|
                    0 <= j < k + 1 && (#[trigger] dc.entries@[j]).1@ == q)) && !tuned.deep_view().contains(q) by {
                    if q == v@ {
                        assert(out.deep_view()[before.len() as int] == q);
                        assert(dc.entries@[k as int].1@ == q);
                    } else {
                        if out.deep_view().contains(q) {
                            let w = choose|w: int| 0 <= w < out.deep_view().len() && out.deep_view()[w] == q;
                            assert(before[w] == q);
                        }
                        if before.contains(q) {
                            let w = choose|w: int| 0 <= w < before.len() && before[w] == q;
                            assert(out.deep_view()[w] == q);
                        }
                    }
                }
            }
        }
        k = k + 1;
    }
    proof {
        let want = Set::new(
            |v: Seq<char>| (values_view(ac@).values().contains(v) || values_view(dc@).values().contains(v))
                && !tuned.deep_view().contains(v),
        );
        assert forall|v: Seq<char>| out.deep_view().to_set().contains(v) <==> want.contains(v) by {
            lemma_values(ac, v);
            lemma_values(dc, v);
        }
        assert(out.deep_view().to_set() =~= want);
    }
    out
}

fn missing_keys(dc: &StrMap<String>, ac: &StrMap<String>) -> (r: Vec<String>)
    requires
        ac.wf(),
        dc.wf(),
    ensures
        r.deep_view().to_set() == values_view(dc@).dom().difference(values_view(ac@).dom()),
{
    let mut out: Vec<String> = Vec::new();
    let mut i: usize = 0;
    while i < dc.entries.len()
        invariant
            ac.wf(),
            dc.wf(),
            i <= dc.entries@.len(),
            forall|v: Seq<char>|
                #[trigger] out.deep_view().contains(v) <==> (exists|j: int|
                    0 <= j < i && (#[trigger] dc.entries@[j]).0@ == v) && !ac@.contains_key(v),
        decreases dc.entries@.len() - i,
    {
        if !ac.contains_key(dc.entries[i].0.as_str()) {
            let v = dc.entries[i].0.clone();
            let ghost before = out.deep_view();
            out.push(v);
            proof {
                assert(out.deep_view() =~= before.push(v@));
                assert forall|q: Seq<char>| #[trigger] out.deep_view().contains(q) <==> (exists|j: int|
                    0 <= j < i + 1 && (#[trigger] dc.entries@[j]).0@ == q) && !ac@.contains_key(q) by {
                    if q == v@ {
                        assert(out.deep_view()[before.len() as int] == q);
                        assert(dc.entries@[i as int].0@ == q);
                    } else {
                        if out.deep_view().contains(q) {
                            let w = choose|w: int| 0 <= w < out.deep_view().len() && out.deep_view()[w] == q;
                            assert(before[w] == q);
                        }
                        if before.contains(q) {
                            let w = choose|w: int| 0 <= w < before.len() && before[w] == q;
                            assert(out.deep_view()[w] == q);
                        }
                    }
                }
            }
        }
        i = i + 1;
    }
    proof {
        let want = values_view(dc@).dom().difference(values_view(ac@).dom());
        assert forall|v: Seq<char>| out.deep_view().to_set().contains(v) <==> want.contains(v) by {
            if dc@.contains_key(v) {
                let j = dc.index_of(v);
                assert(dc.entries@[j].0@ == v);
            }
            if exists|j: int| 0 <= j < dc.entries@.len() && (#[trigger] dc.entries@[j]).0@ == v {
                let j = choose|j: int| 0 <= j < dc.entries@.len() && (#[trigger] dc.entries@[j]).0@ == v;
                dc.lemma_entry(j);
            }
        }
        assert(out.deep_view().to_set() =~= want);
    }
    out
}

proof fn lemma_empty_iff(v: Seq<Seq<char>>, s: Set<Seq<char>>)
    requires
        v.to_set() == s,
    ensures
        (v.len() == 0) <==> s.is_empty(),
{
    if v.len() > 0 {
        assert(v.to_set().contains(v[0]));
    }
    if !s.is_empty() {
        let x = s.choose();
        assert(v.to_set().contains(x));
    }
}

/// The boolean words of `ppd.conf` are exactly `1`, `true`, `yes` and `on`: where
/// `[main]` sets `battery_detection` or `sysfs_acpi_monitor`, the setting is on exactly
/// when its value is one of them.
pub proof fn lemma_boolean_words(m: IniMap)
    ensures
        ini_get_spec(m, "main"@, "battery_detection"@) matches Some(v) ==> (battery_detection_spec(m)
            <==> (v == "1"@ || v == "true"@ || v == "yes"@ || v == "on"@)),
        ini_get_spec(m, "main"@, "sysfs_acpi_monitor"@) matches Some(v) ==> (acpi_monitor_spec(m)
            <==> (v == "1"@ || v == "true"@ || v == "yes"@ || v == "on"@)),
        ini_get_spec(m, "main"@, "sysfs_acpi_monitor"@) is None ==> acpi_monitor_spec(m),
        ini_get_spec(m, "main"@, "battery_detection"@) is None ==> (battery_detection_spec(m)
            <==> m.contains_key("battery"@)),
{
}

/// A loaded configuration maps back what it maps: where PPD profile `p` selects TuneD
/// profile `t` on a power source, the reverse mapping of that power source takes `t` back to
/// `p` (so a TuneD profile change is reported as the PPD profile that caused it).
pub proof fn lemma_reverse_of_mapped(
    c: PpdConfig,
    content: Seq<char>,
    tuned: Seq<Seq<char>>,
    on_battery: bool,
    p: Seq<char>,
)
    requires
        config_fault(content, tuned) is None,
        config_matches(c, ini_read(content)->Ok_0),
        c.ppd_to_tuned.map_for(on_battery).contains_key(p),
    ensures
        c.tuned_to_ppd.map_for(on_battery).contains_key(c.ppd_to_tuned.map_for(on_battery)[p]),
        c.tuned_to_ppd.map_for(on_battery)[c.ppd_to_tuned.map_for(on_battery)[p]] == p,
{
    let m = ini_read(content)->Ok_0;
    let fwd = c.ppd_to_tuned.map_for(on_battery);
    let t = fwd[p];
    assert(injective(fwd));
    assert(inverse(fwd).contains_key(t));
    let k = choose|k: Seq<char>| fwd.contains_key(k) && fwd[k] == t;
    if k != p {
        assert(fwd[k] != fwd[p]);
    }
}

impl PpdConfig {
    /// Reads the PPD configuration from the INI text `content`, checking it against the TuneD
    /// profiles that exist (`tuned_profiles`). The checks are made in this order: the text is
    /// small enough for the parser; it parses; there is a `[profiles]` section; it maps `power-saver`, `balanced` and
    /// `performance`; it maps the default profile; a `[battery]` section exists where battery
    /// detection is on; every TuneD profile named exists; `[battery]` names only PPD profiles
    /// of `[profiles]`; no two PPD profiles share a TuneD profile, on AC or on battery.
    pub fn load(content: &str, tuned_profiles: &Vec<String>) -> (r: Result<PpdConfig, PpdConfigError>)
        ensures
            match r {
                Ok(c) => config_fault(content@, tuned_profiles.deep_view()) is None && config_matches(
                    c,
                    ini_read(content@)->Ok_0,
                ),
                Err(e) => config_fault(content@, tuned_profiles.deep_view()) matches Some(f)
                    && error_matches(e, f, content@, tuned_profiles.deep_view()),
            },
    {
        if !ini_size_ok(content) {
            return Err(PpdConfigError::TooLarge);
        }
        let ini = match read_ini(content) {
            Ok(i) => i,
            Err(msg) => return Err(PpdConfigError::Parse(msg)),
        };
        PpdConfig::from_sections(&ini, tuned_profiles)
    }

    /// Builds the PPD configuration from the parsed sections `ini`, checking it against the
    /// TuneD profiles that exist (`tuned_profiles`), with the checks of [`PpdConfig::load`]
    /// after parsing, in the same order.
    pub fn from_sections(ini: &IniSections, tuned_profiles: &Vec<String>) -> (r: Result<
        PpdConfig,
        PpdConfigError,
    >)
        requires
            ini_wf(*ini),
        ensures
            match r {
                Ok(c) => sections_fault(ini_view(*ini), tuned_profiles.deep_view()) is None
                    && config_matches(c, ini_view(*ini)),
                Err(e) => sections_fault(ini_view(*ini), tuned_profiles.deep_view()) matches Some(f)
                    && sections_error_matches(e, f, ini_view(*ini), tuned_profiles.deep_view()),
            },
    {
        let ghost m = ini_view(*ini);
        let ac = match section_map(ini, "profiles") {
            Some(s) => s,
            None => return Err(PpdConfigError::MissingProfilesSection),
        };
        if !ac.contains_key(POWER_SAVER) {
            return Err(PpdConfigError::MissingProfile(POWER_SAVER.to_owned()));
        }
        if !ac.contains_key(BALANCED) {
            return Err(PpdConfigError::MissingProfile(BALANCED.to_owned()));
        }
        if !ac.contains_key(PERFORMANCE) {
            return Err(PpdConfigError::MissingProfile(PERFORMANCE.to_owned()));
        }
        let default_profile = match ini_get(ini, "main", "default") {
            Some(v) => if v.as_str().is_empty() {
                BALANCED.to_owned()
            } else {
                v
            },
            None => BALANCED.to_owned(),
        };
        if !ac.contains_key(default_profile.as_str()) {
            return Err(PpdConfigError::DefaultMissing(default_profile));
        }
        let battery = section_map(ini, "battery");
        let battery_detection = match ini_get(ini, "main", "battery_detection") {
            Some(v) => is_truthy(v.as_str()),
            None => battery.is_some(),
        };
        if battery_detection && battery.is_none() {
            return Err(PpdConfigError::MissingBatterySection);
        }
        let dc = match &battery {
            Some(b) => merge(&ac, b),
            None => ac.copy(),
        };
        proof {
            assert(values_view(dc@) == dc_spec(m));
        }
        let unknown = unknown_values(&ac, &dc, tuned_profiles);
        proof {
            assert(unknown.deep_view().to_set() =~= unknown_tuned_spec(m, tuned_profiles.deep_view()));
            lemma_empty_iff(unknown.deep_view(), unknown_tuned_spec(m, tuned_profiles.deep_view()));
        }
        if unknown.len() > 0 {
            return Err(PpdConfigError::UnknownTunedProfiles(unknown));
        }
        let unknown_battery = missing_keys(&dc, &ac);
        proof {
            assert(unknown_battery.deep_view().to_set() =~= unknown_battery_spec(m));
            lemma_empty_iff(unknown_battery.deep_view(), unknown_battery_spec(m));
        }
        if unknown_battery.len() > 0 {
            return Err(PpdConfigError::UnknownBatteryProfiles(unknown_battery));
        }
        if !values_distinct(&ac) || !values_distinct(&dc) {
            return Err(PpdConfigError::DuplicateMapping);
        }
        let sysfs_acpi_monitor = match ini_get(ini, "main", "sysfs_acpi_monitor") {
            Some(v) => is_truthy(v.as_str()),
            None => true,
        };
        let tuned_ac = reverse(&ac);
        let tuned_dc = reverse(&dc);
        let c = PpdConfig {
            default_profile,
            battery_detection,
            sysfs_acpi_monitor,
            ppd_to_tuned: ProfileMap { ac, dc },
            tuned_to_ppd: ProfileMap { ac: tuned_ac, dc: tuned_dc },
        };
        Ok(c)
    }
}

impl PpdConfig {
    /// Whether the ACPI platform profile is to be followed: the configuration asks for it and
    /// the `platform_profile` file exists.
    pub fn monitors_platform_profile(&self, platform_file_exists: bool) -> (r: bool)
        ensures
            r == (self.sysfs_acpi_monitor && platform_file_exists),
    {
        self.sysfs_acpi_monitor && platform_file_exists
    }
}

/// The PPD profile that an ACPI platform profile stands for, if any.
pub open spec fn platform_profile_to_ppd_spec(raw: Seq<char>) -> Option<Seq<char>> {
    let t = crate::text::trim(raw);
    if t == "low-power"@ {
        Some("power-saver"@)
    } else if t == "balanced"@ {
        Some("balanced"@)
    } else if t == "performance"@ {
        Some("performance"@)
    } else {
        None
    }
}

/// Maps the ACPI platform profile `raw` (`low-power`, `balanced`, `performance`) to its PPD
/// profile.
pub fn platform_profile_to_ppd(raw: &str) -> (r: Option<&'static str>)
    ensures
        match r {
            Some(p) => platform_profile_to_ppd_spec(raw@) == Some(p@),
            None => platform_profile_to_ppd_spec(raw@) is None,
        },
{
    let t = crate::text::trim_str(raw);
    if str_eq(t.as_str(), "low-power") {
        Some(POWER_SAVER)
    } else if str_eq(t.as_str(), "balanced") {
        Some(BALANCED)
    } else if str_eq(t.as_str(), "performance") {
        Some(PERFORMANCE)
    } else {
        None
    }
}

} // verus!
