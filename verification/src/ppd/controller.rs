//! The PPD daemon's state and its decisions: active and base profile, holds, battery state
//! and performance degradation. The caller performs the D-Bus calls and file writes that a
//! decision asks for and hands back what they returned.
use vstd::prelude::*;

use crate::ppd::config::{
    platform_profile_to_ppd, platform_profile_to_ppd_spec, PpdConfig, DRIVER,
    PERFORMANCE, POWER_SAVER, UNKNOWN_PROFILE, UPOWER_POWER_BUS,
};
use crate::ppd::tuned_client::ProfileChangedEvent;
use crate::ppd::PpdError;
use crate::text::{concat, is_ws, str_eq, trim, trim_str};

verus! {

/// Why the system may not reach full performance.
#[derive(Debug, Clone, Copy, PartialEq, Eq, Structural)]
pub enum PerformanceDegraded {
    /// Nothing holds performance back.
    NotDegraded,
    /// The laptop sits on a lap (ThinkPad `dytc_lapmode`).
    LapDetected,
    /// Turbo is off (`intel_pstate/no_turbo`).
    HighOperatingTemperature,
}

/// The reason string of a degradation.
pub open spec fn degraded_str(d: PerformanceDegraded) -> Seq<char> {
    match d {
        PerformanceDegraded::NotDegraded => ""@,
        PerformanceDegraded::LapDetected => "lap-detected"@,
        PerformanceDegraded::HighOperatingTemperature => "high-operating-temperature"@,
    }
}

impl PerformanceDegraded {
    /// The value of the `PerformanceDegraded` property.
    pub fn as_str(&self) -> (r: &'static str)
        ensures
            r@ == degraded_str(*self),
    {
        match self {
            PerformanceDegraded::NotDegraded => "",
            PerformanceDegraded::LapDetected => "lap-detected",
            PerformanceDegraded::HighOperatingTemperature => "high-operating-temperature",
        }
    }
}

/// An application's request to hold a profile.
#[derive(Debug, Clone)]
pub struct ProfileHold {
    pub profile: String,
    pub reason: String,
    pub app_id: String,
    /// The D-Bus name of the caller, which alone may release the hold.
    pub caller: String,
}

/// What the watcher of a hold does after one poll of its owner.
#[derive(Debug)]
pub enum WatchStep {
    /// The hold is gone: stop watching.
    Stop,
    /// Poll again later.
    KeepWatching,
    /// The owner left the bus and its hold was released: switch to this profile.
    Released(String),
}

/// Whether TuneD must be asked to switch: its active profile `current` is not already
/// `target`.
pub fn tuned_switch_needed(current: &str, target: &str) -> (r: bool)
    ensures
        r == (current@ != target@),
{
    !str_eq(current, target)
}

/// The power source that a UPower `PropertiesChanged` signal reports: the `OnBattery` value
/// (`None` where the signal holds none, or not a boolean) of the interface `interface`, where
/// that is UPower's own.
pub fn battery_from_properties(interface: &str, on_battery: Option<bool>) -> (r: Option<bool>)
    ensures
        r == if interface@ == "org.freedesktop.UPower"@ {
            on_battery
        } else {
            None
        },
{
    if str_eq(interface, UPOWER_POWER_BUS) {
        on_battery
    } else {
        None
    }
}

/// The number of distinct `u32` values.
pub open spec fn cookie_space() -> int {
    4294967296
}

/// The state of the PPD daemon.
pub struct PpdCore {
    pub config: PpdConfig,
    pub active_profile: String,
    pub base_profile: String,
    pub performance_degraded: PerformanceDegraded,
    /// The holds, by cookie (no cookie twice).
    pub holds: Vec<(u32, ProfileHold)>,
    pub on_battery: bool,
    /// The cookie the next hold is tried with.
    pub next_cookie: u32,
}

impl PpdCore {
    /// No two holds share a cookie.
    pub open spec fn wf(&self) -> bool {
        forall|i: int, j: int|
            0 <= i < self.holds@.len() && 0 <= j < self.holds@.len() && i != j ==> (
            #[trigger] self.holds@[i]).0 != (#[trigger] self.holds@[j]).0
    }

    /// The holds, by cookie.
    pub open spec fn holds_map(&self) -> Map<u32, ProfileHold> {
        Map::new(
            |c: u32| exists|i: int| 0 <= i < self.holds@.len() && (#[trigger] self.holds@[i]).0 == c,
            |c: u32|
                self.holds@[choose|i: int|
                    0 <= i < self.holds@.len() && (#[trigger] self.holds@[i]).0 == c].1,
        )
    }

    /// The cookie the next hold is tried with.
    pub open spec fn cookie_counter(&self) -> u32 {
        self.next_cookie
    }

    /// Whether some hold asks for `power-saver`.
    pub open spec fn power_saver_held(&self) -> bool {
        exists|c: u32| #[trigger]
            self.holds_map().contains_key(c) && self.holds_map()[c].profile@ == "power-saver"@
    }

    /// The profile that the holds ask for: `power-saver` wins over `performance`.
    pub open spec fn effective_hold_spec(&self) -> Seq<char> {
        if self.power_saver_held() {
            "power-saver"@
        } else {
            "performance"@
        }
    }

    proof fn lemma_hold_entry(&self, i: int)
        requires
            self.wf(),
            0 <= i < self.holds@.len(),
        ensures
            self.holds_map().contains_key(self.holds@[i].0),
            self.holds_map()[self.holds@[i].0] == self.holds@[i].1,
    {
        let c = self.holds@[i].0;
        assert(exists|k: int| 0 <= k < self.holds@.len() && (#[trigger] self.holds@[k]).0 == c);
        let k = choose|k: int| 0 <= k < self.holds@.len() && (#[trigger] self.holds@[k]).0 == c;
        assert(k == i);
    }

    /// A fresh state over `config`: no active or base profile, no holds, on AC, not degraded.
    pub fn new(config: PpdConfig) -> (r: PpdCore)
        ensures
            r.wf(),
            r.active_profile@ == Seq::<char>::empty(),
            r.base_profile@ == Seq::<char>::empty(),
            r.performance_degraded == PerformanceDegraded::NotDegraded,
            r.holds_map() == Map::<u32, ProfileHold>::empty(),
            !r.on_battery,
            r.cookie_counter() == 1,
    {
        let r = PpdCore {
            config,
            active_profile: String::new(),
            base_profile: String::new(),
            performance_degraded: PerformanceDegraded::NotDegraded,
            holds: Vec::new(),
            on_battery: false,
            next_cookie: 1,
        };
        assert(r.holds_map() =~= Map::<u32, ProfileHold>::empty());
        r
    }

    /// The active PPD profile.
    pub fn active_profile(&self) -> (r: String)
        ensures
            r@ == self.active_profile@,
    {
        self.active_profile.clone()
    }

    /// The base PPD profile (the one chosen by the user, restored when holds end).
    pub fn base_profile(&self) -> (r: String)
        ensures
            r@ == self.base_profile@,
    {
        self.base_profile.clone()
    }

    /// The current degradation.
    pub fn performance_degraded(&self) -> (r: PerformanceDegraded)
        ensures
            r == self.performance_degraded,
    {
        self.performance_degraded
    }

    /// Sets the base profile; returns what the caller writes to the base profile file: the
    /// profile and a newline.
    pub fn set_base_profile(&mut self, profile: &str) -> (content: String)
        ensures
            content@ == base_file_content(profile@),
            final(self).base_profile@ == profile@,
            final(self).active_profile == old(self).active_profile,
            final(self).holds_map() == old(self).holds_map(),
            final(self).wf() == old(self).wf(),
            final(self).on_battery == old(self).on_battery,
            final(self).config == old(self).config,
    {
        self.base_profile = profile.to_owned();
        proof {
            reveal_strlit("\n");
        }
        concat(profile, "\n")
    }

    /// Whether a hold has the cookie `cookie`.
    fn hold_index(&self, cookie: u32) -> (r: Option<usize>)
        requires
            self.wf(),
        ensures
            match r {
                Some(i) => i < self.holds@.len() && self.holds@[i as int].0 == cookie,
                None => !self.holds_map().contains_key(cookie),
            },
    {
        let mut i: usize = 0;
        while i < self.holds.len()
            invariant
                i <= self.holds@.len(),
                forall|j: int| 0 <= j < i ==> (#[trigger] self.holds@[j]).0 != cookie,
            decreases self.holds@.len() - i,
        {
            if self.holds[i].0 == cookie {
                return Some(i);
            }
            i = i + 1;
        }
        None
    }

    /// `(Profile, Reason, ApplicationId)` of every hold, as key-value pairs.
    pub fn active_profile_holds(&self) -> (r: Vec<Vec<(String, String)>>)
        requires
            self.wf(),
        ensures
            r@.len() == self.holds@.len(),
            forall|i: int| 0 <= i < r@.len() ==> hold_info_matches(#[trigger] r@[i], self.holds@[i].1),
    {
        let mut out: Vec<Vec<(String, String)>> = Vec::new();
        let mut i: usize = 0;
        while i < self.holds.len()
            invariant
                self.wf(),
                i <= self.holds@.len(),
                out@.len() == i,
                forall|j: int| 0 <= j < i ==> hold_info_matches(out@[j], #[trigger] self.holds@[j].1),
            decreases self.holds@.len() - i,
        {
            let h = &self.holds[i].1;
            let mut info: Vec<(String, String)> = Vec::new();
            info.push(("Profile".to_owned(), h.profile.clone()));
            info.push(("Reason".to_owned(), h.reason.clone()));
            info.push(("ApplicationId".to_owned(), h.app_id.clone()));
            out.push(info);
            i = i + 1;
        }
        out
    }

    /// `(Profile, Driver)` of every PPD profile available on the current power source.
    pub fn profiles(&self) -> (r: Vec<Vec<(String, String)>>)
        ensures
            forall|i: int|
                0 <= i < r@.len() ==> r@[i]@.len() == 2 && r@[i]@[0].0@ == "Profile"@
                    && r@[i]@[1].0@ == "Driver"@ && r@[i]@[1].1@ == "tuned"@,
            r@.map_values(|e: Vec<(String, String)>| e@[0].1@).no_duplicates(),
            r@.map_values(|e: Vec<(String, String)>| e@[0].1@).to_set() == self.config.ppd_to_tuned.map_for(
                self.on_battery,
            ).dom(),
    {
        let keys = self.config.ppd_to_tuned.keys(self.on_battery);
        let mut out: Vec<Vec<(String, String)>> = Vec::new();
        let mut i: usize = 0;
        while i < keys.len()
            invariant
                i <= keys@.len(),
                out@.len() == i,
                forall|j: int|
                    0 <= j < i ==> (#[trigger] out@[j])@.len() == 2 && out@[j]@[0].0@ == "Profile"@
                        && out@[j]@[0].1@ == keys@[j]@ && out@[j]@[1].0@ == "Driver"@
                        && out@[j]@[1].1@ == "tuned"@,
            decreases keys@.len() - i,
        {
            let mut info: Vec<(String, String)> = Vec::new();
            info.push(("Profile".to_owned(), keys[i].clone()));
            info.push(("Driver".to_owned(), DRIVER.to_owned()));
            out.push(info);
            i = i + 1;
        }
        proof {
            let names = out@.map_values(|e: Vec<(String, String)>| e@[0].1@);
            assert(names =~= keys.deep_view()) by {
                assert forall|j: int| 0 <= j < names.len() implies names[j] == keys.deep_view()[j] by {
                    assert(keys.deep_view()[j] == keys@[j]@);
                }
            }
        }
        out
    }

    /// The profile the holds ask for: `power-saver` if any hold asks for it, else
    /// `performance`.
    pub fn effective_hold_profile(&self) -> (r: String)
        requires
            self.wf(),
        ensures
            r@ == self.effective_hold_spec(),
    {
        let mut i: usize = 0;
        while i < self.holds.len()
            invariant
                self.wf(),
                i <= self.holds@.len(),
                forall|j: int| 0 <= j < i ==> (#[trigger] self.holds@[j]).1.profile@ != "power-saver"@,
            decreases self.holds@.len() - i,
        {
            if str_eq(self.holds[i].1.profile.as_str(), POWER_SAVER) {
                proof {
                    self.lemma_hold_entry(i as int);
                }
                return POWER_SAVER.to_owned();
            }
            i = i + 1;
        }
        proof {
            assert forall|c: u32| #[trigger] self.holds_map().contains_key(c) implies self.holds_map()[c].profile@
                != "power-saver"@ by {
                let j = choose|j: int| 0 <= j < self.holds@.len() && (#[trigger] self.holds@[j]).0 == c;
                self.lemma_hold_entry(j);
            }
        }
        PERFORMANCE.to_owned()
    }

    /// Takes the next cookie that is neither 0 nor held, counting up (and wrapping) from
    /// the cookie counter; fails only where every non-zero cookie is held.
    fn allocate_cookie(&mut self) -> (r: Result<u32, PpdError>)
        requires
            old(self).wf(),
        ensures
            final(self).holds == old(self).holds,
            final(self).active_profile == old(self).active_profile,
            final(self).base_profile == old(self).base_profile,
            final(self).on_battery == old(self).on_battery,
            final(self).config == old(self).config,
            final(self).performance_degraded == old(self).performance_degraded,
            match r {
                Ok(c) => c != 0 && !old(self).holds_map().contains_key(c),
                Err(e) => e == PpdError::NoFreeCookie && forall|c: u32|
                    c != 0 ==> #[trigger] old(self).holds_map().contains_key(c),
            },
    {
        let ghost start = self.next_cookie as int;
        let mut attempts: u64 = 0;
        while attempts < 4294967296
            invariant
                self.wf(),
                self.holds == old(self).holds,
                self.active_profile == old(self).active_profile,
                self.base_profile == old(self).base_profile,
                self.on_battery == old(self).on_battery,
                self.config == old(self).config,
                self.performance_degraded == old(self).performance_degraded,
                0 <= start < cookie_space(),
                attempts <= 4294967296,
                self.next_cookie as int == tried(start, attempts as int),
                forall|t: int|
                    0 <= t < attempts ==> #[trigger] tried(start, t) == 0 || self.holds_map().contains_key(
                        tried(start, t) as u32,
                    ),
            decreases 4294967296 - attempts,
        {
            let cookie = self.next_cookie;
            self.next_cookie = self.next_cookie.wrapping_add(1);
            proof {
                assert(self.next_cookie as int == tried(start, attempts + 1)) by {
                    if cookie == u32::MAX {
                        assert((start + attempts) % cookie_space() == cookie_space() - 1);
                        assert((start + attempts + 1) % cookie_space() == 0);
                    } else {
                        assert((start + attempts) % cookie_space() == cookie as int);
                        assert((start + attempts + 1) % cookie_space() == cookie as int + 1);
                    }
                }
            }
            if cookie != 0 {
                match self.hold_index(cookie) {
                    None => return Ok(cookie),
                    Some(i) => {
                        proof {
                            self.lemma_hold_entry(i as int);
                        }
                    },
                }
            }
            proof {
                assert(tried(start, attempts as int) == cookie as int);
            }
            attempts = attempts + 1;
        }
        proof {
            assert forall|c: u32| c != 0 implies #[trigger] old(self).holds_map().contains_key(c) by {
                let t: int = if c as int >= start {
                    c as int - start
                } else {
                    c as int - start + cookie_space()
                };
                assert(tried(start, t) == c as int);
                assert(0 <= t < attempts);
            }
        }
        Err(PpdError::NoFreeCookie)
    }

    /// Adds a hold of `profile` (only `power-saver` or `performance`) for the application
    /// `app_id`, requested by the D-Bus name `caller`. Returns its cookie and the profile to
    /// switch to now: the one the holds ask for.
    pub fn add_hold(&mut self, profile: &str, reason: &str, app_id: &str, caller: &str) -> (r:
        Result<(u32, String), PpdError>)
        requires
            old(self).wf(),
        ensures
            final(self).wf(),
            final(self).active_profile == old(self).active_profile,
            final(self).base_profile == old(self).base_profile,
            final(self).on_battery == old(self).on_battery,
            final(self).config == old(self).config,
            match r {
                Ok((c, next)) => (profile@ == "power-saver"@ || profile@ == "performance"@) && c != 0
                    && hold_added(
                    old(self).holds_map(),
                    final(self).holds_map(),
                    c,
                    profile@,
                    reason@,
                    app_id@,
                    caller@,
                ) && next@ == final(self).effective_hold_spec(),
                Err(e) => final(self).holds_map() == old(self).holds_map() && ((e == PpdError::NotHoldable
                    && profile@ != "power-saver"@ && profile@ != "performance"@) || (e
                    == PpdError::NoFreeCookie && forall|d: u32|
                    d != 0 ==> #[trigger] old(self).holds_map().contains_key(d))),
            },
    {
        if !str_eq(profile, POWER_SAVER) && !str_eq(profile, PERFORMANCE) {
            return Err(PpdError::NotHoldable);
        }
        let cookie = self.allocate_cookie()?;
        let hold = ProfileHold {
            profile: profile.to_owned(),
            reason: reason.to_owned(),
            app_id: app_id.to_owned(),
            caller: caller.to_owned(),
        };
        let ghost before = self.holds@;
        let ghost old_map = self.holds_map();
        self.holds.push((cookie, hold));
        proof {
            let n = before.len() as int;
            assert forall|i: int, j: int|
                0 <= i < self.holds@.len() && 0 <= j < self.holds@.len() && i != j implies (
                #[trigger] self.holds@[i]).0 != (#[trigger] self.holds@[j]).0 by {
                if i < n && j < n {
                    assert(before[i].0 != before[j].0);
                } else if i == n {
                    assert(before[j] == self.holds@[j]);
                    if before[j].0 == cookie {
                        assert(old_map.contains_key(cookie));
                    }
                } else {
                    assert(before[i] == self.holds@[i]);
                    if before[i].0 == cookie {
                        assert(old_map.contains_key(cookie));
                    }
                }
            }
            self.lemma_hold_entry(n);
            assert forall|d: u32| #[trigger] old_map.contains_key(d) implies self.holds_map().contains_key(d)
                && self.holds_map()[d] == old_map[d] by {
                let j = choose|j: int| 0 <= j < before.len() && (#[trigger] before[j]).0 == d;
                assert(self.holds@[j] == before[j]);
                self.lemma_hold_entry(j);
                let k = choose|k: int| 0 <= k < before.len() && (#[trigger] before[k]).0 == d;
                assert(k == j) by {
                    if k != j {
                        assert(before[k].0 != before[j].0);
                    }
                }
            }
            assert forall|d: u32| #[trigger] self.holds_map().contains_key(d) implies d == cookie
                || old_map.contains_key(d) by {
                let j = choose|j: int| 0 <= j < self.holds@.len() && (#[trigger] self.holds@[j]).0 == d;
                if j < n {
                    assert(before[j].0 == d);
                }
            }
            assert(self.holds_map().dom() =~= old_map.dom().insert(cookie));
        }
        let next = self.effective_hold_profile();
        Ok((cookie, next))
    }

    /// Removes the hold `cookie`, if there is one. Returns whether one was removed, and the
    /// profile to switch to now: the base profile where no hold is left, else the one the
    /// remaining holds ask for.
    pub fn remove_hold(&mut self, cookie: u32) -> (r: (bool, String))
        requires
            old(self).wf(),
        ensures
            final(self).wf(),
            final(self).active_profile == old(self).active_profile,
            final(self).base_profile == old(self).base_profile,
            final(self).on_battery == old(self).on_battery,
            final(self).config == old(self).config,
            r.0 == old(self).holds_map().contains_key(cookie),
            final(self).holds_map() == old(self).holds_map().remove(cookie),
            r.1@ == if final(self).holds_map().is_empty() {
                final(self).base_profile@
            } else {
                final(self).effective_hold_spec()
            },
    {
        let ghost old_map = self.holds_map();
        let removed = match self.hold_index(cookie) {
            Some(i) => {
                let ghost before = self.holds@;
                self.holds.remove(i);
                proof {
                    assert forall|a: int, b: int|
                        0 <= a < self.holds@.len() && 0 <= b < self.holds@.len() && a != b implies (
                        #[trigger] self.holds@[a]).0 != (#[trigger] self.holds@[b]).0 by {
                        let a2 = if a < i { a } else { a + 1 };
                        let b2 = if b < i { b } else { b + 1 };
                        assert(self.holds@[a] == before[a2]);
                        assert(self.holds@[b] == before[b2]);
                        assert(before[a2].0 != before[b2].0);
                    }
                    assert forall|d: u32| #[trigger] self.holds_map().contains_key(d)
                        == old_map.remove(cookie).contains_key(d) by {
                        if self.holds_map().contains_key(d) {
                            let j = choose|j: int| 0 <= j < self.holds@.len() && (#[trigger] self.holds@[j]).0 == d;
                            let j2 = if j < i { j } else { j + 1 };
                            assert(before[j2].0 == d);
                            assert(j2 != i);
                            assert(old_map.contains_key(d));
                        }
                        if old_map.remove(cookie).contains_key(d) {
                            let j = choose|j: int| 0 <= j < before.len() && (#[trigger] before[j]).0 == d;
                            assert(j != i);
                            let j2 = if j < i { j } else { j - 1 };
                            assert(self.holds@[j2].0 == d);
                        }
                    }
                    assert forall|d: u32| #[trigger] self.holds_map().contains_key(d) implies self.holds_map()[d]
                        == old_map.remove(cookie)[d] by {
                        let j = choose|j: int| 0 <= j < self.holds@.len() && (#[trigger] self.holds@[j]).0 == d;
                        self.lemma_hold_entry(j);
                        let j2 = if j < i { j } else { j + 1 };
                        assert(before[j2] == self.holds@[j]);
                        old(self).lemma_hold_entry(j2);
                    }
                    assert(self.holds_map() =~= old_map.remove(cookie));
                    old(self).lemma_hold_entry(i as int);
                }
                true
            },
            None => {
                assert(self.holds_map() =~= old_map.remove(cookie));
                false
            },
        };
        let next = if self.holds.len() == 0 {
            proof {
                assert(self.holds_map() =~= Map::<u32, ProfileHold>::empty());
            }
            self.base_profile.clone()
        } else {
            proof {
                self.lemma_hold_entry(0);
            }
            self.effective_hold_profile()
        };
        (removed, next)
    }

    /// Releases the hold `cookie` on behalf of the D-Bus name `caller`: refused where there
    /// is no such hold or it was taken by another caller; otherwise as [`remove_hold`].
    pub fn release_hold(&mut self, cookie: u32, caller: &str) -> (r: Result<String, PpdError>)
        requires
            old(self).wf(),
        ensures
            final(self).wf(),
            final(self).active_profile == old(self).active_profile,
            final(self).base_profile == old(self).base_profile,
            final(self).config == old(self).config,
            match r {
                Ok(next) => old(self).holds_map().contains_key(cookie) && old(self).holds_map()[cookie].caller@
                    == caller@ && final(self).holds_map() == old(self).holds_map().remove(cookie)
                    && next@ == if final(self).holds_map().is_empty() {
                    final(self).base_profile@
                } else {
                    final(self).effective_hold_spec()
                },
                Err(e) => final(self).holds_map() == old(self).holds_map() && ((e == PpdError::NoSuchHold
                    && !old(self).holds_map().contains_key(cookie)) || (e == PpdError::NotHoldOwner
                    && old(self).holds_map().contains_key(cookie) && old(self).holds_map()[cookie].caller@
                    != caller@)),
            },
    {
        match self.hold_index(cookie) {
            None => Err(PpdError::NoSuchHold),
            Some(i) => {
                proof {
                    self.lemma_hold_entry(i as int);
                }
                if !str_eq(self.holds[i].1.caller.as_str(), caller) {
                    return Err(PpdError::NotHoldOwner);
                }
                let (_, next) = self.remove_hold(cookie);
                Ok(next)
            },
        }
    }

    /// The TuneD profile that `profile` maps to on the current power source: the first step
    /// of switching to `profile`.
    pub fn switch_profile(&self, profile: &str) -> (r: Result<String, PpdError>)
        ensures
            match r {
                Ok(t) => self.config.ppd_to_tuned.map_for(self.on_battery).contains_key(profile@)
                    && self.config.ppd_to_tuned.map_for(self.on_battery)[profile@] == t@,
                Err(e) => e == PpdError::UnknownProfile && !self.config.ppd_to_tuned.map_for(
                    self.on_battery,
                ).contains_key(profile@),
            },
    {
        match self.config.ppd_to_tuned.get(profile, self.on_battery) {
            Ok(t) => Ok(t.to_owned()),
            Err(e) => Err(e),
        }
    }

    /// The last step of switching to `profile`, once TuneD has answered `switched`: the
    /// profile becomes active where TuneD switched, and the switch fails otherwise.
    pub fn finish_switch(&mut self, profile: &str, switched: bool) -> (r: Result<(), PpdError>)
        ensures
            final(self).holds == old(self).holds,
            final(self).base_profile == old(self).base_profile,
            final(self).on_battery == old(self).on_battery,
            final(self).config == old(self).config,
            final(self).next_cookie == old(self).next_cookie,
            match r {
                Ok(_) => switched && final(self).active_profile@ == profile@,
                Err(e) => !switched && e == PpdError::SwitchFailed && final(self).active_profile
                    == old(self).active_profile,
            },
    {
        if !switched {
            return Err(PpdError::SwitchFailed);
        }
        if !str_eq(self.active_profile.as_str(), profile) {
            self.active_profile = profile.to_owned();
        }
        Ok(())
    }

    /// Selects `profile` at the user's request: refused where the current power source has
    /// no mapping for it; otherwise every hold is dropped and the TuneD profile to switch to
    /// is returned (the caller then switches, calls [`finish_switch`] and makes `profile` the
    /// base profile).
    pub fn set_active_profile(&mut self, profile: &str) -> (r: Result<String, PpdError>)
        requires
            old(self).wf(),
        ensures
            final(self).wf(),
            final(self).active_profile == old(self).active_profile,
            final(self).base_profile == old(self).base_profile,
            final(self).on_battery == old(self).on_battery,
            final(self).config == old(self).config,
            match r {
                Ok(t) => old(self).config.ppd_to_tuned.map_for(old(self).on_battery).contains_key(profile@)
                    && old(self).config.ppd_to_tuned.map_for(old(self).on_battery)[profile@] == t@
                    && final(self).holds_map() == Map::<u32, ProfileHold>::empty(),
                Err(e) => e == PpdError::UnknownProfile && !old(self).config.ppd_to_tuned.map_for(
                    old(self).on_battery,
                ).contains_key(profile@) && final(self).holds_map() == old(self).holds_map(),
            },
    {
        let target = self.switch_profile(profile)?;
        self.clear_holds();
        Ok(target)
    }

    /// Handles TuneD's `profile_changed` signal, given the profile TuneD reports as active
    /// (`tuned_active`). A failed or stale signal changes nothing; so does one for a TuneD
    /// profile that the PPD mapping does not know while the active PPD profile still maps to
    /// it. Otherwise the PPD profile for it (`unknown` where there is none) becomes active,
    /// the holds are dropped, and a known profile also becomes the base profile, whose file
    /// content is returned for the caller to write.
    pub fn handle_tuned_profile_changed(&mut self, event: &ProfileChangedEvent, tuned_active: &str) -> (r:
        Option<String>)
        requires
            old(self).wf(),
        ensures
            final(self).wf(),
            final(self).on_battery == old(self).on_battery,
            final(self).config == old(self).config,
            match tuned_change_spec(*old(self), event.profile_name@, event.result, tuned_active@) {
                None => r is None && final(self).active_profile == old(self).active_profile
                    && final(self).base_profile == old(self).base_profile && final(self).holds
                    == old(self).holds,
                Some(p) => final(self).active_profile@ == p && final(self).holds_map() == Map::<
                    u32,
                    ProfileHold,
                >::empty() && if p == "unknown"@ {
                    r is None && final(self).base_profile == old(self).base_profile
                } else {
                    r matches Some(b) && b@ == base_file_content(p) && final(self).base_profile@ == p
                },
            },
    {
        if !event.result || !str_eq(event.profile_name.as_str(), tuned_active) {
            return None;
        }
        let ppd_profile: String = match self.config.tuned_to_ppd.reverse_lookup(tuned_active, self.on_battery) {
            Some(p) => p.to_owned(),
            None => UNKNOWN_PROFILE.to_owned(),
        };
        if str_eq(ppd_profile.as_str(), UNKNOWN_PROFILE) {
            match self.config.ppd_to_tuned.get(self.active_profile.as_str(), self.on_battery) {
                Ok(expected) => {
                    if str_eq(expected, tuned_active) {
                        return None;
                    }
                },
                Err(_) => {},
            }
        }
        if str_eq(self.active_profile.as_str(), ppd_profile.as_str()) {
            return None;
        }
        self.active_profile = ppd_profile.clone();
        self.clear_holds();
        if !str_eq(ppd_profile.as_str(), UNKNOWN_PROFILE) {
            let content = self.set_base_profile(ppd_profile.as_str());
            return Some(content);
        }
        None
    }

    /// Records the power source and returns the TuneD profile for the active profile on it
    /// (the caller switches TuneD to it).
    pub fn on_battery_changed(&mut self, on_battery: bool) -> (r: Result<String, PpdError>)
        ensures
            final(self).on_battery == on_battery,
            final(self).holds == old(self).holds,
            final(self).active_profile == old(self).active_profile,
            final(self).base_profile == old(self).base_profile,
            final(self).config == old(self).config,
            match r {
                Ok(t) => final(self).config.ppd_to_tuned.map_for(on_battery).contains_key(
                    final(self).active_profile@,
                ) && final(self).config.ppd_to_tuned.map_for(on_battery)[final(self).active_profile@] == t@,
                Err(e) => e == PpdError::UnknownProfile && !final(self).config.ppd_to_tuned.map_for(
                    on_battery,
                ).contains_key(final(self).active_profile@),
            },
    {
        self.on_battery = on_battery;
        let active = self.active_profile.clone();
        self.switch_profile(active.as_str())
    }

    /// Updates the degradation from the contents of `no_turbo` and `dytc_lapmode` (`None`
    /// where a file cannot be read); returns whether it changed.
    pub fn check_performance_degraded(&mut self, no_turbo: Option<&str>, lap_mode: Option<&str>) -> (r:
        bool)
        ensures
            final(self).performance_degraded == degraded_spec(ostr_view(no_turbo), ostr_view(lap_mode)),
            r == (final(self).performance_degraded != old(self).performance_degraded),
            final(self).holds == old(self).holds,
            final(self).active_profile == old(self).active_profile,
            final(self).base_profile == old(self).base_profile,
            final(self).on_battery == old(self).on_battery,
            final(self).config == old(self).config,
    {
        let mut degraded = PerformanceDegraded::NotDegraded;
        match no_turbo {
            Some(v) => {
                if str_eq(trim_str(v).as_str(), "1") {
                    degraded = PerformanceDegraded::HighOperatingTemperature;
                }
            },
            None => {},
        }
        match lap_mode {
            Some(v) => {
                if str_eq(trim_str(v).as_str(), "1") {
                    degraded = PerformanceDegraded::LapDetected;
                }
            },
            None => {},
        }
        if self.performance_degraded != degraded {
            self.performance_degraded = degraded;
            true
        } else {
            false
        }
    }

    /// Follows a change of the ACPI platform profile (`platform` is the content of
    /// `platform_profile`): nothing for a value without a PPD profile, nor where the user's
    /// base profile is active and differs from it; otherwise the holds are dropped and the PPD
    /// profile to switch to is returned.
    pub fn check_platform_profile(&mut self, platform: &str) -> (r: Option<String>)
        requires
            old(self).wf(),
        ensures
            final(self).wf(),
            final(self).active_profile == old(self).active_profile,
            final(self).base_profile == old(self).base_profile,
            final(self).on_battery == old(self).on_battery,
            final(self).config == old(self).config,
            match platform_profile_to_ppd_spec(platform@) {
                None => r is None && final(self).holds == old(self).holds,
                Some(p) => if old(self).base_profile@.len() > 0 && old(self).active_profile@ == old(self).base_profile@ && p != old(self).base_profile@ {
                    r is None && final(self).holds == old(self).holds
                } else {
                    r matches Some(q) && q@ == p && final(self).holds_map() == Map::<u32, ProfileHold>::empty()
                },
            },
    {
        let ppd = match platform_profile_to_ppd(platform) {
            Some(p) => p,
            None => return None,
        };
        if !self.base_profile.as_str().is_empty() && str_eq(self.active_profile.as_str(), self.base_profile.as_str())
            && !str_eq(ppd, self.base_profile.as_str()) {
            return None;
        }
        self.clear_holds();
        Some(ppd.to_owned())
    }

    /// Prepares start-up from the content of the base profile file (`None` where it cannot be
    /// read): the power source is AC unless battery detection is on (the caller then asks
    /// UPower), and the returned profile to switch to (and keep as base) is the saved one,
    /// trimmed, where it is not blank, else the configured default.
    pub fn initialize(&mut self, saved_base: Option<&str>) -> (r: String)
        ensures
            final(self).on_battery == if old(self).config.battery_detection {
                old(self).on_battery
            } else {
                false
            },
            final(self).holds == old(self).holds,
            final(self).active_profile == old(self).active_profile,
            final(self).base_profile == old(self).base_profile,
            final(self).config == old(self).config,
            r@ == match saved_base {
                Some(s) => if trim(s@).len() > 0 {
                    trim(s@)
                } else {
                    old(self).config.default_profile@
                },
                None => old(self).config.default_profile@,
            },
    {
        if !self.config.battery_detection {
            self.on_battery = false;
        }
        match saved_base {
            Some(s) => {
                let t = trim_str(s);
                if t.as_str().is_empty() {
                    self.config.default_profile.clone()
                } else {
                    t
                }
            },
            None => self.config.default_profile.clone(),
        }
    }

    /// Whether the hold `cookie` is still there.
    pub fn is_held(&self, cookie: u32) -> (r: bool)
        requires
            self.wf(),
        ensures
            r == self.holds_map().contains_key(cookie),
    {
        match self.hold_index(cookie) {
            Some(i) => {
                proof {
                    self.lemma_hold_entry(i as int);
                }
                true
            },
            None => false,
        }
    }

    /// One poll of the watcher of hold `cookie`, given whether its caller still owns its
    /// D-Bus name (`None` where the query failed): the watcher stops once the hold is gone;
    /// it keeps watching while the owner is there or the query failed; where the owner left,
    /// the hold is removed as by [`PpdCore::remove_hold`] and the profile to switch to is
    /// returned.
    pub fn watch_hold_owner(&mut self, cookie: u32, has_owner: Option<bool>) -> (r: WatchStep)
        requires
            old(self).wf(),
        ensures
            final(self).wf(),
            final(self).active_profile == old(self).active_profile,
            final(self).base_profile == old(self).base_profile,
            final(self).on_battery == old(self).on_battery,
            final(self).config == old(self).config,
            if !old(self).holds_map().contains_key(cookie) {
                r is Stop && final(self).holds == old(self).holds
            } else if has_owner != Some(false) {
                r is KeepWatching && final(self).holds == old(self).holds
            } else {
                r matches WatchStep::Released(next) && final(self).holds_map() == old(
                    self,
                ).holds_map().remove(cookie) && next@ == if final(self).holds_map().is_empty() {
                    final(self).base_profile@
                } else {
                    final(self).effective_hold_spec()
                }
            },
    {
        if !self.is_held(cookie) {
            return WatchStep::Stop;
        }
        match has_owner {
            Some(false) => {
                let (_, next) = self.remove_hold(cookie);
                WatchStep::Released(next)
            },
            _ => WatchStep::KeepWatching,
        }
    }

    /// Drops every hold.
    pub fn clear_holds(&mut self)
        ensures
            final(self).wf(),
            final(self).holds_map() == Map::<u32, ProfileHold>::empty(),
            final(self).active_profile == old(self).active_profile,
            final(self).base_profile == old(self).base_profile,
            final(self).on_battery == old(self).on_battery,
            final(self).config == old(self).config,
            final(self).cookie_counter() == old(self).cookie_counter(),
    {
        self.holds = Vec::new();
        assert(self.holds_map() =~= Map::<u32, ProfileHold>::empty());
    }
}

/// The cookie tried at attempt `t` when counting from `start`.
pub open spec fn tried(start: int, t: int) -> int {
    (start + t) % cookie_space()
}

/// The content of the base profile file for `profile`.
pub open spec fn base_file_content(profile: Seq<char>) -> Seq<char> {
    profile.push('\n')
}

/// `after` is `before` with the new hold `c` added, whose fields are these; every other hold
/// is kept as it was.
pub open spec fn hold_added(
    before: Map<u32, ProfileHold>,
    after: Map<u32, ProfileHold>,
    c: u32,
    profile: Seq<char>,
    reason: Seq<char>,
    app_id: Seq<char>,
    caller: Seq<char>,
) -> bool {
    &&& !before.contains_key(c)
    &&& after.dom() == before.dom().insert(c)
    &&& hold_is(after[c], profile, reason, app_id, caller)
    &&& forall|d: u32| #[trigger] before.contains_key(d) ==> after[d] == before[d]
}

/// Releasing a hold undoes adding it: the caller that added hold `c` may release it (and no
/// other caller may), and the release leaves the holds as they were before.
pub proof fn lemma_release_undoes_add(
    before: Map<u32, ProfileHold>,
    after: Map<u32, ProfileHold>,
    c: u32,
    profile: Seq<char>,
    reason: Seq<char>,
    app_id: Seq<char>,
    caller: Seq<char>,
    other: Seq<char>,
)
    requires
        hold_added(before, after, c, profile, reason, app_id, caller),
        other != caller,
    ensures
        after.contains_key(c),
        after[c].caller@ == caller,
        after[c].caller@ != other,
        after.remove(c) == before,
{
    assert(after.dom().contains(c));
    assert(after.remove(c) =~= before);
}

/// A `profile_changed` signal that reports a failure, or names another profile than the
/// one TuneD reports as active, changes nothing.
pub proof fn lemma_stale_signal_ignored(
    core: PpdCore,
    profile_name: Seq<char>,
    result: bool,
    tuned_active: Seq<char>,
)
    requires
        !result || profile_name != tuned_active,
    ensures
        tuned_change_spec(core, profile_name, result, tuned_active) is None,
{
}

/// A TuneD signal that confirms the active PPD profile changes nothing: where the TuneD
/// profile maps back (on the current power source, or else on the other one) to the PPD
/// profile that is already active, the handler leaves everything as it is. And where the
/// handler does switch, it switches to a PPD profile other than the active one.
pub proof fn lemma_confirming_signal_ignored(
    core: PpdCore,
    profile_name: Seq<char>,
    result: bool,
    tuned_active: Seq<char>,
)
    ensures
        ({
            let rev = core.config.tuned_to_ppd;
            let b = core.on_battery;
            (rev.map_for(b).contains_key(tuned_active) && rev.map_for(b)[tuned_active]
                == core.active_profile@) || (!rev.map_for(b).contains_key(tuned_active)
                && rev.map_for(!b).contains_key(tuned_active) && rev.map_for(!b)[tuned_active]
                == core.active_profile@)
        }) ==> tuned_change_spec(core, profile_name, result, tuned_active) is None,
        tuned_change_spec(core, profile_name, result, tuned_active) matches Some(p) ==> p
            != core.active_profile@,
{
}

/// The base profile survives a restart: the start-up profile read back from what
/// [`PpdCore::set_base_profile`] wrote is that profile, for any profile name that does not
/// begin or end with whitespace.
pub proof fn lemma_saved_base_restored(profile: Seq<char>)
    requires
        profile.len() > 0,
        !is_ws(profile[0]),
        !is_ws(profile.last()),
    ensures
        trim(base_file_content(profile)) == profile,
{
    crate::text::lemma_trim_line(profile);
}

/// Whether `h` is the hold with these fields.
pub open spec fn hold_is(h: ProfileHold, profile: Seq<char>, reason: Seq<char>, app_id: Seq<char>, caller: Seq<char>) -> bool {
    h.profile@ == profile && h.reason@ == reason && h.app_id@ == app_id && h.caller@ == caller
}

/// The PPD profile that a TuneD `profile_changed` signal leaves active, and whether it also
/// becomes the base profile; `None` where the signal changes nothing.
pub open spec fn tuned_change_spec(
    core: PpdCore,
    profile_name: Seq<char>,
    result: bool,
    tuned_active: Seq<char>,
) -> Option<Seq<char>> {
    let rev = core.config.tuned_to_ppd;
    let fwd = core.config.ppd_to_tuned;
    let b = core.on_battery;
    if !result || profile_name != tuned_active {
        None
    } else {
        let ppd = if rev.map_for(b).contains_key(tuned_active) {
            rev.map_for(b)[tuned_active]
        } else if rev.map_for(!b).contains_key(tuned_active) {
            rev.map_for(!b)[tuned_active]
        } else {
            "unknown"@
        };
        if ppd == "unknown"@ && fwd.map_for(b).contains_key(core.active_profile@) && fwd.map_for(
            b,
        )[core.active_profile@] == tuned_active {
            None
        } else if core.active_profile@ == ppd {
            None
        } else {
            Some(ppd)
        }
    }
}

/// The degradation that the contents of `no_turbo` and `dytc_lapmode` (`None` where
/// unreadable) signal: a lap wins over disabled turbo.
pub open spec fn degraded_spec(no_turbo: Option<Seq<char>>, lap_mode: Option<Seq<char>>) -> PerformanceDegraded {
    if lap_mode matches Some(l) && trim(l) == "1"@ {
        PerformanceDegraded::LapDetected
    } else if no_turbo matches Some(n) && trim(n) == "1"@ {
        PerformanceDegraded::HighOperatingTemperature
    } else {
        PerformanceDegraded::NotDegraded
    }
}

/// The view of an optional `&str`.
pub open spec fn ostr_view(o: Option<&str>) -> Option<Seq<char>> {
    match o {
        Some(s) => Some(s@),
        None => None,
    }
}

/// Whether the key-value pairs `info` describe `h`.
pub open spec fn hold_info_matches(info: Vec<(String, String)>, h: ProfileHold) -> bool {
    &&& info@.len() == 3
    &&& info@[0].0@ == "Profile"@ && info@[0].1@ == h.profile@
    &&& info@[1].0@ == "Reason"@ && info@[1].1@ == h.reason@
    &&& info@[2].0@ == "ApplicationId"@ && info@[2].1@ == h.app_id@
}

} // verus!
