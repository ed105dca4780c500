//! The TuneD daemon's state and its decisions: which profile is active, whether the daemon
//! runs, and when the recorded original values are restored. The caller performs the file
//! reads and writes, and the writes to tunables, that a decision asks for.
use vstd::prelude::*;

use crate::config::DEFAULT_PROFILE;
use crate::engine::{valid_profile_name, validate_profile_name};
use crate::profile::{active_profile_spec, ostr_ref, same_profile, Profile, ProfileCatalog};
use crate::rollback::{restore_matches, restore_spec, RestoreAction, Rollback, RollbackError};
use crate::text::concat3;

verus! {

/// The state of the TuneD daemon.
pub struct Daemon {
    pub catalog: ProfileCatalog,
    pub rollback: Rollback,
    /// The active profile, empty where none is.
    pub active_profile: String,
    pub running: bool,
    /// Whether the active profile was chosen by the user (rather than recommended).
    pub manual: bool,
}

/// Whether `r` restores, in order, the entries that `rb` held.
pub open spec fn restores_all(r: Seq<Result<RestoreAction, RollbackError>>, rb: Rollback) -> bool {
    &&& r.len() == rb.entry_seq().len()
    &&& forall|i: int|
        0 <= i < r.len() ==> restore_matches(
            #[trigger] r[i],
            restore_spec(rb.entry_seq()[i].0, rb.entry_seq()[i].1),
        )
}

/// The profile to apply at start-up, given the name read from the active profile file
/// (`None` where there is none or it could not be read): that name, else `balanced`.
pub open spec fn startup_profile_spec(saved: Option<Seq<char>>) -> Seq<char> {
    match saved {
        Some(n) => n,
        None => "balanced"@,
    }
}

/// The profile to apply at start-up.
pub fn startup_profile(saved: Option<&str>) -> (r: String)
    ensures
        r@ == startup_profile_spec(ostr_ref(saved)),
{
    match saved {
        Some(n) => n.to_owned(),
        None => DEFAULT_PROFILE.to_owned(),
    }
}

/// The profile a switch saved is the one applied at the next start: the active profile file
/// that [`crate::profile::save_active_profile`] writes for a valid name reads back as that
/// name, and start-up applies it.
pub proof fn lemma_restart_keeps_profile(name: Seq<char>)
    requires
        valid_profile_name(name),
    ensures
        active_profile_spec(Some(name.push('\n'))) is Ok,
        startup_profile_spec(active_profile_spec(Some(name.push('\n')))->Ok_0) == name,
{
    crate::profile::lemma_active_profile_round_trip(name);
}

impl Daemon {
    /// The daemon's invariant: the rollback entries are well formed.
    pub open spec fn wf(&self) -> bool {
        self.rollback.wf()
    }

    /// A stopped daemon over `catalog` and the rollback entries found on disk, with no active
    /// profile and in manual mode.
    pub fn new(catalog: ProfileCatalog, rollback: Rollback) -> (d: Daemon)
        requires
            rollback.wf(),
        ensures
            d.wf(),
            d.catalog == catalog,
            d.rollback == rollback,
            d.active_profile@ == Seq::<char>::empty(),
            !d.running,
            d.manual,
    {
        Daemon { catalog, rollback, active_profile: String::new(), running: false, manual: true }
    }

    /// The rollback entries.
    pub fn rollback(&self) -> (r: &Rollback)
        ensures
            *r == self.rollback,
    {
        &self.rollback
    }

    /// Restores what a previous run (or the previous profile) changed: every rollback entry
    /// becomes a write for the caller to perform, and no entry is left.
    pub fn recover_previous_state(&mut self) -> (r: Vec<Result<RestoreAction, RollbackError>>)
        requires
            old(self).wf(),
        ensures
            final(self).wf(),
            restores_all(r@, old(self).rollback),
            final(self).rollback@ == Map::<Seq<char>, Seq<char>>::empty(),
            final(self).catalog == old(self).catalog,
            final(self).active_profile == old(self).active_profile,
            final(self).running == old(self).running,
            final(self).manual == old(self).manual,
    {
        self.rollback.restore_all()
    }

    /// Replaces the profile catalog with one loaded anew.
    pub fn reload_catalog(&mut self, catalog: ProfileCatalog)
        ensures
            final(self).catalog == catalog,
            final(self).rollback == old(self).rollback,
            final(self).active_profile == old(self).active_profile,
            final(self).running == old(self).running,
            final(self).manual == old(self).manual,
    {
        self.catalog = catalog;
    }

    /// The first step of `start`: nothing where the daemon already runs (`None`); otherwise
    /// the writes that restore the previous state. The caller then applies
    /// [`startup_profile`] in manual mode and calls [`Daemon::finish_start`].
    pub fn start(&mut self) -> (r: Option<Vec<Result<RestoreAction, RollbackError>>>)
        requires
            old(self).wf(),
        ensures
            final(self).wf(),
            final(self).catalog == old(self).catalog,
            final(self).active_profile == old(self).active_profile,
            final(self).running == old(self).running,
            final(self).manual == old(self).manual,
            match r {
                None => old(self).running && final(self).rollback == old(self).rollback,
                Some(v) => !old(self).running && restores_all(v@, old(self).rollback)
                    && final(self).rollback@ == Map::<Seq<char>, Seq<char>>::empty(),
            },
    {
        if self.running {
            return None;
        }
        Some(self.recover_previous_state())
    }

    /// The last step of `start`: the daemon runs, whether or not the start-up profile could
    /// be applied.
    pub fn finish_start(&mut self)
        ensures
            final(self).running,
            final(self).catalog == old(self).catalog,
            final(self).rollback == old(self).rollback,
            final(self).active_profile == old(self).active_profile,
            final(self).manual == old(self).manual,
    {
        self.running = true;
    }

    /// Stops the daemon. Where `rollback` is asked for and `rollback_on_exit` (the global
    /// setting) allows it, the writes that restore the original values are returned and no
    /// entry is left; otherwise nothing is restored.
    pub fn stop(&mut self, rollback: bool, rollback_on_exit: bool) -> (r: Vec<
        Result<RestoreAction, RollbackError>,
    >)
        requires
            old(self).wf(),
        ensures
            final(self).wf(),
            !final(self).running,
            final(self).catalog == old(self).catalog,
            final(self).active_profile == old(self).active_profile,
            final(self).manual == old(self).manual,
            if rollback && rollback_on_exit {
                restores_all(r@, old(self).rollback) && final(self).rollback@ == Map::<
                    Seq<char>,
                    Seq<char>,
                >::empty()
            } else {
                r@.len() == 0 && final(self).rollback == old(self).rollback
            },
    {
        let r = if rollback && rollback_on_exit {
            self.recover_previous_state()
        } else {
            Vec::new()
        };
        self.running = false;
        r
    }

    /// Whether the daemon runs.
    pub fn is_running(&self) -> (r: bool)
        ensures
            r == self.running,
    {
        self.running
    }

    /// The active profile (empty where none is).
    pub fn active_profile(&self) -> (r: String)
        ensures
            r@ == self.active_profile@,
    {
        self.active_profile.clone()
    }

    /// `(mode, error)`: `manual` or `auto`, and no error.
    pub fn profile_mode(&self) -> (r: (String, String))
        ensures
            r.0@ == (if self.manual {
                "manual"@
            } else {
                "auto"@
            }),
            r.1@ == Seq::<char>::empty(),
    {
        let mode = if self.manual {
            "manual"
        } else {
            "auto"
        };
        (mode.to_owned(), String::new())
    }

    /// The profile loaded last: the active one.
    pub fn post_loaded_profile(&self) -> (r: String)
        ensures
            r@ == self.active_profile@,
    {
        self.active_profile()
    }

    /// The names of the available profiles, sorted.
    pub fn profiles(&self) -> (r: Vec<String>)
        ensures
            crate::text::sorted_seq(r.deep_view()),
            r.deep_view().no_duplicates(),
            r.deep_view().to_set() == self.catalog@.dom(),
    {
        self.catalog.names()
    }

    /// `(name, summary)` of every available profile, sorted by name.
    pub fn profiles2(&self) -> (r: Vec<(String, String)>)
        ensures
            crate::text::sorted_seq(crate::profile::firsts(r@)),
            crate::profile::firsts(r@).no_duplicates(),
            crate::profile::firsts(r@).to_set() == self.catalog@.dom(),
            forall|i: int|
                0 <= i < r@.len() ==> self.catalog@[(#[trigger] r@[i]).0@].summary@ == r@[i].1@,
    {
        self.catalog.summaries()
    }

    /// `(found, summary, description, error)` for the profile `name`.
    pub fn profile_info(&self, name: &str) -> (r: (bool, String, String, String))
        ensures
            if self.catalog@.contains_key(name@) {
                r.0 && r.1@ == self.catalog@[name@].summary@ && r.2@
                    == self.catalog@[name@].description@ && r.3@ == Seq::<char>::empty()
            } else {
                !r.0 && r.1@ == Seq::<char>::empty() && r.2@ == Seq::<char>::empty() && r.3@
                    == "Profile '"@ + name@ + "' not found"@
            },
    {
        self.catalog.profile_info(name)
    }

    /// The profile to recommend.
    pub fn recommend_profile(&self) -> (r: String)
        ensures
            if self.catalog@.contains_key("balanced"@) || self.catalog@.dom().is_empty() {
                r@ == "balanced"@
            } else {
                self.catalog@.contains_key(r@) && forall|k: Seq<char>|
                    #[trigger] self.catalog@.contains_key(k) ==> !crate::text::lex_lt(k, r@)
            },
    {
        self.catalog.recommend()
    }

    /// The first step of applying the profile `name`: refused with `Profile '<name>' not
    /// found` where the catalog has no such profile; otherwise the profile and the writes that
    /// restore what the previous profile changed (no rollback entry is left). The caller then
    /// performs them, applies the profile, writes the active profile and mode files and calls
    /// [`Daemon::finish_apply`].
    pub fn apply_profile(&mut self, name: &str) -> (r: Result<
        (Profile, Vec<Result<RestoreAction, RollbackError>>),
        String,
    >)
        requires
            old(self).wf(),
        ensures
            final(self).wf(),
            final(self).catalog == old(self).catalog,
            final(self).active_profile == old(self).active_profile,
            final(self).running == old(self).running,
            final(self).manual == old(self).manual,
            match r {
                Ok((p, restores)) => old(self).catalog@.contains_key(name@)
                    && restores_all(restores@, old(self).rollback) && final(self).rollback@ == Map::<
                    Seq<char>,
                    Seq<char>,
                >::empty() && same_profile(p, old(self).catalog@[name@]),
                Err(e) => !old(self).catalog@.contains_key(name@) && e@ == "Profile '"@ + name@
                    + "' not found"@ && final(self).rollback == old(self).rollback,
            },
    {
        let profile = match self.catalog.get(name) {
            Some(p) => p.copy(),
            None => return Err(concat3("Profile '", name, "' not found")),
        };
        let restores = self.recover_previous_state();
        Ok((profile, restores))
    }

    /// The last step of applying the profile `name`: it is active, in manual mode or not.
    pub fn finish_apply(&mut self, name: &str, manual: bool)
        ensures
            final(self).active_profile@ == name@,
            final(self).manual == manual,
            final(self).catalog == old(self).catalog,
            final(self).rollback == old(self).rollback,
            final(self).running == old(self).running,
    {
        self.active_profile = name.to_owned();
        self.manual = manual;
    }

    /// The first step of `switch_profile`: an invalid name is answered with `(false,
    /// "Invalid profile_name")` and changes nothing; otherwise as
    /// [`Daemon::apply_profile`], whose error `e` is answered with `(false, e)`.
    pub fn switch_profile(&mut self, name: &str) -> (r: Result<
        (Profile, Vec<Result<RestoreAction, RollbackError>>),
        (bool, String),
    >)
        requires
            old(self).wf(),
        ensures
            final(self).wf(),
            final(self).catalog == old(self).catalog,
            final(self).active_profile == old(self).active_profile,
            final(self).running == old(self).running,
            final(self).manual == old(self).manual,
            match r {
                Ok((p, restores)) => valid_profile_name(name@) && old(self).catalog@.contains_key(
                    name@,
                ) && restores_all(restores@, old(self).rollback) && final(self).rollback@ == Map::<
                    Seq<char>,
                    Seq<char>,
                >::empty() && same_profile(p, old(self).catalog@[name@]),
                Err((ok, msg)) => !ok && final(self).rollback == old(self).rollback && if valid_profile_name(
                    name@,
                ) {
                    !old(self).catalog@.contains_key(name@) && msg@ == "Profile '"@ + name@
                        + "' not found"@
                } else {
                    msg@ == "Invalid profile_name"@
                },
            },
    {
        if !validate_profile_name(name) {
            return Err((false, "Invalid profile_name".to_owned()));
        }
        match self.apply_profile(name) {
            Ok(x) => Ok(x),
            Err(e) => Err((false, e)),
        }
    }

    /// The profile to apply again (after a hardware event) and its mode: refused with `No
    /// active profile to reapply` where none is active.
    pub fn reapply_active_profile(&self) -> (r: Result<(String, bool), String>)
        ensures
            match r {
                Ok((name, manual)) => self.active_profile@.len() > 0 && name@ == self.active_profile@
                    && manual == self.manual,
                Err(e) => self.active_profile@.len() == 0 && e@ == "No active profile to reapply"@,
            },
    {
        if self.active_profile.as_str().is_empty() {
            return Err("No active profile to reapply".to_owned());
        }
        Ok((self.active_profile.clone(), self.manual))
    }

    /// Disables tuning: stops as [`Daemon::stop`] with rollback asked for, and leaves no
    /// active profile (the caller empties the active profile file).
    pub fn disable(&mut self, rollback_on_exit: bool) -> (r: Vec<Result<RestoreAction, RollbackError>>)
        requires
            old(self).wf(),
        ensures
            final(self).wf(),
            !final(self).running,
            final(self).active_profile@ == Seq::<char>::empty(),
            final(self).catalog == old(self).catalog,
            final(self).manual == old(self).manual,
            if rollback_on_exit {
                restores_all(r@, old(self).rollback) && final(self).rollback@ == Map::<
                    Seq<char>,
                    Seq<char>,
                >::empty()
            } else {
                r@.len() == 0 && final(self).rollback == old(self).rollback
            },
    {
        let r = self.stop(true, rollback_on_exit);
        self.active_profile = String::new();
        r
    }
}

} // verus!
