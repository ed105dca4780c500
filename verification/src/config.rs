//! Locations and names shared by the daemons, and the global daemon settings.
use vstd::prelude::*;

use crate::ini::{
    ini_get, ini_get_spec, ini_read, ini_size_ok, ini_too_large, ini_view, ini_wf, read_ini,
    IniSections,
};
use crate::text::{chars_of, concat, concat3, split, split_str, str_eq};

verus! {

pub const NAMESPACE: &'static str = "com.redhat.tuned";
pub const DBUS_INTERFACE: &'static str = "com.redhat.tuned.control";
pub const DBUS_OBJECT: &'static str = "/Tuned";

pub const GLOBAL_CONFIG_FILE: &'static str = "/etc/tuned/tuned-main.conf";
pub const ACTIVE_PROFILE_FILE: &'static str = "/etc/tuned/active_profile";
pub const PROFILE_MODE_FILE: &'static str = "/etc/tuned/profile_mode";
pub const PROFILE_FILE: &'static str = "tuned.conf";
pub const DEFAULT_PROFILE: &'static str = "balanced";
pub const ROLLBACK_FILE: &'static str = "/var/lib/tuned-rs/rollback.json";

pub const SYSTEM_PROFILES_DIR: &'static str = "/usr/lib/tuned/profiles";
pub const USER_PROFILES_DIR: &'static str = "/etc/tuned/profiles";

pub const ROLLBACK_AUTO: &'static str = "auto";
pub const ROLLBACK_NOT_ON_EXIT: &'static str = "not_on_exit";

/// The profile directories searched by default: the system ones, then the user ones (a
/// profile in a later directory replaces one of the same name in an earlier one).
pub fn default_profile_dirs() -> (r: Vec<String>)
    ensures
        r.deep_view() == seq!["/usr/lib/tuned/profiles"@, "/etc/tuned/profiles"@],
{
    let mut v: Vec<String> = Vec::new();
    v.push(SYSTEM_PROFILES_DIR.to_owned());
    v.push(USER_PROFILES_DIR.to_owned());
    proof {
        assert(v.deep_view() =~= seq!["/usr/lib/tuned/profiles"@, "/etc/tuned/profiles"@]);
    }
    v
}

/// `path` without its leading `/` characters (Rust's `trim_start_matches('/')`).
pub open spec fn strip_leading_slashes(path: Seq<char>) -> Seq<char>
    decreases path.len(),
{
    if path.len() > 0 && path[0] == '/' {
        strip_leading_slashes(path.drop_first())
    } else {
        path
    }
}

/// `PathBuf::join` of a relative `part` onto `root`: appended after a `/`, which is not
/// doubled where `root` already ends with one, and `part` alone onto an empty `root`.
pub open spec fn join_relative(root: Seq<char>, part: Seq<char>) -> Seq<char> {
    if root.len() == 0 {
        part
    } else if root.last() == '/' {
        root + part
    } else {
        root + "/"@ + part
    }
}

/// Where the file `path` lies once the test root `root` (the value of `TUNED_RS_ROOT`,
/// `None` where it is unset) is applied: under the root, taken as relative to it.
pub open spec fn resolve_path_spec(path: Seq<char>, root: Option<Seq<char>>) -> Seq<char> {
    match root {
        None => path,
        Some(r) => join_relative(r, strip_leading_slashes(path)),
    }
}

fn strip_leading_slashes_str(path: &str) -> (r: &str)
    ensures
        r@ == strip_leading_slashes(path@),
{
    let cs = chars_of(path);
    let mut i: usize = 0;
    proof {
        assert(path@.skip(0) =~= path@);
    }
    while i < cs.len() && cs[i] == '/'
        invariant
            cs@ == path@,
            i <= cs@.len(),
            strip_leading_slashes(path@) == strip_leading_slashes(path@.skip(i as int)),
        decreases cs@.len() - i,
    {
        proof {
            assert(path@.skip(i as int).drop_first() =~= path@.skip(i + 1));
        }
        i = i + 1;
    }
    proof {
        assert(path@.subrange(i as int, cs@.len() as int) =~= path@.skip(i as int));
    }
    path.substring_char(i, cs.len())
}

/// The location of `path` under the test root `root` (`None` where `TUNED_RS_ROOT` is
/// unset): a path taken relative to the root, whether it is absolute or not.
pub fn resolve_path(path: &str, root: Option<&str>) -> (r: String)
    ensures
        r@ == resolve_path_spec(path@, match root {
            Some(x) => Some(x@),
            None => None,
        }),
{
    let r = match root {
        Some(r) => r,
        None => return path.to_owned(),
    };
    let part = strip_leading_slashes_str(path);
    let rc = chars_of(r);
    if rc.len() == 0 {
        part.to_owned()
    } else if rc[rc.len() - 1] == '/' {
        concat(r, part)
    } else {
        proof {
            reveal_strlit("/");
        }
        concat3(r, "/", part)
    }
}

/// The profile directories named by the value of `TUNED_RS_PROFILE_DIRS` (`None` where it is
/// unset): its pieces between `,` and `;`, empty ones dropped; the default directories where
/// no piece is left.
pub open spec fn profile_dirs_spec(value: Option<Seq<char>>) -> Seq<Seq<char>> {
    let defaults = seq!["/usr/lib/tuned/profiles"@, "/etc/tuned/profiles"@];
    match value {
        None => defaults,
        Some(v) => {
            let dirs = split(v, seq![',', ';']).filter(|p: Seq<char>| p.len() > 0);
            if dirs.len() == 0 {
                defaults
            } else {
                dirs
            }
        },
    }
}

/// The profile search path, given the value of `TUNED_RS_PROFILE_DIRS` (`None` where it is
/// unset).
pub fn profile_dirs_from_env(value: Option<&str>) -> (r: Vec<String>)
    ensures
        r.deep_view() == profile_dirs_spec(match value {
            Some(v) => Some(v@),
            None => None,
        }),
{
    let v = match value {
        Some(v) => v,
        None => return default_profile_dirs(),
    };
    let seps = [',', ';'];
    let pieces = split_str(v, &seps);
    proof {
        assert(seps@ =~= seq![',', ';']);
    }
    let ghost src = pieces.deep_view();
    let ghost keep = |p: Seq<char>| p.len() > 0;
    let mut out: Vec<String> = Vec::new();
    let mut i: usize = 0;
    proof {
        assert(src.take(0) =~= Seq::<Seq<char>>::empty());
        reveal_with_fuel(Seq::filter, 1);
    }
    while i < pieces.len()
        invariant
            src == pieces.deep_view(),
            keep == (|p: Seq<char>| p.len() > 0),
            i <= pieces@.len(),
            out.deep_view() == src.take(i as int).filter(keep),
        decreases pieces@.len() - i,
    {
        proof {
            assert(src[i as int] == pieces@[i as int]@);
            assert(src.take(i + 1).drop_last() =~= src.take(i as int));
            reveal_with_fuel(Seq::filter, 1);
        }
        if !pieces[i].as_str().is_empty() {
            out.push(pieces[i].clone());
            proof {
                assert(out.deep_view() =~= src.take(i as int).filter(keep).push(pieces@[i as int]@));
            }
        }
        i = i + 1;
    }
    proof {
        assert(src.take(pieces@.len() as int) =~= src);
    }
    if out.len() == 0 {
        return default_profile_dirs();
    }
    out
}

/// Whether the original values are restored when the daemon exits, given the content of
/// `tuned-main.conf` (`None` where there is no such file): yes, unless the file is small
/// enough to parse, parses, and its `[main]` `rollback` is `not_on_exit`.
pub open spec fn rollback_on_exit_spec(content: Option<Seq<char>>) -> bool {
    match content {
        None => true,
        Some(c) => if ini_too_large(c) {
            true
        } else {
            match ini_read(c) {
                Err(_) => true,
                Ok(m) => ini_get_spec(m, "main"@, "rollback"@) != Some("not_on_exit"@),
            }
        },
    }
}

/// Decides [`rollback_on_exit_spec`] from the content of the global configuration file.
pub fn rollback_on_exit(content: Option<&str>) -> (r: bool)
    ensures
        r == rollback_on_exit_spec(match content {
            Some(c) => Some(c@),
            None => None,
        }),
{
    let c = match content {
        Some(c) => c,
        None => return true,
    };
    if !ini_size_ok(c) {
        return true;
    }
    match read_ini(c) {
        Ok(ini) => rollback_on_exit_from_sections(&ini),
        Err(_) => true,
    }
}

/// Whether the original values are restored on exit, given the parsed sections of
/// `tuned-main.conf`: yes, unless its `[main]` `rollback` is `not_on_exit`.
pub fn rollback_on_exit_from_sections(ini: &IniSections) -> (r: bool)
    requires
        ini_wf(*ini),
    ensures
        r == (ini_get_spec(ini_view(*ini), "main"@, "rollback"@) != Some("not_on_exit"@)),
{
    match ini_get(ini, "main", "rollback") {
        Some(v) => !str_eq(v.as_str(), ROLLBACK_NOT_ON_EXIT),
        None => true,
    }
}

} // verus!
