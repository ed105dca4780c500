//! The `disk` plugin: I/O scheduler and readahead of block devices.
use vstd::prelude::*;

use crate::number::{i64_to_string, parse_i64, parse_i64_spec, signed_decimal};
use crate::rollback::{recorded, rollback_key, rollback_key_spec, Rollback};
use crate::text::{
    char_is_ascii_alnum, chars_of, concat3, contains_seq, is_ascii_alnum, sort_strings,
    sorted_seq, split_fields, split_fields_str, split_whitespace_str, starts_with, str_contains,
    str_eq, str_starts_with, trim, trim_str, words,
};
use crate::tuning::modifiers::{
    choice_candidates, parse_assignment, parse_assignment_spec, resolve_choice,
    resolve_numeric_assignment, resolve_spec, Assignment,
};
use crate::tuning::sysfs::{allowed_path, lemma_dotless_path_allowed, record_and_write};
use crate::tuning::{TunableWrite, TuningError};

verus! {

/// A character allowed in a block device name.
pub open spec fn is_device_char(c: char) -> bool {
    is_ascii_alnum(c) || c == '_' || c == '-'
}

/// A block device name is non-empty and made of `[A-Za-z0-9_-]` (so it holds no `/`).
pub open spec fn device_name_ok(d: Seq<char>) -> bool {
    &&& d.len() > 0
    &&& !d.contains('/')
    &&& forall|i: int| 0 <= i < d.len() ==> is_device_char(#[trigger] d[i])
}

/// `PathBuf::join`: an absolute `part` replaces `base`, a relative one is appended after a
/// `/` (for a `base` without a trailing `/`).
pub open spec fn path_join(base: Seq<char>, part: Seq<char>) -> Seq<char> {
    if part.len() > 0 && part[0] == '/' {
        part
    } else {
        base + "/"@ + part
    }
}

/// The queue attribute file `option` of `device`, or why there is none.
pub open spec fn device_option_path_spec(device: Seq<char>, option: Seq<char>) -> Result<
    Seq<char>,
    TuningError,
> {
    if !device_name_ok(device) {
        Err(TuningError::InvalidBlockDevice)
    } else {
        Ok(path_join("/sys/block/"@ + device + "/queue"@, option))
    }
}

fn device_chars_ok(device: &str) -> (r: bool)
    ensures
        r == device_name_ok(device@),
{
    let cs = chars_of(device);
    if cs.len() == 0 {
        return false;
    }
    let mut i: usize = 0;
    while i < cs.len()
        invariant
            cs@ == device@,
            i <= cs@.len(),
            forall|j: int| 0 <= j < i ==> is_device_char(#[trigger] device@[j]),
        decreases cs@.len() - i,
    {
        let c = cs[i];
        if !(char_is_ascii_alnum(c) || c == '_' || c == '-') {
            assert(!is_device_char(device@[i as int]));
            return false;
        }
        i = i + 1;
    }
    proof {
        if device@.contains('/') {
            let k = choose|k: int| 0 <= k < device@.len() && device@[k] == '/';
            assert(is_device_char(device@[k]));
        }
    }
    true
}

/// The file `/sys/block/<device>/queue/<option>`.
pub fn device_option_path(device: &str, option: &str) -> (r: Result<String, TuningError>)
    ensures
        match r {
            Ok(p) => device_option_path_spec(device@, option@) == Ok::<Seq<char>, TuningError>(p@),
            Err(e) => device_option_path_spec(device@, option@) == Err::<Seq<char>, TuningError>(
                e,
            ),
        },
{
    if !device_chars_ok(device) {
        return Err(TuningError::InvalidBlockDevice);
    }
    let base = concat3("/sys/block/", device, "/queue");
    let ocs = chars_of(option);
    if ocs.len() > 0 && ocs[0] == '/' {
        Ok(option.to_owned())
    } else {
        Ok(concat3(base.as_str(), "/", option))
    }
}

/// The scheduler and readahead files of every valid block device name stay in the
/// allowlisted sysfs roots.
pub proof fn lemma_device_paths_allowed(device: Seq<char>, option: Seq<char>)
    requires
        device_name_ok(device),
        option == "scheduler"@ || option == "read_ahead_kb"@,
    ensures
        device_option_path_spec(device, option) matches Ok(p) && allowed_path(p),
{
    reveal_strlit("scheduler");
    reveal_strlit("read_ahead_kb");
    reveal_strlit("/sys/block/");
    reveal_strlit("/queue");
    reveal_strlit("/");
    let p = "/sys/block/"@ + device + "/queue"@ + "/"@ + option;
    assert(device_option_path_spec(device, option) == Ok::<Seq<char>, TuningError>(p));
    assert(starts_with(p, "/sys/block/"@)) by {
        assert(p.subrange(0, "/sys/block/"@.len() as int) =~= "/sys/block/"@);
    }
    assert(!p.contains('.')) by {
        if p.contains('.') {
            let k = choose|k: int| 0 <= k < p.len() && p[k] == '.';
            let a = "/sys/block/"@.len() as int;
            let b = a + device.len();
            let c = b + "/queue"@.len() + 1;
            if k < a {
                assert(p[k] == "/sys/block/"@[k]);
            } else if k < b {
                assert(p[k] == device[k - a]);
                assert(is_device_char(device[k - a]));
            } else if k < c {
                assert(p[k] == ("/queue"@ + "/"@)[k - b]);
            } else {
                assert(p[k] == option[k - c]);
            }
        }
    }
    lemma_dotless_path_allowed(p);
}

/// The write of `value` to the queue attribute `option` of `device`.
pub fn write_raw(device: &str, option: &str, value: &str) -> (r: Result<TunableWrite, TuningError>)
    ensures
        match r {
            Ok(w) => device_option_path_spec(device@, option@) == Ok::<Seq<char>, TuningError>(
                w.path@,
            ) && w.value@ == value@,
            Err(e) => device_option_path_spec(device@, option@) == Err::<Seq<char>, TuningError>(
                e,
            ),
        },
{
    let path = device_option_path(device, option)?;
    Ok(TunableWrite { path, value: value.to_owned() })
}

/// Block devices that are not worth tuning: loop, RAM, floppy, device-mapper and optical.
pub open spec fn tunable_block_device(name: Seq<char>) -> bool {
    !(starts_with(name, "loop"@) || starts_with(name, "ram"@) || starts_with(name, "fd"@)
        || starts_with(name, "dm-"@) || starts_with(name, "sr"@))
}

/// Whether the block device `name` is tuned when a profile names no devices.
pub fn is_tunable_block_device(name: &str) -> (r: bool)
    ensures
        r == tunable_block_device(name@),
{
    !(str_starts_with(name, "loop") || str_starts_with(name, "ram") || str_starts_with(name, "fd")
        || str_starts_with(name, "dm-") || str_starts_with(name, "sr"))
}

/// The devices a profile's `disk` section applies to: its `devices` list split on `,` and
/// spaces, or else every tunable device among `block_devices` (the entries of `/sys/block`),
/// in sorted order.
pub fn resolve_devices(devices: Option<&str>, block_devices: &Vec<String>) -> (r: Vec<String>)
    ensures
        match devices {
            Some(list) => r.deep_view() == split_fields(list@, seq![',', ' ']),
            None => sorted_seq(r.deep_view()) && r.deep_view().to_multiset() == block_devices.deep_view().filter(
                |n: Seq<char>| tunable_block_device(n),
            ).to_multiset(),
        },
{
    match devices {
        Some(list) => {
            let seps = [',', ' '];
            let r = split_fields_str(list, &seps);
            proof {
                assert(seps@ =~= seq![',', ' ']);
            }
            r
        },
        None => {
            let ghost src = block_devices.deep_view();
            let ghost keep = |n: Seq<char>| tunable_block_device(n);
            let mut kept: Vec<String> = Vec::new();
            let mut i: usize = 0;
            proof {
                assert(src.take(0) =~= Seq::<Seq<char>>::empty());
                reveal_with_fuel(Seq::filter, 1);
            }
            while i < block_devices.len()
                invariant
                    src == block_devices.deep_view(),
                    keep == (|n: Seq<char>| tunable_block_device(n)),
                    i <= block_devices@.len(),
                    kept.deep_view() == src.take(i as int).filter(keep),
                decreases block_devices@.len() - i,
            {
                proof {
                    assert(src[i as int] == block_devices@[i as int]@);
                    assert(src.take(i + 1).drop_last() =~= src.take(i as int));
                    assert(src.take(i + 1).last() == src[i as int]);
                    reveal_with_fuel(Seq::filter, 1);
                }
                if is_tunable_block_device(block_devices[i].as_str()) {
                    let name = block_devices[i].clone();
                    kept.push(name);
                    proof {
                        assert(kept.deep_view() =~= src.take(i as int).filter(keep).push(src[i as int]));
                    }
                }
                i = i + 1;
            }
            proof {
                assert(src.take(block_devices@.len() as int) =~= src);
            }
            sort_strings(kept)
        },
    }
}

/// One option applied to one device.
#[derive(Debug)]
pub struct DiskJob {
    pub device: String,
    pub option: String,
    pub value: String,
}

/// The jobs for `devs` and `opts`: every option for the first device, then every option for
/// the next, and so on.
pub open spec fn job_seq(devs: Seq<Seq<char>>, opts: Seq<(Seq<char>, Seq<char>)>) -> Seq<
    (Seq<char>, Seq<char>, Seq<char>),
>
    decreases devs.len(),
{
    if devs.len() == 0 {
        Seq::empty()
    } else {
        job_seq(devs.drop_last(), opts) + Seq::new(
            opts.len(),
            |j: int| (devs.last(), opts[j].0, opts[j].1),
        )
    }
}

/// The view of a job.
pub open spec fn job_view(j: DiskJob) -> (Seq<char>, Seq<char>, Seq<char>) {
    (j.device@, j.option@, j.value@)
}

/// The view of option pairs.
pub open spec fn options_view(o: Seq<(String, String)>) -> Seq<(Seq<char>, Seq<char>)> {
    o.map_values(|p: (String, String)| (p.0@, p.1@))
}

/// The order in which the `disk` options of a profile are applied: for each device that
/// [`resolve_devices`] yields, each option in turn (the caller stops at the first failure).
pub fn apply_options(
    devices: Option<&str>,
    block_devices: &Vec<String>,
    options: &Vec<(String, String)>,
) -> (r: Vec<DiskJob>)
    ensures
        exists|devs: Vec<String>|
            #![trigger devs.deep_view()]
            (match devices {
                Some(list) => devs.deep_view() == split_fields(list@, seq![',', ' ']),
                None => sorted_seq(devs.deep_view()) && devs.deep_view().to_multiset()
                    == block_devices.deep_view().filter(
                    |n: Seq<char>| tunable_block_device(n),
                ).to_multiset(),
            }) && r@.map_values(|j: DiskJob| job_view(j)) == job_seq(
                devs.deep_view(),
                options_view(options@),
            ),
{
    let devs = resolve_devices(devices, block_devices);
    let ghost dv = devs.deep_view();
    let ghost ov = options_view(options@);
    let mut out: Vec<DiskJob> = Vec::new();
    let mut i: usize = 0;
    proof {
        assert(dv.take(0) =~= Seq::<Seq<char>>::empty());
        assert(out@.map_values(|j: DiskJob| job_view(j)) =~= job_seq(dv.take(0), ov));
    }
    while i < devs.len()
        invariant
            dv == devs.deep_view(),
            ov == options_view(options@),
            i <= devs@.len(),
            out@.map_values(|j: DiskJob| job_view(j)) == job_seq(dv.take(i as int), ov),
        decreases devs@.len() - i,
    {
        let ghost base = out@.map_values(|j: DiskJob| job_view(j));
        let mut k: usize = 0;
        proof {
            assert(dv[i as int] == devs@[i as int]@);
        }
        while k < options.len()
            invariant
                dv == devs.deep_view(),
                ov == options_view(options@),
                i < devs@.len(),
                dv[i as int] == devs@[i as int]@,
                k <= options@.len(),
                base == job_seq(dv.take(i as int), ov),
                out@.map_values(|j: DiskJob| job_view(j)) == base + Seq::new(
                    k as nat,
                    |j: int| (dv[i as int], ov[j].0, ov[j].1),
                ),
            decreases options@.len() - k,
        {
            let job = DiskJob {
                device: devs[i].clone(),
                option: options[k].0.clone(),
                value: options[k].1.clone(),
            };
            let ghost prev = out@;
            proof {
                assert(ov[k as int] == (options@[k as int].0@, options@[k as int].1@));
                assert(job_view(job) == (dv[i as int], ov[k as int].0, ov[k as int].1));
            }
            let ghost jv = job_view(job);
            out.push(job);
            proof {
                let lhs = out@.map_values(|j: DiskJob| job_view(j));
                let rhs = base + Seq::new((k + 1) as nat, |j: int| (dv[i as int], ov[j].0, ov[j].1));
                let pm = prev.map_values(|j: DiskJob| job_view(j));
                assert(pm == base + Seq::new(k as nat, |j: int| (dv[i as int], ov[j].0, ov[j].1)));
                assert(pm.len() == prev.len());
                assert(lhs.len() == out@.len());
                assert(lhs.len() == rhs.len());
                assert forall|q: int| 0 <= q < lhs.len() implies lhs[q] == rhs[q] by {
                    if q < prev.len() {
                        assert(lhs[q] == pm[q]);
                    } else {
                        assert(lhs[q] == jv);
                    }
                }
                assert(out@.map_values(|j: DiskJob| job_view(j)) =~= base + Seq::new(
                    (k + 1) as nat,
                    |j: int| (dv[i as int], ov[j].0, ov[j].1),
                )) by {
                    assert(prev.map_values(|j: DiskJob| job_view(j)) == base + Seq::new(
                        k as nat,
                        |j: int| (dv[i as int], ov[j].0, ov[j].1),
                    ));
                }
            }
            k = k + 1;
        }
        proof {
            let t = dv.take(i + 1);
            assert(t.drop_last() =~= dv.take(i as int));
            assert(t.last() == dv[i as int]);
            assert(options@.len() == ov.len());
            assert(out@.map_values(|j: DiskJob| job_view(j)) =~= job_seq(t, ov));
        }
        i = i + 1;
    }
    proof {
        assert(dv.take(devs@.len() as int) =~= dv);
    }
    out
}

/// The `disk` options the plugin knows.
#[derive(Debug, Clone, Copy, PartialEq, Eq, Structural)]
pub enum DiskOption {
    /// The I/O scheduler (`queue/scheduler`).
    Elevator,
    /// The readahead size in KiB (`queue/read_ahead_kb`).
    Readahead,
    /// Anything else: skipped.
    Unsupported,
}

/// Which setting a `disk` option names.
pub fn apply_device_option(option: &str) -> (r: DiskOption)
    ensures
        r == if option@ == "elevator"@ {
            DiskOption::Elevator
        } else if option@ == "readahead"@ {
            DiskOption::Readahead
        } else {
            DiskOption::Unsupported
        },
{
    if str_eq(option, "elevator") {
        DiskOption::Elevator
    } else if str_eq(option, "readahead") {
        DiskOption::Readahead
    } else {
        DiskOption::Unsupported
    }
}

/// Sets the scheduler file `path` (currently `current`, which lists the available
/// schedulers) to the first alternative of `raw_value` that occurs in `current`, or to
/// `raw_value` trimmed if none does; `current` is recorded under `sysfs:path`.
pub fn apply_elevator(rollback: &mut Rollback, path: &str, raw_value: &str, current: &str) -> (w:
    TunableWrite)
    requires
        old(rollback).wf(),
    ensures
        final(rollback).wf(),
        final(rollback)@ == recorded(old(rollback)@, rollback_key_spec("sysfs"@, path@), current@),
        w.path@ == path@,
        ({
            let cands = choice_candidates(raw_value@);
            ||| exists|i: int|
                0 <= i < cands.len() && cands[i] == w.value@ && contains_seq(current@, cands[i])
                    && forall|j: int| 0 <= j < i ==> !contains_seq(current@, #[trigger] cands[j])
            ||| (forall|j: int| 0 <= j < cands.len() ==> !contains_seq(current@, #[trigger] cands[j]))
                && w.value@ == trim(raw_value@)
        }),
{
    let in_current = |candidate: &str| -> (found: bool)
        ensures
            found == contains_seq(current@, candidate@),
        { str_contains(current, candidate) };
    let resolved = match resolve_choice(raw_value, in_current) {
        Some(c) => c,
        None => trim_str(raw_value),
    };
    let key = rollback_key("sysfs", path);
    record_and_write(rollback, key.as_str(), path, current, resolved.as_str())
}

/// `v / 2` rounded toward zero, as Rust's integer division does.
pub open spec fn half_toward_zero(v: int) -> int {
    if v >= 0 {
        v / 2
    } else {
        -((-v) / 2)
    }
}

/// The readahead in KiB that `raw` asks for: a number, optionally followed by the unit `s`
/// (512-byte sectors, halved), or why it cannot be read.
pub open spec fn readahead_spec(raw: Seq<char>) -> Result<int, TuningError> {
    let w = words(raw);
    if w.len() == 0 {
        Err(TuningError::MissingReadahead)
    } else {
        match parse_i64_spec(w[0]) {
            None => Err(TuningError::InvalidReadahead),
            Some(v) => if w.len() == 1 {
                Ok(v)
            } else if w[1] == "s"@ {
                Ok(half_toward_zero(v))
            } else {
                Err(TuningError::UnsupportedReadaheadUnit)
            },
        }
    }
}

/// Reads a readahead setting such as `4096` or `8192 s`.
pub fn parse_readahead_kb(raw: &str) -> (r: Result<i64, TuningError>)
    ensures
        match r {
            Ok(v) => readahead_spec(raw@) == Ok::<int, TuningError>(v as int),
            Err(e) => readahead_spec(raw@) == Err::<int, TuningError>(e),
        },
{
    let parts = split_whitespace_str(raw);
    if parts.len() == 0 {
        return Err(TuningError::MissingReadahead);
    }
    proof {
        assert(parts.deep_view()[0] == parts@[0]@);
    }
    let value = match parse_i64(parts[0].as_str()) {
        Some(v) => v,
        None => return Err(TuningError::InvalidReadahead),
    };
    if parts.len() > 1 {
        proof {
            assert(parts.deep_view()[1] == parts@[1]@);
        }
        if str_eq(parts[1].as_str(), "s") {
            let half: i64 = if value >= 0 {
                value / 2
            } else {
                let m = value as i128;
                (-((-m) / 2)) as i64
            };
            return Ok(half);
        }
        return Err(TuningError::UnsupportedReadaheadUnit);
    }
    Ok(value)
}

/// What [`apply_readahead`] writes for `raw_value` over `current`, or why it refuses.
pub open spec fn readahead_write_spec(raw_value: Seq<char>, current: Seq<char>) -> Result<
    Option<Seq<char>>,
    TuningError,
> {
    let a = parse_assignment_spec(raw_value);
    match readahead_spec(a.target) {
        Err(e) => Err(e),
        Ok(t) => Ok(resolve_spec(a.op, signed_decimal(t), current)),
    }
}

/// Sets the readahead file `path` (currently `current`) from the profile value `raw_value`,
/// which may carry a relative operator (`=>4096` raises but never lowers); `current` is
/// recorded under `sysfs:path` when a write is due.
pub fn apply_readahead(rollback: &mut Rollback, path: &str, raw_value: &str, current: &str) -> (r:
    Result<Option<TunableWrite>, TuningError>)
    requires
        old(rollback).wf(),
    ensures
        final(rollback).wf(),
        match r {
            Ok(Some(w)) => readahead_write_spec(raw_value@, current@) == Ok::<
                Option<Seq<char>>,
                TuningError,
            >(Some(w.value@)) && w.path@ == path@ && final(rollback)@ == recorded(
                old(rollback)@,
                rollback_key_spec("sysfs"@, path@),
                current@,
            ),
            Ok(None) => readahead_write_spec(raw_value@, current@) == Ok::<
                Option<Seq<char>>,
                TuningError,
            >(None) && final(rollback)@ == old(rollback)@,
            Err(e) => readahead_write_spec(raw_value@, current@) == Err::<
                Option<Seq<char>>,
                TuningError,
            >(e) && final(rollback)@ == old(rollback)@,
        },
{
    let assignment = parse_assignment(raw_value);
    let target = parse_readahead_kb(assignment.target.as_str())?;
    let numeric = Assignment {
        op: assignment.op,
        raw: assignment.raw,
        target: i64_to_string(target),
    };
    let resolved = match resolve_numeric_assignment(&numeric, current) {
        Ok(Some(v)) => v,
        Ok(None) => return Ok(None),
        Err(e) => return Err(e),
    };
    let key = rollback_key("sysfs", path);
    Ok(Some(record_and_write(rollback, key.as_str(), path, current, resolved.as_str())))
}

} // verus!
