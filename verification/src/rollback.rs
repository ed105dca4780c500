//! Rollback bookkeeping: the original value of every tunable that a profile changed, kept
//! until it is restored.
use vstd::prelude::*;

use crate::strmap::StrMap;
use crate::text::{chars_of, concat3, str_eq};

verus! {

/// Which writer restores a rollback entry.
#[derive(Debug, Clone, Copy, PartialEq, Eq, Structural)]
pub enum RollbackKind {
    /// A `sysctl` key under `/proc/sys`.
    Sysctl,
    /// A `vm` option (dirty ratios and byte counts, transparent hugepages).
    Vm,
    /// A sysfs file, by path.
    Sysfs,
}

/// Why a rollback entry cannot be restored.
#[derive(Debug, Clone, Copy, PartialEq, Eq, Structural)]
pub enum RollbackError {
    /// The key holds no `:`.
    InvalidKey,
    /// The part of the key before the first `:` is not `sysctl`, `vm` or `sysfs`.
    UnknownKind,
}

/// Writing `value` back to `target` through the writer for `kind`.
#[derive(Debug)]
pub struct RestoreAction {
    pub kind: RollbackKind,
    pub target: String,
    pub value: String,
}

/// The key under which the original value of `target` is kept.
pub open spec fn rollback_key_spec(kind: Seq<char>, target: Seq<char>) -> Seq<char> {
    kind + ":"@ + target
}

/// Builds the rollback key `kind:target`.
pub fn rollback_key(kind: &str, target: &str) -> (r: String)
    ensures
        r@ == rollback_key_spec(kind@, target@),
{
    concat3(kind, ":", target)
}

/// The index of the first `c` in `s`, if any.
pub open spec fn first_index(s: Seq<char>, c: char) -> Option<int> {
    if s.contains(c) {
        Some(choose|i: int| 0 <= i < s.len() && s[i] == c && forall|j: int| 0 <= j < i ==> s[j] != c)
    } else {
        None
    }
}

/// The writer named by the part of a key before its first `:`.
pub open spec fn kind_of(name: Seq<char>) -> Option<RollbackKind> {
    if name == "sysctl"@ {
        Some(RollbackKind::Sysctl)
    } else if name == "vm"@ {
        Some(RollbackKind::Vm)
    } else if name == "sysfs"@ {
        Some(RollbackKind::Sysfs)
    } else {
        None
    }
}

/// What restoring the entry `key` with the value `original` amounts to.
pub open spec fn restore_spec(key: Seq<char>, original: Seq<char>) -> Result<
    (RollbackKind, Seq<char>, Seq<char>),
    RollbackError,
> {
    match first_index(key, ':') {
        None => Err(RollbackError::InvalidKey),
        Some(i) => match kind_of(key.subrange(0, i)) {
            None => Err(RollbackError::UnknownKind),
            Some(k) => Ok((k, key.subrange(i + 1, key.len() as int), original)),
        },
    }
}

/// Whether `r` is the restoration that `s` describes.
pub open spec fn restore_matches(
    r: Result<RestoreAction, RollbackError>,
    s: Result<(RollbackKind, Seq<char>, Seq<char>), RollbackError>,
) -> bool {
    match (r, s) {
        (Ok(a), Ok(t)) => a.kind == t.0 && a.target@ == t.1 && a.value@ == t.2,
        (Err(e), Err(f)) => e == f,
        _ => false,
    }
}

/// Splits a rollback key at its first `:` into the writer and its target.
pub fn restore_entry(key: &str, original: &str) -> (r: Result<RestoreAction, RollbackError>)
    ensures
        restore_matches(r, restore_spec(key@, original@)),
{
    let cs = chars_of(key);
    let n = cs.len();
    let mut i: usize = 0;
    while i < n && cs[i] != ':'
        invariant
            cs@ == key@,
            n == cs@.len(),
            i <= n,
            forall|j: int| 0 <= j < i ==> cs@[j] != ':',
        decreases n - i,
    {
        i = i + 1;
    }
    if i == n {
        assert(!key@.contains(':'));
        return Err(RollbackError::InvalidKey);
    }
    proof {
        assert(key@.contains(':'));
        let w = choose|w: int|
            0 <= w < key@.len() && key@[w] == ':' && forall|j: int| 0 <= j < w ==> key@[j] != ':';
        assert(w == i);
    }
    let kind_name = key.substring_char(0, i);
    let target = key.substring_char(i + 1, n).to_owned();
    let kind = if str_eq(kind_name, "sysctl") {
        RollbackKind::Sysctl
    } else if str_eq(kind_name, "vm") {
        RollbackKind::Vm
    } else if str_eq(kind_name, "sysfs") {
        RollbackKind::Sysfs
    } else {
        return Err(RollbackError::UnknownKind);
    };
    Ok(RestoreAction { kind, target, value: original.to_owned() })
}

/// The map that inserting `s` entry after entry into an empty map builds.
pub open spec fn entries_map(s: Seq<(Seq<char>, Seq<char>)>) -> Map<Seq<char>, Seq<char>>
    decreases s.len(),
{
    if s.len() == 0 {
        Map::empty()
    } else {
        entries_map(s.drop_last()).insert(s.last().0, s.last().1)
    }
}

/// The view of a pair of strings.
pub open spec fn pair_view(p: (String, String)) -> (Seq<char>, Seq<char>) {
    (p.0@, p.1@)
}

/// The views of a sequence of string pairs.
pub open spec fn pairs_view(s: Seq<(String, String)>) -> Seq<(Seq<char>, Seq<char>)> {
    s.map_values(|e: (String, String)| pair_view(e))
}

/// The original values recorded so far, by rollback key.
pub struct Rollback {
    entries: StrMap<String>,
}

impl Rollback {
    /// The entries are distinct by key.
    pub closed spec fn wf(&self) -> bool {
        self.entries.wf()
    }

    /// Rollback key to original value.
    pub closed spec fn view(&self) -> Map<Seq<char>, Seq<char>> {
        self.entries@.map_values(|v: String| v@)
    }

    /// The entries in the order they were recorded.
    pub closed spec fn entry_seq(&self) -> Seq<(Seq<char>, Seq<char>)> {
        pairs_view(self.entries.entries@)
    }

    /// The recorded entries are distinct by key and make up the map.
    pub proof fn lemma_entry_seq(&self)
        requires
            self.wf(),
        ensures
            forall|i: int|
                0 <= i < self.entry_seq().len() ==> #[trigger] self@.contains_key(
                    self.entry_seq()[i].0,
                ) && self@[self.entry_seq()[i].0] == self.entry_seq()[i].1,
            forall|k: Seq<char>|
                #[trigger] self@.contains_key(k) ==> exists|i: int|
                    0 <= i < self.entry_seq().len() && #[trigger] self.entry_seq()[i].0 == k,
            forall|i: int, j: int|
                0 <= i < self.entry_seq().len() && 0 <= j < self.entry_seq().len() && i != j
                    ==> #[trigger] self.entry_seq()[i].0 != #[trigger] self.entry_seq()[j].0,
    {
        assert forall|i: int| 0 <= i < self.entry_seq().len() implies #[trigger] self@.contains_key(
            self.entry_seq()[i].0,
        ) && self@[self.entry_seq()[i].0] == self.entry_seq()[i].1 by {
            self.entries.lemma_entry(i);
        }
        assert forall|k: Seq<char>| #[trigger] self@.contains_key(k) implies exists|i: int|
            0 <= i < self.entry_seq().len() && #[trigger] self.entry_seq()[i].0 == k by {
            let i = self.entries.index_of(k);
            assert(self.entry_seq()[i].0 == k);
        }
    }

    /// No entry recorded.
    pub fn new() -> (r: Rollback)
        ensures
            r.wf(),
            r@ == Map::<Seq<char>, Seq<char>>::empty(),
    {
        let r = Rollback { entries: StrMap::new() };
        assert(r@ =~= Map::<Seq<char>, Seq<char>>::empty());
        r
    }

    /// The entries `entries`, inserted in order (a later entry replaces an earlier one with
    /// the same key).
    pub fn from_entries(entries: Vec<(String, String)>) -> (r: Rollback)
        ensures
            r.wf(),
            r@ == entries_map(pairs_view(entries@)),
    {
        let ghost s = pairs_view(entries@);
        let mut r = Rollback::new();
        let mut i: usize = 0;
        proof {
            assert(s.take(0) =~= Seq::<(Seq<char>, Seq<char>)>::empty());
        }
        for e in it: entries
            invariant
                s == pairs_view(it.seq()),
                r.wf(),
                r@ == entries_map(s.take(it.index() as int)),
        {
            let ghost k = it.index() as int;
            proof {
                assert(s.take(k + 1).drop_last() =~= s.take(k));
                assert(s.take(k + 1).last() == pair_view(e));
            }
            let (key, value) = e;
            let ghost old_map = r@;
            r.entries.insert(key, value);
            proof {
                assert(r@ =~= old_map.insert(pair_view(e).0, pair_view(e).1));
            }
        }
        proof {
            assert(s.take(s.len() as int) =~= s);
        }
        r
    }

    /// The number of recorded entries.
    pub fn len(&self) -> (n: usize)
        requires
            self.wf(),
        ensures
            n == self@.len(),
    {
        proof {
            self.lemma_len();
        }
        self.entries.len()
    }

    proof fn lemma_len(&self)
        requires
            self.wf(),
        ensures
            self@.len() == self.entries.entries@.len(),
            self@.dom().finite(),
    {
        let keys = self.entries.key_seq();
        assert forall|i: int, j: int| 0 <= i < keys.len() && 0 <= j < keys.len() && i != j
            implies keys[i] != keys[j] by {
            assert(self.entries.entries@[i].0@ != self.entries.entries@[j].0@);
        }
        assert(keys.no_duplicates());
        assert(self@.dom() =~= keys.to_set()) by {
            assert forall|k: Seq<char>| self@.dom().contains(k) implies keys.to_set().contains(k) by {
                let i = self.entries.index_of(k);
                assert(keys[i] == k);
            }
            assert forall|k: Seq<char>| keys.to_set().contains(k) implies self@.dom().contains(k) by {
                let i = choose|i: int| 0 <= i < keys.len() && keys[i] == k;
                assert(self.entries.has(k) && self.entries.entries@[i].0@ == k);
            }
        }
        keys.unique_seq_to_set();
    }

    /// The recorded entries, for writing them out.
    pub fn entries(&self) -> (r: Vec<(String, String)>)
        ensures
            pairs_view(r@) == self.entry_seq(),
    {
        let mut out: Vec<(String, String)> = Vec::new();
        let mut i: usize = 0;
        while i < self.entries.entries.len()
            invariant
                i <= self.entries.entries@.len(),
                out@.len() == i,
                pairs_view(out@) == self.entry_seq().take(
                    i as int,
                ),
            decreases self.entries.entries@.len() - i,
        {
            let k = self.entries.entries[i].0.clone();
            let v = self.entries.entries[i].1.clone();
            let ghost prev = out@;
            out.push((k, v));
            proof {
                assert(out@ == prev.push((k, v)));
                assert(pair_view((k, v)) == self.entry_seq()[i as int]);
                assert(pairs_view(prev) == self.entry_seq().take(i as int));
                assert forall|j: int| 0 <= j <= i implies #[trigger] pairs_view(out@)[j]
                    == self.entry_seq().take(i + 1)[j] by {
                    if j < i {
                        assert(pairs_view(out@)[j] == pairs_view(prev)[j]);
                    }
                }
                assert(pairs_view(out@) =~= self.entry_seq().take(i + 1));
            }
            i = i + 1;
        }
        proof {
            assert(self.entry_seq().take(i as int) =~= self.entry_seq());
        }
        out
    }

    /// Keeps `original` as the value to restore `key` to, unless `key` already has one: the
    /// first value seen is the one the system had before any profile touched it. Returns
    /// whether the entries changed (and so must be written out again).
    pub fn record_original(&mut self, key: &str, original: &str) -> (changed: bool)
        requires
            old(self).wf(),
        ensures
            final(self).wf(),
            changed == !old(self)@.contains_key(key@),
            final(self)@ == recorded(old(self)@, key@, original@),
            final(self).entry_seq() == if changed {
                old(self).entry_seq().push((key@, original@))
            } else {
                old(self).entry_seq()
            },
    {
        if self.entries.contains_key(key) {
            return false;
        }
        let ghost before = self.entries.entries@;
        let k = key.to_owned();
        let o = original.to_owned();
        proof {
            assert(!self.entries@.contains_key(k@));
        }
        self.entries.insert(k, o);
        proof {
            assert(self@ =~= old(self)@.insert(key@, original@));
            assert(self.entries.entries@ == before.push((k, o)));
            assert(pairs_view(self.entries.entries@) =~= pairs_view(before).push((key@, original@)));
        }
        true
    }

    /// Forgets every entry.
    pub fn clear(&mut self)
        ensures
            final(self).wf(),
            final(self)@ == Map::<Seq<char>, Seq<char>>::empty(),
    {
        *self = Rollback::new();
    }

    /// Takes every entry out, each turned into the write that restores it (or the reason it
    /// cannot be restored), in the order they were recorded; no entry is left.
    pub fn restore_all(&mut self) -> (r: Vec<Result<RestoreAction, RollbackError>>)
        requires
            old(self).wf(),
        ensures
            final(self).wf(),
            final(self)@ == Map::<Seq<char>, Seq<char>>::empty(),
            r@.len() == old(self).entry_seq().len(),
            forall|i: int|
                0 <= i < r@.len() ==> restore_matches(
                    #[trigger] r@[i],
                    restore_spec(old(self).entry_seq()[i].0, old(self).entry_seq()[i].1),
                ),
    {
        let mut out: Vec<Result<RestoreAction, RollbackError>> = Vec::new();
        let mut i: usize = 0;
        while i < self.entries.entries.len()
            invariant
                self == old(self),
                i <= self.entries.entries@.len(),
                out@.len() == i,
                forall|j: int|
                    0 <= j < i ==> restore_matches(
                        #[trigger] out@[j],
                        restore_spec(self.entry_seq()[j].0, self.entry_seq()[j].1),
                    ),
            decreases self.entries.entries@.len() - i,
        {
            let action = restore_entry(
                self.entries.entries[i].0.as_str(),
                self.entries.entries[i].1.as_str(),
            );
            out.push(action);
            i = i + 1;
        }
        self.clear();
        out
    }
}

/// The entries after recording `original` under `key`: an entry already there is kept.
pub open spec fn recorded(
    m: Map<Seq<char>, Seq<char>>,
    key: Seq<char>,
    original: Seq<char>,
) -> Map<Seq<char>, Seq<char>> {
    if m.contains_key(key) {
        m
    } else {
        m.insert(key, original)
    }
}

/// The first value recorded for a key is the one kept: recording `first` and later
/// `second` under the same key leaves what recording `first` alone left, so the value to
/// restore is the one the system had before any profile touched it.
pub proof fn lemma_first_original_wins(
    m: Map<Seq<char>, Seq<char>>,
    key: Seq<char>,
    first: Seq<char>,
    second: Seq<char>,
)
    ensures
        recorded(recorded(m, key, first), key, second) == recorded(m, key, first),
        recorded(recorded(m, key, first), key, second)[key] == if m.contains_key(key) {
            m[key]
        } else {
            first
        },
{
}

/// Recording never drops or changes an entry already there.
pub proof fn lemma_recording_keeps_entries(
    m: Map<Seq<char>, Seq<char>>,
    key: Seq<char>,
    original: Seq<char>,
    other: Seq<char>,
)
    requires
        m.contains_key(other),
    ensures
        recorded(m, key, original).contains_key(other),
        recorded(m, key, original)[other] == m[other],
{
}

/// Once everything is restored nothing is left: a second `restore_all` right after one
/// yields no action.
pub proof fn lemma_restored_is_empty(r: Rollback)
    requires
        r.wf(),
        r@ == Map::<Seq<char>, Seq<char>>::empty(),
    ensures
        r.entry_seq().len() == 0,
{
    r.lemma_entry_seq();
    if r.entry_seq().len() > 0 {
        assert(r@.contains_key(r.entry_seq()[0].0));
    }
}

} // verus!
