//! In-memory configuration model: delimiter strings, templated-file
//! declarations, named replacement sets, and the backup switch, together with
//! the lookups and the whitelist policy that a run is driven by.
//!
//! Names, keys, values and paths are held as byte vectors; the code that loads
//! a configuration from disk converts its strings to bytes and back.

use vstd::prelude::*;

use crate::bytes::bytes_eq;
use crate::bytes::copy_bytes;

verus! {

/// Default for the configuration's backup switch: backups are made unless
/// the configuration turns them off.
pub fn default_backup_value() -> (r: bool)
    ensures
        r == true,
{
    true
}

/// Default for a replacement set's whitelist-only switch: a set may render
/// any file unless it asks for whitelisted files only.
pub fn default_whitelist_only() -> (r: bool)
    ensures
        r == false,
{
    false
}

/// One key/value pair of a replacement set.
pub struct Entry {
    pub key: Vec<u8>,
    pub value: Vec<u8>,
}

/// A named table of key/value pairs, selectable at run time. With
/// `whitelist_only` set, the set may only render files that name it in their
/// whitelist.
pub struct ReplacementSet {
    pub whitelist_only: bool,
    pub entries: Vec<Entry>,
}

/// One file declaration: where the output goes, which template it is built
/// from (relative to the configuration root), and which sets may render it
/// (`None`: any set without `whitelist_only` may).
pub struct TemplatedFile {
    pub output_path: Vec<u8>,
    pub template: Vec<u8>,
    pub whitelist: Option<Vec<Vec<u8>>>,
}

/// A replacement set together with its name.
pub struct NamedSet {
    pub name: Vec<u8>,
    pub set: ReplacementSet,
}

/// The whole configuration of one run, immutable after load.
pub struct Config {
    pub before: Vec<u8>,
    pub after: Vec<u8>,
    pub files: Vec<TemplatedFile>,
    pub sets: Vec<NamedSet>,
    pub backup: bool,
}

/// The value bound to `key`, taken from the first entry whose key matches;
/// `None` when no entry matches. Lookups are exact and case-sensitive.
pub open spec fn lookup_from(entries: Seq<Entry>, key: Seq<u8>, i: int) -> Option<Seq<u8>>
    decreases entries.len() - i,
{
    if i < 0 || i >= entries.len() {
        None
    } else if entries[i].key@ == key {
        Some(entries[i].value@)
    } else {
        lookup_from(entries, key, i + 1)
    }
}

/// The value bound to `key` in `entries`, if any.
pub open spec fn lookup_in(entries: Seq<Entry>, key: Seq<u8>) -> Option<Seq<u8>> {
    lookup_from(entries, key, 0)
}

/// `lookup_in` answers `Some` exactly when some entry carries the key.
pub proof fn lemma_lookup_found(entries: Seq<Entry>, key: Seq<u8>, i: int)
    requires
        0 <= i <= entries.len(),
    ensures
        lookup_from(entries, key, i) is Some <==> exists|j: int|
            i <= j < entries.len() && entries[j].key@ == key,
    decreases entries.len() - i,
{
    if i < entries.len() {
        lemma_lookup_found(entries, key, i + 1);
    }
}

/// The keys of `entries` are pairwise distinct.
pub open spec fn entries_unique(entries: Seq<Entry>) -> bool {
    forall|i: int, j: int|
        0 <= i < j < entries.len() ==> entries[i].key@ != entries[j].key@
}

/// The set names of a configuration are pairwise distinct and every set's
/// entry keys are pairwise distinct.
pub open spec fn config_wf(c: Config) -> bool {
    &&& forall|i: int, j: int|
        0 <= i < j < c.sets@.len() ==> c.sets@[i].name@ != c.sets@[j].name@
    &&& forall|i: int| 0 <= i < c.sets@.len() ==> entries_unique(#[trigger] c.sets@[i].set.entries@)
}

/// Some element of `names` holds the bytes of `name`.
pub open spec fn contains_name(names: Seq<Vec<u8>>, name: Seq<u8>) -> bool {
    exists|i: int| 0 <= i < names.len() && #[trigger] names[i]@ == name
}

/// Whether the selected set may render this file: a file with a whitelist is
/// rendered only by sets the whitelist names; a file without one is rendered
/// by any set that does not insist on whitelists.
pub open spec fn spec_should_process(
    file: TemplatedFile,
    set_name: Seq<u8>,
    whitelist_only: bool,
) -> bool {
    match file.whitelist {
        Some(wl) => contains_name(wl@, set_name),
        None => !whitelist_only,
    }
}

impl ReplacementSet {
    /// Resolve `key` against this set's table, handing back a copy of the
    /// bound value.
    pub fn lookup(&self, key: &Vec<u8>) -> (r: Option<Vec<u8>>)
        ensures
            match r {
                Some(v) => lookup_in(self.entries@, key@) == Some(v@),
                None => lookup_in(self.entries@, key@) is None,
            },
    {
        let mut i: usize = 0;
        while i < self.entries.len()
            invariant
                0 <= i <= self.entries@.len(),
                lookup_from(self.entries@, key@, 0) == lookup_from(self.entries@, key@, i as int),
            decreases self.entries@.len() - i,
        {
            if bytes_eq(&self.entries[i].key, key) {
                return Some(copy_bytes(&self.entries[i].value));
            }
            i += 1;
        }
        None
    }
}

impl Config {
    /// The index of the set called `name`, or `None` when no set has that
    /// name.
    pub fn find_set(&self, name: &Vec<u8>) -> (r: Option<usize>)
        ensures
            match r {
                Some(i) => {
                    &&& i < self.sets@.len()
                    &&& self.sets@[i as int].name@ == name@
                    &&& forall|j: int| 0 <= j < i ==> self.sets@[j].name@ != name@
                },
                None => forall|j: int| 0 <= j < self.sets@.len() ==> self.sets@[j].name@ != name@,
            },
    {
        let mut i: usize = 0;
        while i < self.sets.len()
            invariant
                0 <= i <= self.sets@.len(),
                forall|j: int| 0 <= j < i ==> self.sets@[j].name@ != name@,
            decreases self.sets@.len() - i,
        {
            if bytes_eq(&self.sets[i].name, name) {
                return Some(i);
            }
            i += 1;
        }
        None
    }

    /// The names of all declared sets, in declaration order.
    pub fn set_names(&self) -> (r: Vec<Vec<u8>>)
        ensures
            r@.len() == self.sets@.len(),
            forall|i: int| 0 <= i < r@.len() ==> r@[i]@ == self.sets@[i].name@,
    {
        let mut r: Vec<Vec<u8>> = Vec::new();
        let mut i: usize = 0;
        while i < self.sets.len()
            invariant
                0 <= i <= self.sets@.len(),
                r@.len() == i,
                forall|j: int| 0 <= j < i ==> r@[j]@ == self.sets@[j].name@,
            decreases self.sets@.len() - i,
        {
            r.push(copy_bytes(&self.sets[i].name));
            i += 1;
        }
        r
    }

    /// Structural validation: set names unique, entry keys unique per set.
    pub fn check_wf(&self) -> (r: bool)
        ensures
            r == config_wf(*self),
    {
        let mut i: usize = 0;
        while i < self.sets.len()
            invariant
                0 <= i <= self.sets@.len(),
                forall|p: int, q: int|
                    0 <= p < q < i ==> self.sets@[p].name@ != self.sets@[q].name@,
                forall|p: int| 0 <= p < i ==> entries_unique(#[trigger] self.sets@[p].set.entries@),
            decreases self.sets@.len() - i,
        {
            let mut j: usize = 0;
            while j < i
                invariant
                    0 <= j <= i < self.sets@.len(),
                    forall|q: int| 0 <= q < j ==> self.sets@[q].name@ != self.sets@[i as int].name@,
                decreases i - j,
            {
                if bytes_eq(&self.sets[j].name, &self.sets[i].name) {
                    return false;
                }
                j += 1;
            }
            if !entries_keys_unique(&self.sets[i].set.entries) {
                return false;
            }
            i += 1;
        }
        true
    }
}

/// Whether the keys of `entries` are pairwise distinct.
pub fn entries_keys_unique(entries: &Vec<Entry>) -> (r: bool)
    ensures
        r == entries_unique(entries@),
{
    let mut i: usize = 0;
    while i < entries.len()
        invariant
            0 <= i <= entries@.len(),
            forall|p: int, q: int| 0 <= p < q < i ==> entries@[p].key@ != entries@[q].key@,
        decreases entries@.len() - i,
    {
        let mut j: usize = 0;
        while j < i
            invariant
                0 <= j <= i < entries@.len(),
                forall|q: int| 0 <= q < j ==> entries@[q].key@ != entries@[i as int].key@,
            decreases i - j,
        {
            if bytes_eq(&entries[j].key, &entries[i].key) {
                return false;
            }
            j += 1;
        }
        i += 1;
    }
    true
}

/// Whether the selected set may render this file (the whitelist policy).
pub fn should_process(file: &TemplatedFile, set_name: &Vec<u8>, whitelist_only: bool) -> (r: bool)
    ensures
        r == spec_should_process(*file, set_name@, whitelist_only),
{
    match &file.whitelist {
        Some(wl) => {
            let mut i: usize = 0;
            while i < wl.len()
                invariant
                    0 <= i <= wl@.len(),
                    file.whitelist == Some(*wl),
                    forall|j: int| 0 <= j < i ==> wl@[j]@ != set_name@,
                decreases wl@.len() - i,
            {
                if bytes_eq(&wl[i], set_name) {
                    proof {
                        assert(contains_name(wl@, set_name@)) by {
                            assert(wl@[i as int]@ == set_name@);
                        }
                    }
                    return true;
                }
                i += 1;
            }
            false
        },
        None => !whitelist_only,
    }
}

} // verus!
