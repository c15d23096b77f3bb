//! Versions of the chain's rules, and what is kept for each of them.

use std::rc::Rc;
use vstd::prelude::*;

verus! {

/// A version: three numbers, and the identifiers of a pre-release if it is one.
pub struct Version {
    pub major: u64,
    pub minor: u64,
    pub patch: u64,
    /// The identifiers of a pre-release, joined by dots.
    pub pre: Option<Rc<String>>,
}

/// A version.
#[verifier::ext_equal]
pub ghost struct VersionModel {
    pub major: u64,
    pub minor: u64,
    pub patch: u64,
    pub pre: Option<Seq<char>>,
}

impl View for Version {
    type V = VersionModel;

    open spec fn view(&self) -> VersionModel {
        VersionModel {
            major: self.major,
            minor: self.minor,
            patch: self.patch,
            pre: match self.pre {
                Some(text) => Some(text@),
                None => None,
            },
        }
    }
}

impl Version {
    /// Creates the version of the given numbers, which is no pre-release.
    pub fn new(major: u64, minor: u64, patch: u64) -> (r: Version)
        ensures
            r == (Version { major, minor, patch, pre: None }),
    {
        Version { major, minor, patch, pre: None }
    }

    /// Returns whether this is the same version as the other one.
    pub fn same_version(&self, other: &Version) -> (r: bool)
        ensures
            r == (self@ == other@),
    {
        let pre = match (&self.pre, &other.pre) {
            (Some(a), Some(b)) => **a == **b,
            (None, None) => true,
            _ => false,
        };
        self.major == other.major && self.minor == other.minor && self.patch == other.patch && pre
    }
}

/// A map from versions, held as a vector of entries.
pub struct VersionMap<V> {
    entries: Vec<(Version, V)>,
}

impl<V> View for VersionMap<V> {
    type V = Map<VersionModel, V>;

    closed spec fn view(&self) -> Map<VersionModel, V> {
        crate::collections::entry_map(self.keyed())
    }
}

impl<V> VersionMap<V> {
    /// The entries under the models of their versions.
    spec fn keyed(&self) -> Seq<(VersionModel, V)> {
        self.entries@.map_values(|e: (Version, V)| (e.0@, e.1))
    }

    /// No version occurs twice.
    pub closed spec fn wf(&self) -> bool {
        crate::collections::keys_distinct(self.keyed())
    }

    /// Creates an empty map.
    pub fn new() -> (r: VersionMap<V>)
        ensures
            r.wf(),
            r@ == Map::<VersionModel, V>::empty(),
    {
        let r = VersionMap { entries: Vec::new() };
        assert(r@ =~= Map::<VersionModel, V>::empty());
        r
    }

    /// Returns the position of a version.
    fn index_of(&self, version: &Version) -> (r: Option<usize>)
        requires
            self.wf(),
        ensures
            match r {
                Some(i) => {
                    &&& i < self.entries@.len()
                    &&& self.keyed()[i as int].0 == version@
                    &&& self@.contains_key(version@)
                    &&& self@[version@] == self.entries@[i as int].1
                },
                None => !crate::collections::has_key(self.keyed(), version@),
            },
    {
        let mut i: usize = 0;
        while i < self.entries.len()
            invariant
                i <= self.entries@.len(),
                self.wf(),
                forall|j: int| 0 <= j < i ==> (#[trigger] self.keyed()[j]).0 != version@,
            decreases self.entries@.len() - i,
        {
            if self.entries[i].0.same_version(version) {
                proof {
                    crate::collections::lemma_entry_map_at(self.keyed(), i as int);
                }
                return Some(i);
            }
            i += 1;
        }
        None
    }

    /// Returns what is kept for a version.
    pub fn get(&self, version: &Version) -> (r: Option<&V>)
        requires
            self.wf(),
        ensures
            match r {
                Some(v) => self@.contains_key(version@) && *v == self@[version@],
                None => !self@.contains_key(version@),
            },
    {
        match self.index_of(version) {
            Some(i) => Some(&self.entries[i].1),
            None => None,
        }
    }

    /// Keeps a value for a version, in place of what was kept before.
    pub fn insert(&mut self, version: Version, value: V)
        requires
            old(self).wf(),
        ensures
            final(self).wf(),
            final(self)@ == old(self)@.insert(version@, value),
    {
        let ghost before = self.keyed();
        match self.index_of(&version) {
            Some(i) => {
                proof {
                    crate::collections::lemma_entry_map_update(before, i as int, value);
                }
                self.entries[i] = (version, value);
                assert(self.keyed() =~= before.update(i as int, (version@, value)));
            },
            None => {
                proof {
                    crate::collections::lemma_entry_map_push(before, version@, value);
                }
                self.entries.push((version, value));
                assert(self.keyed() =~= before.push((version@, value)));
            },
        }
    }
}

} // verus!
