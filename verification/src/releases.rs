//! The catalog of releases of one platform: which artifact each version is
//! published as, and the checksum that its bytes must have.

use vstd::prelude::*;
use vstd::std_specs::cmp::PartialEqSpecImpl;
use vstd::string::*;
use crate::hex_string::same_bytes;
use crate::version::{ascending, sort, views, Version, VersionView};

verus! {

/// The published SHA-256 checksum of one version's artifact.
#[derive(Debug, PartialEq, Eq)]
pub struct BuildInfo {
    pub version: Version,
    pub sha256: Vec<u8>,
}

/// A build record as plain values.
pub struct BuildInfoView {
    pub version: VersionView,
    pub sha256: Seq<u8>,
}

impl View for BuildInfo {
    type V = BuildInfoView;

    open spec fn view(&self) -> BuildInfoView {
        BuildInfoView { version: self.version@, sha256: self.sha256@ }
    }
}

impl Clone for BuildInfo {
    fn clone(&self) -> (r: BuildInfo)
        ensures
            r@ == self@,
    {
        BuildInfo { version: self.version.clone(), sha256: self.sha256.clone() }
    }
}

/// A catalog as plain values: the build records in the order of the
/// manifest, and the artifact name of each released version.
pub struct ReleasesView {
    pub builds: Seq<BuildInfoView>,
    pub releases: Map<VersionView, Seq<char>>,
}

/// The index of the first build record of a version, if it has one.
pub open spec fn first_build(builds: Seq<BuildInfoView>, v: VersionView) -> Option<int> {
    if exists|i: int| 0 <= i < builds.len() && (#[trigger] builds[i]).version == v {
        Some(
            choose|i: int|
                0 <= i < builds.len() && (#[trigger] builds[i]).version == v && forall|j: int|
                    0 <= j < i ==> (#[trigger] builds[j]).version != v,
        )
    } else {
        None
    }
}

impl ReleasesView {
    /// The checksum of the first build record of the version.
    pub open spec fn checksum(self, v: VersionView) -> Option<Seq<u8>> {
        match first_build(self.builds, v) {
            Some(i) => Some(self.builds[i].sha256),
            None => None,
        }
    }

    /// The artifact name under which the version is released.
    pub open spec fn artifact(self, v: VersionView) -> Option<Seq<char>> {
        if self.releases.dom().contains(v) {
            Some(self.releases[v])
        } else {
            None
        }
    }
}

/// The releases of one platform. No version has two artifact names.
#[derive(Debug)]
pub struct Releases {
    builds: Vec<BuildInfo>,
    releases: Vec<(Version, String)>,
}

/// Whether no version occurs twice among the entries.
pub closed spec fn keys_unique(entries: Seq<(Version, String)>) -> bool {
    forall|i: int, j: int|
        0 <= i < j < entries.len() ==> (#[trigger] entries[i]).0@ != (#[trigger] entries[j]).0@
}

/// Whether some entry is about the version.
pub closed spec fn has_key(entries: Seq<(Version, String)>, v: VersionView) -> bool {
    exists|i: int| 0 <= i < entries.len() && (#[trigger] entries[i]).0@ == v
}

/// The artifact name of the entry about the version.
pub closed spec fn value_at(entries: Seq<(Version, String)>, v: VersionView) -> Seq<char> {
    let i = choose|i: int| 0 <= i < entries.len() && (#[trigger] entries[i]).0@ == v;
    entries[i].1@
}

/// The mapping that the entries stand for.
pub closed spec fn map_of(entries: Seq<(Version, String)>) -> Map<VersionView, Seq<char>> {
    Map::new(|v: VersionView| has_key(entries, v), |v: VersionView| value_at(entries, v))
}

/// Each entry is in the mapping, under its version and with its name.
proof fn lemma_entry_in_map(entries: Seq<(Version, String)>, i: int)
    requires
        keys_unique(entries),
        0 <= i < entries.len(),
    ensures
        map_of(entries).dom().contains(entries[i].0@),
        map_of(entries)[entries[i].0@] == entries[i].1@,
{
}

/// An entry about a new version, put at the end, is an insertion into the mapping.
proof fn lemma_push_is_insert(entries: Seq<(Version, String)>, e: (Version, String))
    requires
        keys_unique(entries),
        !has_key(entries, e.0@),
    ensures
        keys_unique(entries.push(e)),
        map_of(entries.push(e)) == map_of(entries).insert(e.0@, e.1@),
{
    let after = entries.push(e);
    assert forall|i: int, j: int| 0 <= i < j < after.len() implies (#[trigger] after[i]).0@ != (
    #[trigger] after[j]).0@ by {}
    assert forall|v: VersionView| has_key(after, v) <==> (v == e.0@ || has_key(entries, v)) by {
        if v == e.0@ {
            assert(after[entries.len() as int].0@ == v);
        }
        if has_key(entries, v) {
            let i = choose|i: int| 0 <= i < entries.len() && (#[trigger] entries[i]).0@ == v;
            assert(after[i].0@ == v);
        }
    }
    assert forall|v: VersionView| has_key(after, v) implies #[trigger] map_of(after)[v] == map_of(
        entries,
    ).insert(e.0@, e.1@)[v] by {
        let i = choose|i: int| 0 <= i < after.len() && (#[trigger] after[i]).0@ == v;
        lemma_entry_in_map(after, i);
        if i < entries.len() {
            lemma_entry_in_map(entries, i);
        }
    }
}

/// An entry put in the place of the entry about its version is an insertion into the mapping.
proof fn lemma_update_is_insert(entries: Seq<(Version, String)>, i: int, e: (Version, String))
    requires
        keys_unique(entries),
        0 <= i < entries.len(),
        entries[i].0@ == e.0@,
    ensures
        keys_unique(entries.update(i, e)),
        map_of(entries.update(i, e)) == map_of(entries).insert(e.0@, e.1@),
{
    let after = entries.update(i, e);
    assert forall|a: int, b: int| 0 <= a < b < after.len() implies (#[trigger] after[a]).0@ != (
    #[trigger] after[b]).0@ by {}
    assert forall|v: VersionView| has_key(after, v) <==> (v == e.0@ || has_key(entries, v)) by {
        if has_key(entries, v) {
            let k = choose|k: int| 0 <= k < entries.len() && (#[trigger] entries[k]).0@ == v;
            assert(after[k].0@ == v);
        }
    }
    assert forall|v: VersionView| has_key(after, v) implies #[trigger] map_of(after)[v] == map_of(
        entries,
    ).insert(e.0@, e.1@)[v] by {
        let k = choose|k: int| 0 <= k < after.len() && (#[trigger] after[k]).0@ == v;
        lemma_entry_in_map(after, k);
        if k != i {
            lemma_entry_in_map(entries, k);
        }
    }
}

/// Entries that agree one by one stand for the same mapping.
proof fn lemma_same_entries_same_map(a: Seq<(Version, String)>, b: Seq<(Version, String)>)
    requires
        keys_unique(a),
        a.len() == b.len(),
        forall|i: int| 0 <= i < a.len() ==> (#[trigger] a[i]).0@ == b[i].0@ && a[i].1@ == b[i].1@,
    ensures
        keys_unique(b),
        map_of(a) == map_of(b),
{
    assert forall|i: int, j: int| 0 <= i < j < b.len() implies (#[trigger] b[i]).0@ != (
    #[trigger] b[j]).0@ by {
        assert(a[i].0@ == b[i].0@ && a[j].0@ == b[j].0@);
    }
    assert forall|v: VersionView| has_key(a, v) <==> has_key(b, v) by {
        if has_key(b, v) {
            let i = choose|i: int| 0 <= i < b.len() && (#[trigger] b[i]).0@ == v;
            assert(a[i].0@ == b[i].0@);
        }
    }
    assert forall|v: VersionView| has_key(a, v) implies #[trigger] map_of(a)[v] == map_of(b)[v] by {
        let i = choose|i: int| 0 <= i < a.len() && (#[trigger] a[i]).0@ == v;
        lemma_entry_in_map(a, i);
        lemma_entry_in_map(b, i);
    }
}

impl View for Releases {
    type V = ReleasesView;

    closed spec fn view(&self) -> ReleasesView {
        ReleasesView {
            builds: self.builds@.map_values(|b: BuildInfo| b@),
            releases: map_of(self.releases@),
        }
    }
}

impl Releases {
    /// Holds of every catalog in use: no version has two artifact names.
    #[verifier::type_invariant]
    pub closed spec fn inv(&self) -> bool {
        keys_unique(self.releases@)
    }

    /// The catalog without releases and build records.
    pub fn new() -> (r: Releases)
        ensures
            r@.builds.len() == 0,
            r@.releases == Map::<VersionView, Seq<char>>::empty(),
    {
        let r = Releases { builds: Vec::new(), releases: Vec::new() };
        r
    }

    /// The index of the entry about a version.
    fn position(&self, version: &Version) -> (r: Option<usize>)
        ensures
            match r {
                Some(i) => i < self.releases.len() && self.releases[i as int].0@ == version@,
                None => !has_key(self.releases@, version@),
            },
    {
        let mut i: usize = 0;
        while i < self.releases.len()
            invariant
                i <= self.releases.len(),
                forall|j: int| 0 <= j < i ==> (#[trigger] self.releases[j]).0@ != version@,
            decreases self.releases.len() - i,
        {
            if self.releases[i].0.same(version) {
                return Some(i);
            }
            i += 1;
        }
        None
    }

    /// Records the artifact name of a version, in place of an earlier one if
    /// the version had one.
    pub fn insert(&mut self, version: Version, artifact: String)
        ensures
            final(self)@.releases == old(self)@.releases.insert(version@, artifact@),
            final(self)@.builds == old(self)@.builds,
    {
        proof {
            use_type_invariant(&*self);
        }
        let found = self.position(&version);
        let mut entries: Vec<(Version, String)> = Vec::new();
        core::mem::swap(&mut self.releases, &mut entries);
        match found {
            Some(i) => {
                proof {
                    lemma_update_is_insert(entries@, i as int, (version, artifact));
                }
                entries[i] = (version, artifact);
            },
            None => {
                proof {
                    lemma_push_is_insert(entries@, (version, artifact));
                }
                entries.push((version, artifact));
            },
        }
        self.releases = entries;
    }

    /// Appends a build record.
    pub fn push_build(&mut self, build: BuildInfo)
        ensures
            final(self)@.builds == old(self)@.builds.push(build@),
            final(self)@.releases == old(self)@.releases,
    {
        proof {
            use_type_invariant(&*self);
        }
        let mut builds: Vec<BuildInfo> = Vec::new();
        core::mem::swap(&mut self.builds, &mut builds);
        builds.push(build);
        self.builds = builds;
    }

    /// The checksum of a version's artifact, if one is published: that of the
    /// first build record of the version.
    pub fn get_checksum(&self, v: &Version) -> (r: Option<Vec<u8>>)
        ensures
            match self@.checksum(v@) {
                Some(sum) => r matches Some(x) && x@ == sum,
                None => r is None,
            },
    {
        let mut i: usize = 0;
        while i < self.builds.len()
            invariant
                i <= self.builds.len(),
                self@.builds.len() == self.builds.len(),
                forall|j: int| 0 <= j < self.builds.len() ==> self@.builds[j] == self.builds[j]@,
                forall|j: int| 0 <= j < i ==> (#[trigger] self@.builds[j]).version != v@,
            decreases self.builds.len() - i,
        {
            if self.builds[i].version.same(v) {
                proof {
                    let builds = self@.builds;
                    assert(builds[i as int].version == v@);
                }
                return Some(self.builds[i].sha256.clone());
            }
            i += 1;
        }
        None
    }

    /// The build records, in the order of the manifest.
    pub fn builds(&self) -> (r: &Vec<BuildInfo>)
        ensures
            r@.len() == self@.builds.len(),
            forall|i: int| 0 <= i < r@.len() ==> (#[trigger] r@[i])@ == self@.builds[i],
    {
        &self.builds
    }

    /// The released versions, each once and with its artifact name, in no
    /// particular order.
    pub fn entries(&self) -> (r: &Vec<(Version, String)>)
        ensures
            forall|i: int|
                0 <= i < r@.len() ==> self@.releases.dom().contains((#[trigger] r@[i]).0@)
                    && self@.releases[r@[i].0@] == r@[i].1@,
            forall|v: VersionView| #[trigger]
                self@.releases.dom().contains(v) ==> exists|i: int|
                    0 <= i < r@.len() && (#[trigger] r@[i]).0@ == v,
            forall|i: int, j: int|
                0 <= i < j < r@.len() ==> (#[trigger] r@[i]).0@ != (#[trigger] r@[j]).0@,
    {
        proof {
            use_type_invariant(self);
            assert forall|i: int| 0 <= i < self.releases@.len() implies self@.releases.dom().contains(
                (#[trigger] self.releases@[i]).0@,
            ) && self@.releases[self.releases@[i].0@] == self.releases@[i].1@ by {
                lemma_entry_in_map(self.releases@, i);
            }
        }
        &self.releases
    }

    /// All released versions, each once, in ascending order.
    pub fn into_versions(self) -> (r: Vec<Version>)
        ensures
            ascending(views(r@)),
            views(r@).no_duplicates(),
            forall|v: VersionView| views(r@).contains(v) <==> self@.releases.dom().contains(v),
    {
        proof {
            use_type_invariant(&self);
        }
        let mut versions: Vec<Version> = Vec::new();
        let mut i: usize = 0;
        while i < self.releases.len()
            invariant
                i <= self.releases.len(),
                versions.len() == i,
                forall|j: int| 0 <= j < i ==> (#[trigger] versions[j])@ == self.releases[j].0@,
            decreases self.releases.len() - i,
        {
            versions.push(self.releases[i].0.clone());
            i += 1;
        }
        let ghost keys = views(versions@);
        proof {
            assert forall|a: int, b: int| 0 <= a < b < keys.len() implies keys[a] != keys[b] by {}
        }
        sort(&mut versions);
        proof {
            let sorted = views(versions@);
            assert forall|v: VersionView| sorted.contains(v) <==> self@.releases.dom().contains(
                v,
            ) by {
                if has_key(self.releases@, v) {
                    let k = choose|k: int|
                        0 <= k < self.releases@.len() && (#[trigger] self.releases@[k]).0@ == v;
                    assert(keys[k] == v);
                }
            }
        }
        versions
    }

    /// The artifact name under which a version is released, if it is.
    pub fn get_artifact(&self, version: &Version) -> (r: Option<&String>)
        ensures
            match self@.artifact(version@) {
                Some(name) => r matches Some(x) && x@ == name,
                None => r is None,
            },
    {
        proof {
            use_type_invariant(self);
        }
        match self.position(version) {
            Some(i) => {
                proof {
                    lemma_entry_in_map(self.releases@, i as int);
                }
                Some(&self.releases[i].1)
            },
            None => None,
        }
    }
}

impl Releases {
    /// Whether every release of this catalog is one of the other, under the same name.
    fn within(&self, other: &Releases) -> (r: bool)
        ensures
            r == forall|v: VersionView| #[trigger]
                self@.releases.dom().contains(v) ==> other@.releases.dom().contains(v)
                    && other@.releases[v] == self@.releases[v],
    {
        proof {
            use_type_invariant(self);
        }
        let mut i: usize = 0;
        while i < self.releases.len()
            invariant
                i <= self.releases.len(),
                keys_unique(self.releases@),
                forall|j: int|
                    0 <= j < i ==> other@.releases.dom().contains((#[trigger] self.releases@[j]).0@)
                        && other@.releases[self.releases@[j].0@] == self.releases@[j].1@,
            decreases self.releases.len() - i,
        {
            let entry = &self.releases[i];
            proof {
                lemma_entry_in_map(self.releases@, i as int);
            }
            let agrees = match other.get_artifact(&entry.0) {
                Some(name) => *name == entry.1,
                None => false,
            };
            if !agrees {
                proof {
                    let v = entry.0@;
                    assert(self@.releases[v] == entry.1@);
                }
                return false;
            }
            i += 1;
        }
        proof {
            assert forall|v: VersionView| #[trigger]
                self@.releases.dom().contains(v) implies other@.releases.dom().contains(v)
                && other@.releases[v] == self@.releases[v] by {
                let j = choose|j: int|
                    0 <= j < self.releases@.len() && (#[trigger] self.releases@[j]).0@ == v;
                lemma_entry_in_map(self.releases@, j);
            }
        }
        true
    }

    /// Whether two catalogs hold the same build records in the same order
    /// and release the same versions under the same names.
    pub fn same(&self, other: &Releases) -> (r: bool)
        ensures
            r == (self@ == other@),
    {
        if self.builds.len() != other.builds.len() {
            proof {
                assert(self@.builds.len() != other@.builds.len());
            }
            return false;
        }
        let mut i: usize = 0;
        while i < self.builds.len()
            invariant
                i <= self.builds.len(),
                self.builds.len() == other.builds.len(),
                forall|j: int| 0 <= j < i ==> (#[trigger] self.builds@[j])@ == other.builds@[j]@,
            decreases self.builds.len() - i,
        {
            let a = &self.builds[i];
            let b = &other.builds[i];
            if !(a.version.same(&b.version) && same_bytes(a.sha256.as_slice(), b.sha256.as_slice())) {
                proof {
                    assert(other@.builds[i as int] == b@);
                }
                return false;
            }
            i += 1;
        }
        proof {
            assert(self@.builds =~= other@.builds);
        }
        let r = self.within(other) && other.within(self);
        proof {
            if r {
                assert(self@.releases =~= other@.releases);
            }
        }
        r
    }
}

impl PartialEq for Releases {
    fn eq(&self, other: &Releases) -> (r: bool) {
        self.same(other)
    }
}

impl Eq for Releases {

}

impl PartialEqSpecImpl for Releases {
    open spec fn obeys_eq_spec() -> bool {
        true
    }

    open spec fn eq_spec(&self, other: &Releases) -> bool {
        self@ == other@
    }
}

impl Clone for Releases {
    fn clone(&self) -> (r: Releases)
        ensures
            r@ == self@,
    {
        proof {
            use_type_invariant(self);
        }
        let mut builds: Vec<BuildInfo> = Vec::new();
        let mut i: usize = 0;
        while i < self.builds.len()
            invariant
                i <= self.builds.len(),
                builds.len() == i,
                forall|j: int| 0 <= j < i ==> (#[trigger] builds@[j])@ == self.builds@[j]@,
            decreases self.builds.len() - i,
        {
            builds.push(self.builds[i].clone());
            i += 1;
        }
        let mut releases: Vec<(Version, String)> = Vec::new();
        let mut k: usize = 0;
        while k < self.releases.len()
            invariant
                k <= self.releases.len(),
                releases.len() == k,
                forall|j: int|
                    0 <= j < k ==> (#[trigger] releases@[j]).0@ == self.releases@[j].0@
                        && releases@[j].1@ == self.releases@[j].1@,
            decreases self.releases.len() - k,
        {
            let entry = &self.releases[k];
            releases.push((entry.0.clone(), entry.1.clone()));
            k += 1;
        }
        proof {
            assert forall|j: int| 0 <= j < self.releases@.len() implies (
            #[trigger] self.releases@[j]).0@ == releases@[j].0@ && self.releases@[j].1@
                == releases@[j].1@ by {}
            lemma_same_entries_same_map(self.releases@, releases@);
        }
        let r = Releases { builds, releases };
        proof {
            assert(r@.builds =~= self@.builds);
        }
        r
    }
}

impl Default for Releases {
    fn default() -> (r: Releases)
        ensures
            r@.builds.len() == 0,
            r@.releases == Map::<VersionView, Seq<char>>::empty(),
    {
        Releases::new()
    }
}

} // verus!
